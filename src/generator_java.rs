use vstd::prelude::*;
use crate::ast::{
    BinaryOperator, Class, ClassModel, ExprModel, Expression, Literal, LiteralModel, Method,
    MethodModel, Modifier, Program, ProgramModel, Statement, StmtModel, Type, UnaryOperator,
    Variable, VariableModel, expr_view, exprs_view, method_view, class_view, stmt_view,
    stmts_view, variable_view, variables_view, lemma_exprs_view_push, lemma_stmts_view_push,
    lemma_stmts_view_len, lemma_exprs_view_len,
};
use crate::text::{int_text, int_to_text, text_is};

verus! {

/// A line of output: its indentation level and its content.
pub type Line = (nat, Seq<char>);

pub open spec fn indent_text(level: nat) -> Seq<char> {
    Seq::new(4 * level, |i: int| ' ')
}

pub open spec fn line_text(l: Line) -> Seq<char> {
    indent_text(l.0) + l.1 + seq!['\n']
}

/// The text of a sequence of lines, each ending in a newline.
pub open spec fn render(ls: Seq<Line>) -> Seq<char>
    decreases ls.len(),
{
    if ls.len() == 0 {
        Seq::empty()
    } else {
        render(ls.subrange(0, ls.len() - 1)) + line_text(ls[ls.len() - 1])
    }
}

pub open spec fn type_text(t: Type) -> Seq<char> {
    match t {
        Type::Void => "void"@,
        Type::Int => "int"@,
        Type::Bool => "boolean"@,
        Type::String => "String"@,
        Type::Float => "float"@,
        Type::Double => "double"@,
        Type::Unknown => "Object"@,
    }
}

pub open spec fn modifier_word(m: Modifier) -> Seq<char> {
    match m {
        Modifier::Public => "public "@,
        Modifier::Private => "private "@,
        Modifier::Static => "static "@,
        Modifier::Unknown => Seq::empty(),
    }
}

pub open spec fn modifiers_text(ms: Seq<Modifier>) -> Seq<char>
    decreases ms.len(),
{
    if ms.len() == 0 {
        Seq::empty()
    } else {
        modifiers_text(ms.subrange(0, ms.len() - 1)) + modifier_word(ms[ms.len() - 1])
    }
}

pub open spec fn param_text(v: VariableModel) -> Seq<char> {
    type_text(v.typ) + " "@ + v.name
}

/// Parameters as `type name`, separated by `, `.
pub open spec fn params_text(ps: Seq<VariableModel>) -> Seq<char>
    decreases ps.len(),
{
    if ps.len() == 0 {
        Seq::empty()
    } else if ps.len() == 1 {
        param_text(ps[0])
    } else {
        params_text(ps.subrange(0, ps.len() - 1)) + ", "@ + param_text(ps[ps.len() - 1])
    }
}

pub open spec fn binop_text(op: BinaryOperator) -> Seq<char> {
    match op {
        BinaryOperator::Add => "+"@,
        BinaryOperator::Sub => "-"@,
        BinaryOperator::Mul => "*"@,
        BinaryOperator::Div => "/"@,
        BinaryOperator::Eq => "=="@,
        BinaryOperator::Ne => "!="@,
        BinaryOperator::Lt => "<"@,
        BinaryOperator::Gt => ">"@,
        BinaryOperator::Le => "<="@,
        BinaryOperator::Ge => ">="@,
        BinaryOperator::And => "&&"@,
        BinaryOperator::Or => "||"@,
    }
}

pub open spec fn unop_text(op: UnaryOperator) -> Seq<char> {
    match op {
        UnaryOperator::Not => "!"@,
        UnaryOperator::Neg => "-"@,
        UnaryOperator::UAdd => "++"@,
        UnaryOperator::USub => "--"@,
    }
}

pub open spec fn literal_text(l: LiteralModel) -> Seq<char> {
    match l {
        LiteralModel::Int(n) => int_text(n as int),
        LiteralModel::Bool(b) => if b {
            "true"@
        } else {
            "false"@
        },
        LiteralModel::Str(s) => s,
        LiteralModel::Float(s) => s + "f"@,
        LiteralModel::Double(s) => s + "d"@,
    }
}

/// The text of an expression, with the call bridge applied.
pub open spec fn expr_text(e: ExprModel) -> Seq<char>
    decreases e,
{
    match e {
        ExprModel::Lit(l) => literal_text(l),
        ExprModel::Var(name) => name,
        ExprModel::Binary(l, op, r) => expr_text(*l) + " "@ + binop_text(op) + " "@ + expr_text(
            *r,
        ),
        ExprModel::Prefix(op, r) => unop_text(op) + expr_text(*r),
        ExprModel::Postfix(l, op) => expr_text(*l) + unop_text(op),
        ExprModel::Call(f, args) => if f == "Console.WriteLine"@ {
            "System.out.println("@ + args_text(args) + ")"@
        } else if f == "Console.ReadLine"@ {
            "scanner.nextLine()"@
        } else if f == "int.Parse"@ {
            "scanner.nextInt()"@
        } else if f == "double.Parse"@ {
            "scanner.nextDouble()"@
        } else if f == "bool.Parse"@ {
            "scanner.nextBoolean()"@
        } else {
            f + "("@ + args_text(args) + ")"@
        },
    }
}

/// Call arguments separated by `, `.
pub open spec fn args_text(args: Seq<ExprModel>) -> Seq<char>
    decreases args,
{
    if args.len() == 0 {
        Seq::empty()
    } else if args.len() == 1 {
        expr_text(args[0])
    } else {
        args_text(args.subrange(0, args.len() - 1)) + ", "@ + expr_text(args[args.len() - 1])
    }
}

pub open spec fn opt_expr_text(e: Option<ExprModel>) -> Seq<char> {
    match e {
        Some(x) => expr_text(x),
        None => Seq::empty(),
    }
}

pub open spec fn decl_text(v: VariableModel, e: Option<ExprModel>) -> Seq<char> {
    type_text(v.typ) + " "@ + v.name + match e {
        Some(x) => " = "@ + expr_text(x),
        None => Seq::empty(),
    }
}

/// A statement as it stands inside a `for` header, without `;`.
pub open spec fn inline_text(s: StmtModel) -> Seq<char> {
    match s {
        StmtModel::VarDecl(v, e) => decl_text(v, e),
        StmtModel::Assign(t, e) => t + " = "@ + expr_text(e),
        StmtModel::Expr(e) => expr_text(e),
        _ => Seq::empty(),
    }
}

pub open spec fn opt_inline_text(s: Option<Box<StmtModel>>) -> Seq<char> {
    match s {
        Some(x) => inline_text(*x),
        None => Seq::empty(),
    }
}

pub open spec fn for_header(s: StmtModel) -> Seq<char> {
    match s {
        StmtModel::For(i, c, n, _) => "for ("@ + opt_inline_text(i) + "; "@ + opt_expr_text(c)
            + "; "@ + opt_inline_text(n) + ") {"@,
        _ => Seq::empty(),
    }
}

/// The lines of one statement at the given level.
pub open spec fn stmt_lines(s: StmtModel, level: nat) -> Seq<Line>
    decreases s,
{
    match s {
        StmtModel::VarDecl(v, e) => seq![(level, decl_text(v, e) + ";"@)],
        StmtModel::Assign(t, e) => seq![(level, t + " = "@ + expr_text(e) + ";"@)],
        StmtModel::Expr(e) => seq![(level, expr_text(e) + ";"@)],
        StmtModel::Return(e) => match e {
            Some(x) => seq![(level, "return "@ + expr_text(x) + ";"@)],
            None => seq![(level, "return;"@)],
        },
        StmtModel::If(c, t, e) => seq![(level, "if ("@ + expr_text(c) + ") {"@)] + body_lines(
            t,
            level + 1,
        ) + seq![(level, "}"@)] + if e.len() == 0 {
            Seq::empty()
        } else {
            seq![(level, "else {"@)] + body_lines(e, level + 1) + seq![(level, "}"@)]
        },
        StmtModel::While(c, b) => seq![(level, "while ("@ + expr_text(c) + ") {"@)] + body_lines(
            b,
            level + 1,
        ) + seq![(level, "}"@)],
        StmtModel::For(_, _, _, b) => seq![(level, for_header(s))] + body_lines(b, level + 1)
            + seq![(level, "}"@)],
    }
}

/// The lines of a sequence of statements, in order.
pub open spec fn body_lines(b: Seq<StmtModel>, level: nat) -> Seq<Line>
    decreases b,
{
    if b.len() == 0 {
        Seq::empty()
    } else {
        body_lines(b.subrange(0, b.len() - 1), level) + stmt_lines(b[b.len() - 1], level)
    }
}

/// How deeply blocks nest inside a statement.
pub open spec fn stmt_depth(s: StmtModel) -> nat
    decreases s,
{
    match s {
        StmtModel::If(_, t, e) => {
            let a = body_depth(t);
            let b = body_depth(e);
            1 + if a > b {
                a
            } else {
                b
            }
        },
        StmtModel::While(_, b) => 1 + body_depth(b),
        StmtModel::For(_, _, _, b) => 1 + body_depth(b),
        _ => 0,
    }
}

pub open spec fn body_depth(b: Seq<StmtModel>) -> nat
    decreases b,
{
    if b.len() == 0 {
        0
    } else {
        let a = body_depth(b.subrange(0, b.len() - 1));
        let c = stmt_depth(b[b.len() - 1]);
        if a > c {
            a
        } else {
            c
        }
    }
}

pub open spec fn method_name_text(name: Seq<char>) -> Seq<char> {
    if name == "Main"@ {
        "main"@
    } else {
        name
    }
}

pub open spec fn method_params_text(m: MethodModel) -> Seq<char> {
    if m.name == "Main"@ {
        "String[] args"@ + (if m.parameters.len() > 0 {
            ", "@
        } else {
            Seq::empty()
        }) + params_text(m.parameters)
    } else {
        params_text(m.parameters)
    }
}

pub open spec fn method_header(m: MethodModel) -> Seq<char> {
    modifiers_text(m.modifiers) + type_text(m.return_type) + " "@ + method_name_text(m.name) + "("@
        + method_params_text(m) + ") {"@
}

pub open spec fn scanner_decl() -> Seq<char> {
    "Scanner scanner = new Scanner(System.in);"@
}

pub open spec fn scanner_import() -> Seq<char> {
    "import java.util.Scanner;"@
}

pub open spec fn method_lines(m: MethodModel, input: bool, level: nat) -> Seq<Line> {
    seq![(level, method_header(m))] + (if input {
        seq![(level + 1, scanner_decl())]
    } else {
        Seq::empty()
    }) + body_lines(m.body, level + 1) + seq![(level, "}"@)]
}

pub open spec fn methods_lines(ms: Seq<MethodModel>, input: bool, level: nat) -> Seq<Line>
    decreases ms.len(),
{
    if ms.len() == 0 {
        Seq::empty()
    } else {
        methods_lines(ms.subrange(0, ms.len() - 1), input, level) + method_lines(
            ms[ms.len() - 1],
            input,
            level,
        )
    }
}

pub open spec fn class_lines(c: ClassModel, level: nat) -> Seq<Line> {
    (if c.uses_input {
        seq![(level, scanner_import())]
    } else {
        Seq::empty()
    }) + seq![(level, "class "@ + c.name + " {"@)] + methods_lines(c.methods, c.uses_input, level + 1)
        + seq![(level, "}"@)]
}

pub open spec fn classes_lines(cs: Seq<ClassModel>, level: nat) -> Seq<Line>
    decreases cs.len(),
{
    if cs.len() == 0 {
        Seq::empty()
    } else {
        classes_lines(cs.subrange(0, cs.len() - 1), level) + class_lines(cs[cs.len() - 1], level)
    }
}

pub open spec fn program_lines(p: ProgramModel) -> Seq<Line> {
    classes_lines(p.classes, 0)
}

/// The blocks of every method fit `base` levels of indentation plus their own nesting.
pub open spec fn class_fits(c: ClassModel, base: nat) -> bool {
    &&& base + 2 <= usize::MAX
    &&& forall|j: int|
        0 <= j < c.methods.len() ==> base + 2 + body_depth(#[trigger] c.methods[j].body)
            <= usize::MAX
}

pub open spec fn program_fits(p: ProgramModel) -> bool {
    forall|i: int| 0 <= i < p.classes.len() ==> class_fits(#[trigger] p.classes[i], 0)
}

pub proof fn lemma_render_concat(a: Seq<Line>, b: Seq<Line>)
    ensures
        render(a + b) == render(a) + render(b),
    decreases b.len(),
{
    if b.len() == 0 {
        assert(a + b =~= a);
        assert(render(b) =~= Seq::empty());
        assert(render(a) + render(b) =~= render(a));
    } else {
        let b0 = b.subrange(0, b.len() - 1);
        lemma_render_concat(a, b0);
        assert((a + b).subrange(0, (a + b).len() - 1) =~= a + b0);
        assert((a + b)[(a + b).len() - 1] == b[b.len() - 1]);
        assert(render(a + b) =~= render(a) + render(b));
    }
}

pub proof fn lemma_render_push(a: Seq<Line>, l: Line)
    ensures
        render(a.push(l)) == render(a) + line_text(l),
{
    assert(a.push(l).subrange(0, a.len() as int) =~= a);
}




pub proof fn lemma_args_text_push(a: Seq<ExprModel>, e: ExprModel)
    ensures
        args_text(a.push(e)) == if a.len() == 0 {
            expr_text(e)
        } else {
            args_text(a) + ", "@ + expr_text(e)
        },
{
    assert(a.push(e).subrange(0, a.len() as int) =~= a);
    if a.len() == 0 {
        assert(a.push(e)[0] == e);
    }
}

pub proof fn lemma_body_lines_push(b: Seq<StmtModel>, s: StmtModel, level: nat)
    ensures
        body_lines(b.push(s), level) == body_lines(b, level) + stmt_lines(s, level),
        body_depth(b.push(s)) >= body_depth(b),
        body_depth(b.push(s)) >= stmt_depth(s),
{
    assert(b.push(s).subrange(0, b.len() as int) =~= b);
}

pub proof fn lemma_body_depth(b: Seq<StmtModel>, i: int)
    requires
        0 <= i < b.len(),
    ensures
        stmt_depth(b[i]) <= body_depth(b),
        body_depth(b.subrange(0, i)) <= body_depth(b),
    decreases b.len(),
{
    let p = b.subrange(0, b.len() - 1);
    if i < b.len() - 1 {
        lemma_body_depth(p, i);
        assert(p[i] == b[i]);
        assert(p.subrange(0, i) =~= b.subrange(0, i));
    } else {
        assert(b.subrange(0, i) =~= p);
    }
}

pub struct JavaGenerator {
    pub indent: usize,
    pub output: String,
}

impl JavaGenerator {
    pub fn new() -> (r: Self)
        ensures
            r.indent == 0,
            r.output@ == Seq::<char>::empty(),
    {
        Self { indent: 0, output: String::new() }
    }

    /// The whole program as text.
    pub fn generate(program: &Program) -> (r: String)
        requires
            program_fits(program@),
        ensures
            r@ == render(program_lines(program@)),
    {
        let mut generator = JavaGenerator::new();
        generator.create_program(program);
        proof {
            assert(generator.output@ =~= render(program_lines(program@)));
        }
        generator.output
    }

    /// Appends every class of the program.
    pub fn create_program(&mut self, program: &Program)
        requires
            old(self).indent == 0,
            program_fits(program@),
        ensures
            final(self).indent == 0,
            final(self).output@ == old(self).output@ + render(program_lines(program@)),
    {
        let ghost out0 = self.output@;
        let ghost cs = program@.classes;
        let mut i: usize = 0;
        while i < program.classes.len()
            invariant
                i <= program.classes.len(),
                cs == program@.classes,
                cs.len() == program.classes@.len(),
                self.indent == 0,
                program_fits(program@),
                self.output@ == out0 + render(classes_lines(cs.subrange(0, i as int), 0)),
            decreases program.classes.len() - i,
        {
            assert(cs[i as int] == class_view(program.classes@[i as int]));
            self.create_class(&program.classes[i]);
            proof {
                let p = cs.subrange(0, i as int);
                assert(cs.subrange(0, i + 1).subrange(0, i as int) =~= p);
                lemma_render_concat(classes_lines(p, 0), class_lines(cs[i as int], 0));
            }
            i = i + 1;
        }
        assert(cs.subrange(0, i as int) =~= cs);
    }

    /// Appends a class: the import line when it reads input, then its methods.
    pub fn create_class(&mut self, class: &Class)
        requires
            class_fits(class@, old(self).indent as nat),
        ensures
            final(self).indent == old(self).indent,
            final(self).output@ == old(self).output@ + render(
                class_lines(class@, old(self).indent as nat),
            ),
    {
        let ghost out0 = self.output@;
        let ghost lvl = self.indent as nat;
        let ghost c = class@;
        let ghost first = if c.uses_input {
            seq![(lvl, scanner_import())]
        } else {
            Seq::<Line>::empty()
        };
        if class.uses_input {
            self.create_line("import java.util.Scanner;");
            proof {
                lemma_render_push(Seq::empty(), (lvl, scanner_import()));
                assert(Seq::<Line>::empty().push((lvl, scanner_import())) =~= first);
            }
        }
        assert(self.output@ == out0 + render(first));
        let mut head = String::from_str("class ");
        head.append(class.name.as_str());
        head.append(" {");
        self.create_line(head.as_str());
        proof {
            lemma_render_push(first, (lvl, "class "@ + c.name + " {"@));
        }
        self.indent = self.indent + 1;
        let ghost before = first.push((lvl, "class "@ + c.name + " {"@));
        let mut i: usize = 0;
        while i < class.methods.len()
            invariant
                i <= class.methods.len(),
                c == class@,
                c.methods.len() == class.methods@.len(),
                class_fits(c, lvl),
                self.indent == lvl + 1,
                self.output@ == out0 + render(before) + render(
                    methods_lines(c.methods.subrange(0, i as int), c.uses_input, lvl + 1),
                ),
            decreases class.methods.len() - i,
        {
            assert(c.methods[i as int] == method_view(class.methods@[i as int]));
            assert(lvl + 2 + body_depth(c.methods[i as int].body) <= usize::MAX);
            self.create_method(&class.methods[i], class.uses_input);
            proof {
                let p = c.methods.subrange(0, i as int);
                assert(c.methods.subrange(0, i + 1).subrange(0, i as int) =~= p);
                lemma_render_concat(
                    methods_lines(p, c.uses_input, lvl + 1),
                    method_lines(c.methods[i as int], c.uses_input, lvl + 1),
                );
            }
            i = i + 1;
        }
        assert(c.methods.subrange(0, i as int) =~= c.methods);
        self.indent = self.indent - 1;
        self.create_line("}");
        proof {
            let ms = methods_lines(c.methods, c.uses_input, lvl + 1);
            lemma_render_concat(before, ms);
            lemma_render_push(before + ms, (lvl, "}"@));
            assert(before + ms + seq![(lvl, "}"@)] =~= class_lines(c, lvl));
            assert((before + ms).push((lvl, "}"@)) =~= class_lines(c, lvl));
        }
    }

    /// Appends a method; `input` adds the scanner declaration to its body.
    pub fn create_method(&mut self, method: &Method, input: bool)
        requires
            old(self).indent + 1 + body_depth(method@.body) <= usize::MAX,
        ensures
            final(self).indent == old(self).indent,
            final(self).output@ == old(self).output@ + render(
                method_lines(method@, input, old(self).indent as nat),
            ),
    {
        let ghost out0 = self.output@;
        let ghost lvl = self.indent as nat;
        let ghost m = method@;
        let head = method_head(method);
        self.create_line(head.as_str());
        self.indent = self.indent + 1;
        let ghost out1 = self.output@;
        if input {
            self.create_line("Scanner scanner = new Scanner(System.in);");
        }
        let ghost out2 = self.output@;
        self.create_body(&method.body);
        self.indent = self.indent - 1;
        self.create_line("}");
        proof {
            lemma_method_render(m, input, lvl);
            assert(out2 == out1 + (if input {
                line_text((lvl + 1, scanner_decl()))
            } else {
                Seq::empty()
            })) by {
                if !input {
                    assert(out2 =~= out1 + Seq::<char>::empty());
                }
            }
            assert(self.output@ =~= out0 + render(method_lines(m, input, lvl)));
        }
    }

    /// Appends one line, indented by four spaces per level.
    pub fn create_line(&mut self, line: &str)
        ensures
            final(self).indent == old(self).indent,
            final(self).output@ == old(self).output@ + line_text((old(self).indent as nat, line@)),
    {
        let ghost out0 = self.output@;
        proof {
            reveal_strlit("    ");
            reveal_strlit("\n");
        }
        let mut i: usize = 0;
        while i < self.indent
            invariant
                i <= self.indent,
                self.indent == old(self).indent,
                self.output@ == out0 + indent_text(i as nat),
            decreases self.indent - i,
        {
            self.output.append("    ");
            proof {
                reveal_strlit("    ");
            }
            assert(indent_text(i as nat) + "    "@ =~= indent_text((i + 1) as nat));
            i = i + 1;
        }
        self.output.append(line);
        self.output.append("\n");
        assert(self.output@ =~= out0 + line_text((old(self).indent as nat, line@)));
    }

    /// Appends the statements of a block at the current level.
    fn create_body(&mut self, body: &Vec<Statement>)
        requires
            old(self).indent + body_depth(stmts_view(body@)) <= usize::MAX,
        ensures
            final(self).indent == old(self).indent,
            final(self).output@ == old(self).output@ + render(
                body_lines(stmts_view(body@), old(self).indent as nat),
            ),
        decreases body, 2nat,
    {
        let ghost out0 = self.output@;
        let ghost lvl = self.indent as nat;
        let mut i: usize = 0;
        while i < body.len()
            invariant
                i <= body.len(),
                self.indent == lvl,
                lvl + body_depth(stmts_view(body@)) <= usize::MAX,
                self.output@ == out0 + render(
                    body_lines(stmts_view(body@.subrange(0, i as int)), lvl),
                ),
            decreases body.len() - i,
        {
            proof {
                lemma_stmts_view_len(body@);
                lemma_body_depth(stmts_view(body@), i as int);
            }
            self.create_statement(&body[i]);
            proof {
                lemma_stmts_view_push(body@, i as int);
                let p = stmts_view(body@.subrange(0, i as int));
                lemma_body_lines_push(p, stmt_view(body@[i as int]), lvl);
                lemma_render_concat(body_lines(p, lvl), stmt_lines(stmt_view(body@[i as int]), lvl));
            }
            i = i + 1;
        }
        assert(body@.subrange(0, i as int) =~= body@);
    }

    fn create_statement(&mut self, stmt: &Statement)
        requires
            old(self).indent + stmt_depth(stmt@) <= usize::MAX,
        ensures
            final(self).indent == old(self).indent,
            final(self).output@ == old(self).output@ + render(
                stmt_lines(stmt@, old(self).indent as nat),
            ),
        decreases stmt, 1nat,
    {
        let ghost out0 = self.output@;
        let ghost lvl = self.indent as nat;
        match stmt {
            Statement::VariableDeclaration { variable, value } => {
                let mut line = self.create_inline_statement(stmt);
                line.append(";");
                self.create_line(line.as_str());
                proof {
                    lemma_render_push(Seq::empty(), (lvl, line@));
                    assert(Seq::<Line>::empty().push((lvl, line@)) =~= stmt_lines(stmt@, lvl));
                }
            },
            Statement::Assignment { target, value } => {
                let mut line = self.create_inline_statement(stmt);
                line.append(";");
                self.create_line(line.as_str());
                proof {
                    lemma_render_push(Seq::empty(), (lvl, line@));
                    assert(Seq::<Line>::empty().push((lvl, line@)) =~= stmt_lines(stmt@, lvl));
                }
            },
            Statement::Expression(expr) => {
                let mut line = self.create_expression(expr);
                line.append(";");
                self.create_line(line.as_str());
                proof {
                    lemma_render_push(Seq::empty(), (lvl, line@));
                    assert(Seq::<Line>::empty().push((lvl, line@)) =~= stmt_lines(stmt@, lvl));
                }
            },
            Statement::Return(expr) => {
                let mut line = String::from_str("return");
                match expr {
                    Some(e) => {
                        let t = self.create_expression(e);
                        line.append(" ");
                        line.append(t.as_str());
                    },
                    None => {},
                }
                line.append(";");
                proof {
                    reveal_strlit("return");
                    reveal_strlit("return ");
                    reveal_strlit("return;");
                    reveal_strlit(" ");
                    reveal_strlit(";");
                }
                assert(line@ =~= stmt_lines(stmt@, lvl)[0].1);
                self.create_line(line.as_str());
                proof {
                    lemma_render_push(Seq::empty(), (lvl, line@));
                    assert(Seq::<Line>::empty().push((lvl, line@)) =~= stmt_lines(stmt@, lvl));
                }
            },
            Statement::If { .. } => self.create_if(stmt),
            Statement::While { .. } => self.create_while(stmt),
            Statement::For { .. } => self.create_for(stmt),
        }
    }

    /// Appends an `if` statement and its `else` block.
    fn create_if(&mut self, stmt: &Statement)
        requires
            old(self).indent + stmt_depth(stmt@) <= usize::MAX,
            stmt is If,
        ensures
            final(self).indent == old(self).indent,
            final(self).output@ == old(self).output@ + render(
                stmt_lines(stmt@, old(self).indent as nat),
            ),
        decreases stmt, 0nat,
    {
        let ghost out0 = self.output@;
        let ghost lvl = self.indent as nat;
        proof {
            lemma_block_render(stmt@, lvl);
        }
        match stmt {
            Statement::If { condition, then_body, else_body } => {
                let c = self.create_expression(condition);
                let mut head = String::from_str("if (");
                head.append(c.as_str());
                head.append(") {");
                self.create_line(head.as_str());
                self.indent = self.indent + 1;
                self.create_body(then_body);
                self.indent = self.indent - 1;
                self.create_line("}");
                let ghost out1 = self.output@;
                if else_body.len() > 0 {
                    self.create_line("else {");
                    self.indent = self.indent + 1;
                    self.create_body(else_body);
                    self.indent = self.indent - 1;
                    self.create_line("}");
                }
                proof {
                    lemma_stmts_view_len(else_body@);
                    if else_body.len() == 0 {
                        assert(self.output@ =~= out1 + Seq::<char>::empty());
                    }
                }
                assert(self.output@ =~= out0 + render(stmt_lines(stmt@, lvl)));
            },
            _ => {},
        }
    }

    /// Appends a `while` loop.
    fn create_while(&mut self, stmt: &Statement)
        requires
            old(self).indent + stmt_depth(stmt@) <= usize::MAX,
            stmt is While,
        ensures
            final(self).indent == old(self).indent,
            final(self).output@ == old(self).output@ + render(
                stmt_lines(stmt@, old(self).indent as nat),
            ),
        decreases stmt, 0nat,
    {
        let ghost out0 = self.output@;
        let ghost lvl = self.indent as nat;
        proof {
            lemma_block_render(stmt@, lvl);
        }
        match stmt {
            Statement::While { condition, body } => {
                let c = self.create_expression(condition);
                let mut head = String::from_str("while (");
                head.append(c.as_str());
                head.append(") {");
                self.create_line(head.as_str());
                self.indent = self.indent + 1;
                self.create_body(body);
                self.indent = self.indent - 1;
                self.create_line("}");
                assert(self.output@ =~= out0 + render(stmt_lines(stmt@, lvl)));
            },
            _ => {},
        }
    }

    /// Appends a `for` loop.
    fn create_for(&mut self, stmt: &Statement)
        requires
            old(self).indent + stmt_depth(stmt@) <= usize::MAX,
            stmt is For,
        ensures
            final(self).indent == old(self).indent,
            final(self).output@ == old(self).output@ + render(
                stmt_lines(stmt@, old(self).indent as nat),
            ),
        decreases stmt, 0nat,
    {
        let ghost out0 = self.output@;
        let ghost lvl = self.indent as nat;
        proof {
            lemma_block_render(stmt@, lvl);
        }
        match stmt {
            Statement::For { initializer, condition, increment, body } => {
                let init = match initializer {
                    Some(s) => self.create_inline_statement(s),
                    None => String::new(),
                };
                let cond = match condition {
                    Some(e) => self.create_expression(e),
                    None => String::new(),
                };
                let inc = match increment {
                    Some(s) => self.create_inline_statement(s),
                    None => String::new(),
                };
                let mut head = String::from_str("for (");
                head.append(init.as_str());
                head.append("; ");
                head.append(cond.as_str());
                head.append("; ");
                head.append(inc.as_str());
                head.append(") {");
                assert(head@ =~= for_header(stmt@));
                self.create_line(head.as_str());
                self.indent = self.indent + 1;
                self.create_body(body);
                self.indent = self.indent - 1;
                self.create_line("}");
                assert(self.output@ =~= out0 + render(stmt_lines(stmt@, lvl)));
            },
            _ => {},
        }
    }

    /// A statement as it stands inside a `for` header.
    fn create_inline_statement(&mut self, stmt: &Statement) -> (r: String)
        ensures
            *final(self) == *old(self),
            r@ == inline_text(stmt@),
    {
        match stmt {
            Statement::VariableDeclaration { variable, value } => {
                let mut out = java_type(&variable.typ);
                out.append(" ");
                out.append(variable.name.as_str());
                match value {
                    Some(e) => {
                        let t = self.create_expression(e);
                        out.append(" = ");
                        out.append(t.as_str());
                    },
                    None => {},
                }
                assert(out@ =~= inline_text(stmt@));
                out
            },
            Statement::Assignment { target, value } => {
                let t = self.create_expression(value);
                let mut out = target.clone();
                out.append(" = ");
                out.append(t.as_str());
                assert(out@ =~= inline_text(stmt@));
                out
            },
            Statement::Expression(e) => self.create_expression(e),
            _ => String::new(),
        }
    }

    /// The text of an expression, with the call bridge applied.
    pub fn create_expression(&mut self, expr: &Expression) -> (r: String)
        ensures
            *final(self) == *old(self),
            r@ == expr_text(expr@),
        decreases expr,
    {
        match expr {
            Expression::Literal(lit) => match lit {
                Literal::Int(n) => int_to_text(*n),
                Literal::Bool(b) => if *b {
                    String::from_str("true")
                } else {
                    String::from_str("false")
                },
                Literal::String(s) => s.clone(),
                Literal::Float(s) => {
                    let mut out = s.clone();
                    out.append("f");
                    out
                },
                Literal::Double(s) => {
                    let mut out = s.clone();
                    out.append("d");
                    out
                },
            },
            Expression::Variable(name) => name.clone(),
            Expression::BinaryExpression { left, operator, right } => {
                let l = self.create_expression(left);
                let r = self.create_expression(right);
                let mut out = l;
                out.append(" ");
                out.append(java_binary_operator(operator));
                out.append(" ");
                out.append(r.as_str());
                assert(out@ =~= expr_text(expr@));
                out
            },
            Expression::PrefixUnaryExpression { operator, right } => {
                let r = self.create_expression(right);
                let mut out = String::from_str(java_unary_operator(operator));
                out.append(r.as_str());
                out
            },
            Expression::PostfixUnaryExpression { left, operator } => {
                let mut out = self.create_expression(left);
                out.append(java_unary_operator(operator));
                out
            },
            Expression::Call { function, arguments } => {
                let f = function.as_str();
                if text_is(f, "Console.WriteLine") {
                    let args = self.create_arguments(arguments);
                    let mut out = String::from_str("System.out.println(");
                    out.append(args.as_str());
                    out.append(")");
                    out
                } else if text_is(f, "Console.ReadLine") {
                    String::from_str("scanner.nextLine()")
                } else if text_is(f, "int.Parse") {
                    String::from_str("scanner.nextInt()")
                } else if text_is(f, "double.Parse") {
                    String::from_str("scanner.nextDouble()")
                } else if text_is(f, "bool.Parse") {
                    String::from_str("scanner.nextBoolean()")
                } else {
                    let args = self.create_arguments(arguments);
                    let mut out = function.clone();
                    out.append("(");
                    out.append(args.as_str());
                    out.append(")");
                    out
                }
            },
        }
    }

    /// Call arguments, separated by `, `.
    fn create_arguments(&mut self, arguments: &Vec<Expression>) -> (r: String)
        ensures
            *final(self) == *old(self),
            r@ == args_text(exprs_view(arguments@)),
        decreases arguments,
    {
        let mut out = String::new();
        let mut i: usize = 0;
        while i < arguments.len()
            invariant
                i <= arguments.len(),
                *self == *old(self),
                out@ == args_text(exprs_view(arguments@.subrange(0, i as int))),
            decreases arguments.len() - i,
        {
            let t = self.create_expression(&arguments[i]);
            proof {
                lemma_exprs_view_push(arguments@, i as int);
                lemma_args_text_push(
                    exprs_view(arguments@.subrange(0, i as int)),
                    expr_view(arguments@[i as int]),
                );
                lemma_exprs_view_len(arguments@.subrange(0, i as int));
            }
            if i > 0 {
                out.append(", ");
            }
            out.append(t.as_str());
            i = i + 1;
        }
        assert(arguments@.subrange(0, i as int) =~= arguments@);
        out
    }
}

/// The opening line of a method, with the entry-point bridge applied.
fn method_head(method: &Method) -> (r: String)
    ensures
        r@ == method_header(method@),
{
    let modifiers = java_modifier(&method.modifiers);
    let return_type = java_type(&method.return_type);
    let parameters = java_parameters(&method.parameters);
    let is_main = text_is(method.name.as_str(), "Main");
    let mut head = modifiers;
    head.append(return_type.as_str());
    head.append(" ");
    if is_main {
        head.append("main");
    } else {
        head.append(method.name.as_str());
    }
    head.append("(");
    if is_main {
        head.append("String[] args");
        if method.parameters.len() > 0 {
            head.append(", ");
        }
    }
    head.append(parameters.as_str());
    head.append(") {");
    assert(head@ =~= method_header(method@));
    head
}

pub proof fn lemma_render_one(l: Line)
    ensures
        render(seq![l]) == line_text(l),
{
    assert(seq![l].subrange(0, 0) =~= Seq::<Line>::empty());
    assert(seq![l][0] == l);
    assert(render(Seq::<Line>::empty()) =~= Seq::<char>::empty());
    assert(Seq::<char>::empty() + line_text(l) =~= line_text(l));
}

pub proof fn lemma_method_render(m: MethodModel, input: bool, level: nat)
    ensures
        render(method_lines(m, input, level)) == line_text((level, method_header(m))) + (if input {
            line_text((level + 1, scanner_decl()))
        } else {
            Seq::empty()
        }) + render(body_lines(m.body, level + 1)) + line_text((level, "}"@)),
{
    let h = seq![(level, method_header(m))];
    let sc = if input {
        seq![(level + 1, scanner_decl())]
    } else {
        Seq::<Line>::empty()
    };
    let bl = body_lines(m.body, level + 1);
    let cl = seq![(level, "}"@)];
    lemma_render_concat(h, sc);
    lemma_render_concat(h + sc, bl);
    lemma_render_concat(h + sc + bl, cl);
    lemma_render_one((level, method_header(m)));
    lemma_render_one((level, "}"@));
    if input {
        lemma_render_one((level + 1, scanner_decl()));
    } else {
        assert(render(sc) =~= Seq::<char>::empty());
    }
}

pub proof fn lemma_block_render(s: StmtModel, level: nat)
    requires
        s is If || s is While || s is For,
    ensures
        s is If ==> render(stmt_lines(s, level)) == line_text(stmt_lines(s, level)[0])
            + render(body_lines(s->If_1, level + 1)) + line_text((level, "}"@)) + if s->If_2.len()
            == 0 {
            Seq::empty()
        } else {
            line_text((level, "else {"@)) + render(body_lines(s->If_2, level + 1)) + line_text(
                (level, "}"@),
            )
        },
        s is While ==> render(stmt_lines(s, level)) == line_text(stmt_lines(s, level)[0])
            + render(body_lines(s->While_1, level + 1)) + line_text((level, "}"@)),
        s is For ==> render(stmt_lines(s, level)) == line_text(stmt_lines(s, level)[0]) + render(
            body_lines(s->For_3, level + 1),
        ) + line_text((level, "}"@)),
{
    let cl = seq![(level, "}"@)];
    lemma_render_one((level, "}"@));
    match s {
        StmtModel::If(c, t, e) => {
            let h = seq![(level, "if ("@ + expr_text(c) + ") {"@)];
            let tl = body_lines(t, level + 1);
            lemma_render_one(h[0]);
            lemma_render_concat(h, tl);
            lemma_render_concat(h + tl, cl);
            if e.len() == 0 {
                assert(stmt_lines(s, level) =~= h + tl + cl + Seq::<Line>::empty());
                lemma_render_concat(h + tl + cl, Seq::<Line>::empty());
                assert(render(Seq::<Line>::empty()) =~= Seq::<char>::empty());
            } else {
                let eh = seq![(level, "else {"@)];
                let el = body_lines(e, level + 1);
                lemma_render_one(eh[0]);
                lemma_render_concat(eh, el);
                lemma_render_concat(eh + el, cl);
                lemma_render_concat(h + tl + cl, eh + el + cl);
                assert(stmt_lines(s, level) =~= h + tl + cl + (eh + el + cl));
            }
        },
        StmtModel::While(c, b) => {
            let h = seq![(level, "while ("@ + expr_text(c) + ") {"@)];
            let bl = body_lines(b, level + 1);
            lemma_render_one(h[0]);
            lemma_render_concat(h, bl);
            lemma_render_concat(h + bl, cl);
        },
        StmtModel::For(_, _, _, b) => {
            let h = seq![(level, for_header(s))];
            let bl = body_lines(b, level + 1);
            lemma_render_one(h[0]);
            lemma_render_concat(h, bl);
            lemma_render_concat(h + bl, cl);
        },
        _ => {},
    }
}


fn java_binary_operator(op: &BinaryOperator) -> (r: &'static str)
    ensures
        r@ == binop_text(*op),
{
    match op {
        BinaryOperator::Add => "+",
        BinaryOperator::Sub => "-",
        BinaryOperator::Mul => "*",
        BinaryOperator::Div => "/",
        BinaryOperator::Eq => "==",
        BinaryOperator::Ne => "!=",
        BinaryOperator::Lt => "<",
        BinaryOperator::Gt => ">",
        BinaryOperator::Le => "<=",
        BinaryOperator::Ge => ">=",
        BinaryOperator::And => "&&",
        BinaryOperator::Or => "||",
    }
}

fn java_unary_operator(op: &UnaryOperator) -> (r: &'static str)
    ensures
        r@ == unop_text(*op),
{
    match op {
        UnaryOperator::Not => "!",
        UnaryOperator::Neg => "-",
        UnaryOperator::UAdd => "++",
        UnaryOperator::USub => "--",
    }
}

/// The modifier words, each followed by a space; unknown ones are left out.
pub fn java_modifier(modifiers: &Vec<Modifier>) -> (r: String)
    ensures
        r@ == modifiers_text(modifiers@),
{
    let mut out = String::new();
    let mut i: usize = 0;
    while i < modifiers.len()
        invariant
            i <= modifiers.len(),
            out@ == modifiers_text(modifiers@.subrange(0, i as int)),
        decreases modifiers.len() - i,
    {
        match modifiers[i] {
            Modifier::Public => out.append("public "),
            Modifier::Private => out.append("private "),
            Modifier::Static => out.append("static "),
            Modifier::Unknown => {},
        }
        assert(modifiers@.subrange(0, i + 1).subrange(0, i as int) =~= modifiers@.subrange(0, i as int));
        assert(out@ =~= modifiers_text(modifiers@.subrange(0, i + 1)));
        i = i + 1;
    }
    assert(modifiers@.subrange(0, i as int) =~= modifiers@);
    out
}

/// The target spelling of a type.
pub fn java_type(typ: &Type) -> (r: String)
    ensures
        r@ == type_text(*typ),
{
    match typ {
        Type::Void => String::from_str("void"),
        Type::Int => String::from_str("int"),
        Type::Bool => String::from_str("boolean"),
        Type::String => String::from_str("String"),
        Type::Float => String::from_str("float"),
        Type::Double => String::from_str("double"),
        Type::Unknown => String::from_str("Object"),
    }
}

/// Parameters as `type name`, separated by `, `.
pub fn java_parameters(parameters: &Vec<Variable>) -> (r: String)
    ensures
        r@ == params_text(variables_view(parameters@)),
{
    let ghost vs = variables_view(parameters@);
    let mut out = String::new();
    let mut i: usize = 0;
    while i < parameters.len()
        invariant
            i <= parameters.len(),
            vs == variables_view(parameters@),
            out@ == params_text(vs.subrange(0, i as int)),
        decreases parameters.len() - i,
    {
        let t = java_type(&parameters[i].typ);
        if i > 0 {
            out.append(", ");
        }
        out.append(t.as_str());
        out.append(" ");
        out.append(parameters[i].name.as_str());
        proof {
            let q = vs.subrange(0, i + 1);
            assert(q.subrange(0, i as int) =~= vs.subrange(0, i as int));
            assert(q[i as int] == variable_view(parameters@[i as int]));
            if i == 0 {
                assert(out@ =~= params_text(q));
            } else {
                assert(out@ =~= params_text(q));
            }
        }
        i = i + 1;
    }
    assert(vs.subrange(0, i as int) =~= vs);
    out
}

} // verus!
