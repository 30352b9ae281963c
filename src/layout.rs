use vstd::prelude::*;
use crate::ast::{ExprModel, LiteralModel, MethodModel, ClassModel, ProgramModel, StmtModel, VariableModel};
use crate::counts::{count_char, plain, lemma_count_concat, lemma_count_one, lemma_plain_chars};
use crate::generator_java::{
    Line, args_text, binop_text, body_lines, class_lines, classes_lines, decl_text, expr_text,
    indent_text, inline_text, line_text, method_header, method_lines,
    method_name_text, method_params_text, methods_lines, modifier_word, modifiers_text,
    opt_expr_text, opt_inline_text, params_text, program_lines, render, stmt_lines,
    type_text, unop_text, lemma_render_concat, lemma_render_one, lemma_block_render,
    lemma_method_render, scanner_decl, scanner_import,
};
use crate::text::{digit_char, int_text, nat_text};
use crate::builder_java::{TranslateError, program_of, translation_of};
use crate::syntax::SyntaxNode;

verus! {

broadcast use lemma_count_concat;


/// Every text the program carries (names, literals, called functions) is plain.
pub open spec fn literal_plain(l: LiteralModel) -> bool {
    match l {
        LiteralModel::Str(s) => plain(s),
        LiteralModel::Float(s) => plain(s),
        LiteralModel::Double(s) => plain(s),
        _ => true,
    }
}

pub open spec fn expr_plain(e: ExprModel) -> bool
    decreases e,
{
    match e {
        ExprModel::Lit(l) => literal_plain(l),
        ExprModel::Var(n) => plain(n),
        ExprModel::Binary(l, _, r) => expr_plain(*l) && expr_plain(*r),
        ExprModel::Prefix(_, r) => expr_plain(*r),
        ExprModel::Postfix(l, _) => expr_plain(*l),
        ExprModel::Call(f, args) => plain(f) && args_plain(args),
    }
}

pub open spec fn args_plain(s: Seq<ExprModel>) -> bool
    decreases s,
{
    if s.len() == 0 {
        true
    } else {
        args_plain(s.subrange(0, s.len() - 1)) && expr_plain(s[s.len() - 1])
    }
}

pub open spec fn opt_expr_plain(e: Option<ExprModel>) -> bool {
    match e {
        Some(x) => expr_plain(x),
        None => true,
    }
}

pub open spec fn stmt_plain(s: StmtModel) -> bool
    decreases s,
{
    match s {
        StmtModel::VarDecl(v, e) => plain(v.name) && opt_expr_plain(e),
        StmtModel::Assign(t, e) => plain(t) && expr_plain(e),
        StmtModel::If(c, t, e) => expr_plain(c) && body_plain(t) && body_plain(e),
        StmtModel::For(i, c, n, b) => (match i {
            Some(x) => stmt_plain(*x),
            None => true,
        }) && opt_expr_plain(c) && (match n {
            Some(x) => stmt_plain(*x),
            None => true,
        }) && body_plain(b),
        StmtModel::While(c, b) => expr_plain(c) && body_plain(b),
        StmtModel::Return(e) => opt_expr_plain(e),
        StmtModel::Expr(e) => expr_plain(e),
    }
}

pub open spec fn body_plain(b: Seq<StmtModel>) -> bool
    decreases b,
{
    if b.len() == 0 {
        true
    } else {
        body_plain(b.subrange(0, b.len() - 1)) && stmt_plain(b[b.len() - 1])
    }
}

pub open spec fn method_plain(m: MethodModel) -> bool {
    &&& plain(m.name)
    &&& forall|k: int| 0 <= k < m.parameters.len() ==> plain(#[trigger] m.parameters[k].name)
    &&& body_plain(m.body)
}

pub open spec fn class_plain(c: ClassModel) -> bool {
    plain(c.name) && forall|j: int| 0 <= j < c.methods.len() ==> method_plain(#[trigger] c.methods[j])
}

pub open spec fn program_plain(p: ProgramModel) -> bool {
    forall|i: int| 0 <= i < p.classes.len() ==> class_plain(#[trigger] p.classes[i])
}

/// As many opening as closing braces, and no tab.
pub open spec fn balanced(s: Seq<char>) -> bool {
    count_char(s, '{') == count_char(s, '}') && count_char(s, '\t') == 0
}

proof fn lemma_opening(pre: Seq<char>)
    requires
        plain(pre),
        pre.len() > 0,
    ensures
        count_char(pre + seq!['{'], '{') == 1,
        count_char(pre + seq!['{'], '}') == 0,
        count_char(pre + seq!['{'], '\t') == 0,
{
    lemma_count_one('{', '{');
    lemma_count_one('{', '}');
    lemma_count_one('{', '\t');
}

proof fn lemma_brace_texts()
    ensures
        count_char(") {"@, '{') == 1,
        count_char(") {"@, '}') == 0,
        count_char(") {"@, '\t') == 0,
        count_char(" {"@, '{') == 1,
        count_char(" {"@, '}') == 0,
        count_char(" {"@, '\t') == 0,
        count_char("else {"@, '{') == 1,
        count_char("else {"@, '}') == 0,
        count_char("else {"@, '\t') == 0,
        count_char("}"@, '{') == 0,
        count_char("}"@, '}') == 1,
        count_char("}"@, '\t') == 0,
{
    reveal_strlit(") {");
    reveal_strlit(" {");
    reveal_strlit("else {");
    reveal_strlit("}");
    lemma_plain_chars(seq![')', ' ']);
    lemma_plain_chars(seq![' ']);
    lemma_plain_chars(seq!['e', 'l', 's', 'e', ' ']);
    assert(") {"@ =~= seq![')', ' '] + seq!['{']);
    assert(" {"@ =~= seq![' '] + seq!['{']);
    assert("else {"@ =~= seq!['e', 'l', 's', 'e', ' '] + seq!['{']);
    lemma_opening(seq![')', ' ']);
    lemma_opening(seq![' ']);
    lemma_opening(seq!['e', 'l', 's', 'e', ' ']);
    assert("}"@ =~= seq!['}']);
    lemma_count_one('}', '{');
    lemma_count_one('}', '}');
    lemma_count_one('}', '\t');
}

proof fn lemma_all_plain_texts()
    ensures
        forall|t: crate::ast::Type| #[trigger] plain(type_text(t)),
        forall|m: crate::ast::Modifier| #[trigger] plain(modifier_word(m)),
        forall|op: crate::ast::BinaryOperator| #[trigger] plain(binop_text(op)),
        forall|op: crate::ast::UnaryOperator| #[trigger] plain(unop_text(op)),
{
    lemma_plain_texts_0();
    lemma_plain_texts_1();
    lemma_plain_texts_2();
    lemma_plain_texts_3();
    assert(plain(Seq::<char>::empty()));
}

proof fn lemma_nat_text_plain(n: nat)
    ensures
        plain(nat_text(n)),
    decreases n,
{
    if n >= 10 {
        lemma_nat_text_plain(n / 10);
    }
    let d = digit_char(if n < 10 {
        n
    } else {
        n % 10
    });
    lemma_count_one(d, '{');
    lemma_count_one(d, '}');
    lemma_count_one(d, '\t');
}

proof fn lemma_int_text_plain(n: int)
    ensures
        plain(int_text(n)),
{
    if n < 0 {
        lemma_nat_text_plain((-n) as nat);
        lemma_count_one('-', '{');
        lemma_count_one('-', '}');
        lemma_count_one('-', '\t');
    } else {
        lemma_nat_text_plain(n as nat);
    }
}

proof fn lemma_expr_plain(e: ExprModel)
    requires
        expr_plain(e),
    ensures
        plain(expr_text(e)),
    decreases e,
{
    lemma_plain_texts_0();
    lemma_plain_texts_1();
    lemma_plain_texts_2();
    lemma_plain_texts_3();
    lemma_all_plain_texts();
    match e {
        ExprModel::Lit(l) => match l {
            LiteralModel::Int(n) => lemma_int_text_plain(n as int),
            _ => {},
        },
        ExprModel::Var(_) => {},
        ExprModel::Binary(l, op, r) => {
            lemma_expr_plain(*l);
            lemma_expr_plain(*r);
        },
        ExprModel::Prefix(op, r) => lemma_expr_plain(*r),
        ExprModel::Postfix(l, op) => lemma_expr_plain(*l),
        ExprModel::Call(f, args) => lemma_args_plain(args),
    }
}

proof fn lemma_args_plain(args: Seq<ExprModel>)
    requires
        args_plain(args),
    ensures
        plain(args_text(args)),
    decreases args,
{
    lemma_plain_texts_0();
    lemma_plain_texts_1();
    lemma_plain_texts_2();
    lemma_plain_texts_3();
    if args.len() == 1 {
        assert(args.subrange(0, 0).len() == 0);
        lemma_expr_plain(args[0]);
    } else if args.len() > 1 {
        lemma_args_plain(args.subrange(0, args.len() - 1));
        lemma_expr_plain(args[args.len() - 1]);
    }
}

proof fn lemma_inline_plain(s: StmtModel)
    requires
        stmt_plain(s),
    ensures
        plain(inline_text(s)),
{
    lemma_plain_texts_0();
    lemma_plain_texts_1();
    lemma_plain_texts_2();
    lemma_plain_texts_3();
    lemma_all_plain_texts();
    assert(plain(Seq::<char>::empty()));
    match s {
        StmtModel::VarDecl(v, e) => {
            assert(plain(type_text(v.typ)));
            match e {
                Some(x) => lemma_expr_plain(x),
                None => {},
            }
        },
        StmtModel::Assign(_, e) => lemma_expr_plain(e),
        StmtModel::Expr(e) => lemma_expr_plain(e),
        _ => {},
    }
}

proof fn lemma_line_counts(l: Line)
    ensures
        count_char(line_text(l), '{') == count_char(l.1, '{'),
        count_char(line_text(l), '}') == count_char(l.1, '}'),
        count_char(line_text(l), '\t') == count_char(l.1, '\t'),
{
    lemma_plain_chars(indent_text(l.0));
    lemma_plain_chars(seq!['\n']);
}

proof fn lemma_one_line(l: Line)
    requires
        plain(l.1),
    ensures
        balanced(render(seq![l])),
        count_char(render(seq![l]), '{') == 0,
{
    lemma_render_one(l);
    lemma_line_counts(l);
}

proof fn lemma_stmt_balanced(s: StmtModel, level: nat)
    requires
        stmt_plain(s),
    ensures
        balanced(render(stmt_lines(s, level))),
    decreases s,
{
    lemma_plain_texts_0();
    lemma_plain_texts_1();
    lemma_plain_texts_2();
    lemma_plain_texts_3();
    lemma_brace_texts();
    let close: Line = (level, "}"@);
    lemma_line_counts(close);
    match s {
        StmtModel::VarDecl(v, e) => {
            lemma_inline_plain(s);
            lemma_one_line((level, decl_text(v, e) + ";"@));
        },
        StmtModel::Assign(t, e) => {
            lemma_expr_plain(e);
            lemma_one_line((level, t + " = "@ + expr_text(e) + ";"@));
        },
        StmtModel::Expr(e) => {
            lemma_expr_plain(e);
            lemma_one_line((level, expr_text(e) + ";"@));
        },
        StmtModel::Return(e) => match e {
            Some(x) => {
                lemma_expr_plain(x);
                lemma_one_line((level, "return "@ + expr_text(x) + ";"@));
            },
            None => {
                lemma_one_line((level, "return;"@));
            },
        },
        StmtModel::If(c, t, e) => {
            lemma_block_render(s, level);
            lemma_expr_plain(c);
            lemma_line_counts(stmt_lines(s, level)[0]);
            lemma_body_balanced(t, level + 1);
            if e.len() > 0 {
                lemma_body_balanced(e, level + 1);
                lemma_line_counts((level, "else {"@));
            }
        },
        StmtModel::While(c, b) => {
            lemma_block_render(s, level);
            lemma_expr_plain(c);
            lemma_line_counts(stmt_lines(s, level)[0]);
            lemma_body_balanced(b, level + 1);
        },
        StmtModel::For(i, c, n, b) => {
            lemma_block_render(s, level);
            match i {
                Some(x) => lemma_inline_plain(*x),
                None => {},
            }
            match c {
                Some(x) => lemma_expr_plain(x),
                None => {},
            }
            match n {
                Some(x) => lemma_inline_plain(*x),
                None => {},
            }
            assert(plain(opt_inline_text(i)));
            assert(plain(opt_expr_text(c)));
            assert(plain(opt_inline_text(n)));
            lemma_line_counts(stmt_lines(s, level)[0]);
            lemma_body_balanced(b, level + 1);
        },
    }
}

proof fn lemma_body_balanced(b: Seq<StmtModel>, level: nat)
    requires
        body_plain(b),
    ensures
        balanced(render(body_lines(b, level))),
    decreases b,
{
    if b.len() == 0 {
        assert(render(body_lines(b, level)) =~= Seq::<char>::empty());
    } else {
        let p = b.subrange(0, b.len() - 1);
        lemma_body_balanced(p, level);
        lemma_stmt_balanced(b[b.len() - 1], level);
        lemma_render_concat(body_lines(p, level), stmt_lines(b[b.len() - 1], level));
    }
}

proof fn lemma_params_plain(ps: Seq<VariableModel>)
    requires
        forall|k: int| 0 <= k < ps.len() ==> plain(#[trigger] ps[k].name),
    ensures
        plain(params_text(ps)),
    decreases ps.len(),
{
    lemma_plain_texts_0();
    lemma_plain_texts_1();
    lemma_plain_texts_2();
    lemma_plain_texts_3();
    lemma_all_plain_texts();
    if ps.len() > 1 {
        let p = ps.subrange(0, ps.len() - 1);
        assert forall|k: int| 0 <= k < p.len() implies plain(#[trigger] p[k].name) by {
            assert(p[k] == ps[k]);
        }
        lemma_params_plain(p);
        assert(plain(ps[ps.len() - 1].name));
    } else if ps.len() == 1 {
        assert(plain(ps[0].name));
    }
}

proof fn lemma_method_balanced(m: MethodModel, input: bool, level: nat)
    requires
        method_plain(m),
    ensures
        balanced(render(method_lines(m, input, level))),
{
    lemma_plain_texts_0();
    lemma_plain_texts_1();
    lemma_plain_texts_2();
    lemma_plain_texts_3();
    lemma_brace_texts();
    lemma_all_plain_texts();
    lemma_method_render(m, input, level);
    lemma_params_plain(m.parameters);
    lemma_modifiers_plain(m.modifiers);
    assert(plain(type_text(m.return_type)));
    assert(plain(Seq::<char>::empty()));
    assert(plain(method_name_text(m.name)));
    assert(plain(method_params_text(m)));
    lemma_line_counts((level, method_header(m)));
    lemma_line_counts((level + 1, scanner_decl()));
    lemma_line_counts((level, "}"@));
    lemma_body_balanced(m.body, level + 1);
}

proof fn lemma_modifiers_plain(ms: Seq<crate::ast::Modifier>)
    ensures
        plain(modifiers_text(ms)),
    decreases ms.len(),
{
    lemma_all_plain_texts();
    assert(plain(Seq::<char>::empty()));
    if ms.len() > 0 {
        lemma_modifiers_plain(ms.subrange(0, ms.len() - 1));
        assert(plain(modifier_word(ms[ms.len() - 1])));
    }
}

proof fn lemma_methods_balanced(ms: Seq<MethodModel>, input: bool, level: nat)
    requires
        forall|j: int| 0 <= j < ms.len() ==> method_plain(#[trigger] ms[j]),
    ensures
        balanced(render(methods_lines(ms, input, level))),
    decreases ms.len(),
{
    if ms.len() == 0 {
        assert(render(methods_lines(ms, input, level)) =~= Seq::<char>::empty());
    } else {
        let p = ms.subrange(0, ms.len() - 1);
        assert forall|j: int| 0 <= j < p.len() implies method_plain(#[trigger] p[j]) by {
            assert(p[j] == ms[j]);
        }
        lemma_methods_balanced(p, input, level);
        lemma_method_balanced(ms[ms.len() - 1], input, level);
        lemma_render_concat(
            methods_lines(p, input, level),
            method_lines(ms[ms.len() - 1], input, level),
        );
    }
}

proof fn lemma_class_balanced(c: ClassModel, level: nat)
    requires
        class_plain(c),
    ensures
        balanced(render(class_lines(c, level))),
{
    lemma_plain_texts_0();
    lemma_plain_texts_1();
    lemma_plain_texts_2();
    lemma_plain_texts_3();
    lemma_brace_texts();
    let imp = if c.uses_input {
        seq![(level, scanner_import())]
    } else {
        Seq::<Line>::empty()
    };
    let head = seq![(level, "class "@ + c.name + " {"@)];
    let ms = methods_lines(c.methods, c.uses_input, level + 1);
    let close = seq![(level, "}"@)];
    lemma_render_concat(imp, head);
    lemma_render_concat(imp + head, ms);
    lemma_render_concat(imp + head + ms, close);
    if c.uses_input {
        lemma_one_line((level, scanner_import()));
    } else {
        assert(render(imp) =~= Seq::<char>::empty());
    }
    lemma_render_one(head[0]);
    lemma_line_counts(head[0]);
    lemma_render_one(close[0]);
    lemma_line_counts(close[0]);
    lemma_methods_balanced(c.methods, c.uses_input, level + 1);
}

proof fn lemma_classes_balanced(cs: Seq<ClassModel>, level: nat)
    requires
        forall|i: int| 0 <= i < cs.len() ==> class_plain(#[trigger] cs[i]),
    ensures
        balanced(render(classes_lines(cs, level))),
    decreases cs.len(),
{
    if cs.len() == 0 {
        assert(render(classes_lines(cs, level)) =~= Seq::<char>::empty());
    } else {
        let p = cs.subrange(0, cs.len() - 1);
        assert forall|i: int| 0 <= i < p.len() implies class_plain(#[trigger] p[i]) by {
            assert(p[i] == cs[i]);
        }
        lemma_classes_balanced(p, level);
        lemma_class_balanced(cs[cs.len() - 1], level);
        lemma_render_concat(classes_lines(p, level), class_lines(cs[cs.len() - 1], level));
    }
}

/// In a translation whose names and literals hold no brace, there are as
/// many `{` as `}`.
pub proof fn braces_balance(t: SyntaxNode, s: Seq<char>)
    requires
        translation_of(t) == Ok::<Seq<char>, TranslateError>(s),
        program_plain(program_of(t)->Ok_0),
    ensures
        count_char(s, '{') == count_char(s, '}'),
{
    lemma_classes_balanced(program_of(t)->Ok_0.classes, 0);
}

/// A translation is a sequence of lines, each four spaces per level, then its
/// content, then one newline; where no name or literal holds a tab, no line does.
pub proof fn indentation(t: SyntaxNode, s: Seq<char>)
    requires
        translation_of(t) == Ok::<Seq<char>, TranslateError>(s),
    ensures
        s == render(program_lines(program_of(t)->Ok_0)),
        forall|k: int|
            0 <= k < program_lines(program_of(t)->Ok_0).len() ==> #[trigger] line_text(
                program_lines(program_of(t)->Ok_0)[k],
            ) == Seq::new(4 * program_lines(program_of(t)->Ok_0)[k].0, |i: int| ' ')
                + program_lines(program_of(t)->Ok_0)[k].1 + seq!['\n'],
        program_plain(program_of(t)->Ok_0) ==> count_char(s, '\t') == 0,
{
    if program_plain(program_of(t)->Ok_0) {
        lemma_classes_balanced(program_of(t)->Ok_0.classes, 0);
    }
}

proof fn lemma_plain_texts_0()
    ensures
        plain("void"@),
        plain("int"@),
        plain("boolean"@),
        plain("String"@),
        plain("float"@),
        plain("double"@),
        plain("Object"@),
        plain("public "@),
        plain("private "@),
        plain("static "@),
        plain(" "@),
        plain(", "@),
        plain("+"@),
{
    reveal_strlit("void");
    lemma_plain_chars("void"@);
    reveal_strlit("int");
    lemma_plain_chars("int"@);
    reveal_strlit("boolean");
    lemma_plain_chars("boolean"@);
    reveal_strlit("String");
    lemma_plain_chars("String"@);
    reveal_strlit("float");
    lemma_plain_chars("float"@);
    reveal_strlit("double");
    lemma_plain_chars("double"@);
    reveal_strlit("Object");
    lemma_plain_chars("Object"@);
    reveal_strlit("public ");
    lemma_plain_chars("public "@);
    reveal_strlit("private ");
    lemma_plain_chars("private "@);
    reveal_strlit("static ");
    lemma_plain_chars("static "@);
    reveal_strlit(" ");
    lemma_plain_chars(" "@);
    reveal_strlit(", ");
    lemma_plain_chars(", "@);
    reveal_strlit("+");
    lemma_plain_chars("+"@);
}

proof fn lemma_plain_texts_1()
    ensures
        plain("-"@),
        plain("*"@),
        plain("/"@),
        plain("=="@),
        plain("!="@),
        plain("<"@),
        plain(">"@),
        plain("<="@),
        plain(">="@),
        plain("&&"@),
        plain("||"@),
        plain("!"@),
        plain("++"@),
{
    reveal_strlit("-");
    lemma_plain_chars("-"@);
    reveal_strlit("*");
    lemma_plain_chars("*"@);
    reveal_strlit("/");
    lemma_plain_chars("/"@);
    reveal_strlit("==");
    lemma_plain_chars("=="@);
    reveal_strlit("!=");
    lemma_plain_chars("!="@);
    reveal_strlit("<");
    lemma_plain_chars("<"@);
    reveal_strlit(">");
    lemma_plain_chars(">"@);
    reveal_strlit("<=");
    lemma_plain_chars("<="@);
    reveal_strlit(">=");
    lemma_plain_chars(">="@);
    reveal_strlit("&&");
    lemma_plain_chars("&&"@);
    reveal_strlit("||");
    lemma_plain_chars("||"@);
    reveal_strlit("!");
    lemma_plain_chars("!"@);
    reveal_strlit("++");
    lemma_plain_chars("++"@);
}

proof fn lemma_plain_texts_2()
    ensures
        plain("--"@),
        plain("true"@),
        plain("false"@),
        plain("f"@),
        plain("d"@),
        plain("System.out.println("@),
        plain(")"@),
        plain("scanner.nextLine()"@),
        plain("scanner.nextInt()"@),
        plain("scanner.nextDouble()"@),
        plain("scanner.nextBoolean()"@),
        plain("("@),
        plain(" = "@),
{
    reveal_strlit("--");
    lemma_plain_chars("--"@);
    reveal_strlit("true");
    lemma_plain_chars("true"@);
    reveal_strlit("false");
    lemma_plain_chars("false"@);
    reveal_strlit("f");
    lemma_plain_chars("f"@);
    reveal_strlit("d");
    lemma_plain_chars("d"@);
    reveal_strlit("System.out.println(");
    lemma_plain_chars("System.out.println("@);
    reveal_strlit(")");
    lemma_plain_chars(")"@);
    reveal_strlit("scanner.nextLine()");
    lemma_plain_chars("scanner.nextLine()"@);
    reveal_strlit("scanner.nextInt()");
    lemma_plain_chars("scanner.nextInt()"@);
    reveal_strlit("scanner.nextDouble()");
    lemma_plain_chars("scanner.nextDouble()"@);
    reveal_strlit("scanner.nextBoolean()");
    lemma_plain_chars("scanner.nextBoolean()"@);
    reveal_strlit("(");
    lemma_plain_chars("("@);
    reveal_strlit(" = ");
    lemma_plain_chars(" = "@);
}

proof fn lemma_plain_texts_3()
    ensures
        plain(";"@),
        plain("return "@),
        plain("return;"@),
        plain("if ("@),
        plain("while ("@),
        plain("for ("@),
        plain("; "@),
        plain("main"@),
        plain("String[] args"@),
        plain("Scanner scanner = new Scanner(System.in);"@),
        plain("import java.util.Scanner;"@),
        plain("class "@),
{
    reveal_strlit(";");
    lemma_plain_chars(";"@);
    reveal_strlit("return ");
    lemma_plain_chars("return "@);
    reveal_strlit("return;");
    lemma_plain_chars("return;"@);
    reveal_strlit("if (");
    lemma_plain_chars("if ("@);
    reveal_strlit("while (");
    lemma_plain_chars("while ("@);
    reveal_strlit("for (");
    lemma_plain_chars("for ("@);
    reveal_strlit("; ");
    lemma_plain_chars("; "@);
    reveal_strlit("main");
    lemma_plain_chars("main"@);
    reveal_strlit("String[] args");
    lemma_plain_chars("String[] args"@);
    reveal_strlit("Scanner scanner = new Scanner(System.in);");
    lemma_plain_chars("Scanner scanner = new Scanner(System.in);"@);
    reveal_strlit("import java.util.Scanner;");
    lemma_plain_chars("import java.util.Scanner;"@);
    reveal_strlit("class ");
    lemma_plain_chars("class "@);
}
} // verus!
