use vstd::prelude::*;

verus! {

/// A whole translated program: its classes in source order.
pub struct Program {
    pub classes: Vec<Class>,
}

/// A class; `uses_input` is set when some call in its methods reads input.
pub struct Class {
    pub name: String,
    pub methods: Vec<Method>,
    pub uses_input: bool,
}

pub struct Method {
    pub name: String,
    pub return_type: Type,
    pub modifiers: Vec<Modifier>,
    pub parameters: Vec<Variable>,
    pub body: Vec<Statement>,
}

/// Return and variable types.
#[derive(Clone, Copy, Debug, PartialEq, Eq, Structural)]
pub enum Type {
    Void,
    Int,
    Bool,
    String,
    Float,
    Double,
    Unknown,
}

/// Method modifiers.
#[derive(Clone, Copy, Debug, PartialEq, Eq, Structural)]
pub enum Modifier {
    Public,
    Private,
    Static,
    Unknown,
}

pub struct Variable {
    pub typ: Type,
    pub name: String,
}

pub enum Statement {
    VariableDeclaration { variable: Variable, value: Option<Expression> },
    Assignment { target: String, value: Expression },
    If { condition: Expression, then_body: Vec<Statement>, else_body: Vec<Statement> },
    For {
        initializer: Option<Box<Statement>>,
        condition: Option<Expression>,
        increment: Option<Box<Statement>>,
        body: Vec<Statement>,
    },
    While { condition: Expression, body: Vec<Statement> },
    Return(Option<Expression>),
    Expression(Expression),
}

pub enum Expression {
    Literal(Literal),
    Variable(String),
    BinaryExpression { left: Box<Expression>, operator: BinaryOperator, right: Box<Expression> },
    PrefixUnaryExpression { operator: UnaryOperator, right: Box<Expression> },
    PostfixUnaryExpression { left: Box<Expression>, operator: UnaryOperator },
    Call { function: String, arguments: Vec<Expression> },
}

/// Literal values. A string keeps its quotes; a real number keeps the
/// decimal text it was written with, without its suffix.
pub enum Literal {
    Int(i32),
    Bool(bool),
    String(String),
    Float(String),
    Double(String),
}

#[derive(Clone, Copy, Debug, PartialEq, Eq, Structural)]
pub enum BinaryOperator {
    Add,
    Sub,
    Mul,
    Div,
    Eq,
    Ne,
    Lt,
    Gt,
    Le,
    Ge,
    And,
    Or,
}

#[derive(Clone, Copy, Debug, PartialEq, Eq, Structural)]
pub enum UnaryOperator {
    Not,
    Neg,
    UAdd,
    USub,
}

// Mathematical models of the IR: the same tree with text as `Seq<char>`.

pub struct VariableModel {
    pub typ: Type,
    pub name: Seq<char>,
}

pub enum LiteralModel {
    Int(i32),
    Bool(bool),
    Str(Seq<char>),
    Float(Seq<char>),
    Double(Seq<char>),
}

pub enum ExprModel {
    Lit(LiteralModel),
    Var(Seq<char>),
    Binary(Box<ExprModel>, BinaryOperator, Box<ExprModel>),
    Prefix(UnaryOperator, Box<ExprModel>),
    Postfix(Box<ExprModel>, UnaryOperator),
    Call(Seq<char>, Seq<ExprModel>),
}

pub enum StmtModel {
    VarDecl(VariableModel, Option<ExprModel>),
    Assign(Seq<char>, ExprModel),
    If(ExprModel, Seq<StmtModel>, Seq<StmtModel>),
    For(Option<Box<StmtModel>>, Option<ExprModel>, Option<Box<StmtModel>>, Seq<StmtModel>),
    While(ExprModel, Seq<StmtModel>),
    Return(Option<ExprModel>),
    Expr(ExprModel),
}

pub struct MethodModel {
    pub name: Seq<char>,
    pub return_type: Type,
    pub modifiers: Seq<Modifier>,
    pub parameters: Seq<VariableModel>,
    pub body: Seq<StmtModel>,
}

pub struct ClassModel {
    pub name: Seq<char>,
    pub methods: Seq<MethodModel>,
    pub uses_input: bool,
}

pub struct ProgramModel {
    pub classes: Seq<ClassModel>,
}

pub open spec fn literal_view(l: Literal) -> LiteralModel {
    match l {
        Literal::Int(n) => LiteralModel::Int(n),
        Literal::Bool(b) => LiteralModel::Bool(b),
        Literal::String(s) => LiteralModel::Str(s@),
        Literal::Float(s) => LiteralModel::Float(s@),
        Literal::Double(s) => LiteralModel::Double(s@),
    }
}

pub open spec fn expr_view(e: Expression) -> ExprModel
    decreases e,
{
    match e {
        Expression::Literal(l) => ExprModel::Lit(literal_view(l)),
        Expression::Variable(name) => ExprModel::Var(name@),
        Expression::BinaryExpression { left, operator, right } => ExprModel::Binary(
            Box::new(expr_view(*left)),
            operator,
            Box::new(expr_view(*right)),
        ),
        Expression::PrefixUnaryExpression { operator, right } => ExprModel::Prefix(
            operator,
            Box::new(expr_view(*right)),
        ),
        Expression::PostfixUnaryExpression { left, operator } => ExprModel::Postfix(
            Box::new(expr_view(*left)),
            operator,
        ),
        Expression::Call { function, arguments } => ExprModel::Call(
            function@,
            exprs_view(arguments@),
        ),
    }
}

pub open spec fn exprs_view(s: Seq<Expression>) -> Seq<ExprModel>
    decreases s,
{
    if s.len() == 0 {
        Seq::empty()
    } else {
        exprs_view(s.subrange(0, s.len() - 1)).push(expr_view(s[s.len() - 1]))
    }
}

pub open spec fn opt_expr_view(e: Option<Expression>) -> Option<ExprModel> {
    match e {
        Some(x) => Some(expr_view(x)),
        None => None,
    }
}

pub open spec fn variable_view(v: Variable) -> VariableModel {
    VariableModel { typ: v.typ, name: v.name@ }
}

pub open spec fn stmt_view(s: Statement) -> StmtModel
    decreases s,
{
    match s {
        Statement::VariableDeclaration { variable, value } => StmtModel::VarDecl(
            variable_view(variable),
            opt_expr_view(value),
        ),
        Statement::Assignment { target, value } => StmtModel::Assign(target@, expr_view(value)),
        Statement::If { condition, then_body, else_body } => StmtModel::If(
            expr_view(condition),
            stmts_view(then_body@),
            stmts_view(else_body@),
        ),
        Statement::For { initializer, condition, increment, body } => StmtModel::For(
            match initializer {
                Some(b) => Some(Box::new(stmt_view(*b))),
                None => None,
            },
            opt_expr_view(condition),
            match increment {
                Some(b) => Some(Box::new(stmt_view(*b))),
                None => None,
            },
            stmts_view(body@),
        ),
        Statement::While { condition, body } => StmtModel::While(
            expr_view(condition),
            stmts_view(body@),
        ),
        Statement::Return(e) => StmtModel::Return(opt_expr_view(e)),
        Statement::Expression(e) => StmtModel::Expr(expr_view(e)),
    }
}

pub open spec fn stmts_view(s: Seq<Statement>) -> Seq<StmtModel>
    decreases s,
{
    if s.len() == 0 {
        Seq::empty()
    } else {
        stmts_view(s.subrange(0, s.len() - 1)).push(stmt_view(s[s.len() - 1]))
    }
}

pub open spec fn variables_view(s: Seq<Variable>) -> Seq<VariableModel> {
    Seq::new(s.len(), |i: int| variable_view(s[i]))
}

pub open spec fn method_view(m: Method) -> MethodModel {
    MethodModel {
        name: m.name@,
        return_type: m.return_type,
        modifiers: m.modifiers@,
        parameters: variables_view(m.parameters@),
        body: stmts_view(m.body@),
    }
}

pub open spec fn methods_view(s: Seq<Method>) -> Seq<MethodModel> {
    Seq::new(s.len(), |i: int| method_view(s[i]))
}

pub open spec fn class_view(c: Class) -> ClassModel {
    ClassModel {
        name: c.name@,
        methods: methods_view(c.methods@),
        uses_input: c.uses_input,
    }
}

pub open spec fn program_view(p: Program) -> ProgramModel {
    ProgramModel { classes: Seq::new(p.classes@.len(), |i: int| class_view(p.classes@[i])) }
}

impl View for Expression {
    type V = ExprModel;

    open spec fn view(&self) -> ExprModel {
        expr_view(*self)
    }
}

impl View for Statement {
    type V = StmtModel;

    open spec fn view(&self) -> StmtModel {
        stmt_view(*self)
    }
}

impl View for Method {
    type V = MethodModel;

    open spec fn view(&self) -> MethodModel {
        method_view(*self)
    }
}

impl View for Class {
    type V = ClassModel;

    open spec fn view(&self) -> ClassModel {
        class_view(*self)
    }
}

impl View for Program {
    type V = ProgramModel;

    open spec fn view(&self) -> ProgramModel {
        program_view(*self)
    }
}

/// The calls that read from standard input.
pub open spec fn is_input_call(name: Seq<char>) -> bool {
    name == "Console.ReadLine"@ || name == "int.Parse"@ || name == "double.Parse"@ || name
        == "bool.Parse"@
}

pub open spec fn expr_uses_input(e: ExprModel) -> bool
    decreases e,
{
    match e {
        ExprModel::Lit(_) => false,
        ExprModel::Var(_) => false,
        ExprModel::Binary(l, _, r) => expr_uses_input(*l) || expr_uses_input(*r),
        ExprModel::Prefix(_, r) => expr_uses_input(*r),
        ExprModel::Postfix(l, _) => expr_uses_input(*l),
        ExprModel::Call(f, args) => is_input_call(f) || exprs_use_input(args),
    }
}

pub open spec fn exprs_use_input(s: Seq<ExprModel>) -> bool
    decreases s,
{
    if s.len() == 0 {
        false
    } else {
        exprs_use_input(s.subrange(0, s.len() - 1)) || expr_uses_input(s[s.len() - 1])
    }
}

pub open spec fn opt_expr_uses_input(e: Option<ExprModel>) -> bool {
    match e {
        Some(x) => expr_uses_input(x),
        None => false,
    }
}

pub open spec fn stmt_uses_input(s: StmtModel) -> bool
    decreases s,
{
    match s {
        StmtModel::VarDecl(_, e) => opt_expr_uses_input(e),
        StmtModel::Assign(_, e) => expr_uses_input(e),
        StmtModel::If(c, t, e) => expr_uses_input(c) || stmts_use_input(t) || stmts_use_input(e),
        StmtModel::For(i, c, n, b) => (match i {
            Some(x) => stmt_uses_input(*x),
            None => false,
        }) || opt_expr_uses_input(c) || (match n {
            Some(x) => stmt_uses_input(*x),
            None => false,
        }) || stmts_use_input(b),
        StmtModel::While(c, b) => expr_uses_input(c) || stmts_use_input(b),
        StmtModel::Return(e) => opt_expr_uses_input(e),
        StmtModel::Expr(e) => expr_uses_input(e),
    }
}

pub open spec fn stmts_use_input(s: Seq<StmtModel>) -> bool
    decreases s,
{
    if s.len() == 0 {
        false
    } else {
        stmts_use_input(s.subrange(0, s.len() - 1)) || stmt_uses_input(s[s.len() - 1])
    }
}

pub open spec fn methods_use_input(ms: Seq<MethodModel>) -> bool
    decreases ms.len(),
{
    if ms.len() == 0 {
        false
    } else {
        methods_use_input(ms.subrange(0, ms.len() - 1)) || stmts_use_input(ms[ms.len() - 1].body)
    }
}

pub proof fn lemma_exprs_view_push(s: Seq<Expression>, i: int)
    requires
        0 <= i < s.len(),
    ensures
        exprs_view(s.subrange(0, i + 1)) == exprs_view(s.subrange(0, i)).push(expr_view(s[i])),
{
    assert(s.subrange(0, i + 1).subrange(0, i) =~= s.subrange(0, i));
}

pub proof fn lemma_stmts_view_push(s: Seq<Statement>, i: int)
    requires
        0 <= i < s.len(),
    ensures
        stmts_view(s.subrange(0, i + 1)) == stmts_view(s.subrange(0, i)).push(stmt_view(s[i])),
{
    assert(s.subrange(0, i + 1).subrange(0, i) =~= s.subrange(0, i));
}

pub proof fn lemma_stmts_view_len(s: Seq<Statement>)
    ensures
        stmts_view(s).len() == s.len(),
        forall|i: int| 0 <= i < s.len() ==> #[trigger] stmts_view(s)[i] == stmt_view(s[i]),
    decreases s.len(),
{
    if s.len() > 0 {
        lemma_stmts_view_len(s.subrange(0, s.len() - 1));
    }
}

pub proof fn lemma_exprs_view_len(s: Seq<Expression>)
    ensures
        exprs_view(s).len() == s.len(),
    decreases s.len(),
{
    if s.len() > 0 {
        lemma_exprs_view_len(s.subrange(0, s.len() - 1));
    }
}

proof fn lemma_exprs_use_input_push(s: Seq<ExprModel>, e: ExprModel)
    ensures
        exprs_use_input(s.push(e)) == (exprs_use_input(s) || expr_uses_input(e)),
{
    assert(s.push(e).subrange(0, s.len() as int) =~= s);
}

proof fn lemma_stmts_use_input_push(s: Seq<StmtModel>, e: StmtModel)
    ensures
        stmts_use_input(s.push(e)) == (stmts_use_input(s) || stmt_uses_input(e)),
{
    assert(s.push(e).subrange(0, s.len() as int) =~= s);
}

/// Tells whether a call name is one of the input-reading calls.
pub fn is_input_name(f: &str) -> (r: bool)
    ensures
        r == is_input_call(f@),
{
    crate::text::text_is(f, "Console.ReadLine") || crate::text::text_is(f, "int.Parse")
        || crate::text::text_is(f, "double.Parse") || crate::text::text_is(f, "bool.Parse")
}

/// Tells whether an expression calls one of the input-reading calls.
pub fn expression_reads_input(e: &Expression) -> (r: bool)
    ensures
        r == expr_uses_input(e@),
    decreases e, 1nat,
{
    match e {
        Expression::Literal(_) => false,
        Expression::Variable(_) => false,
        Expression::BinaryExpression { left, right, .. } => expression_reads_input(left)
            || expression_reads_input(right),
        Expression::PrefixUnaryExpression { right, .. } => expression_reads_input(right),
        Expression::PostfixUnaryExpression { left, .. } => expression_reads_input(left),
        Expression::Call { function, arguments } => {
            proof {
                assert(arguments@.subrange(0, arguments@.len() as int) =~= arguments@);
            }
            is_input_name(function.as_str()) || arguments_read_input(arguments, arguments.len())
        },
    }
}

fn arguments_read_input(args: &Vec<Expression>, n: usize) -> (r: bool)
    requires
        n <= args.len(),
    ensures
        r == exprs_use_input(exprs_view(args@.subrange(0, n as int))),
    decreases args, 0nat, n,
{
    if n == 0 {
        return false;
    }
    proof {
        lemma_exprs_view_push(args@, n - 1);
        lemma_exprs_use_input_push(
            exprs_view(args@.subrange(0, n - 1)),
            expr_view(args@[n - 1]),
        );
    }
    arguments_read_input(args, n - 1) || expression_reads_input(&args[n - 1])
}

fn optional_reads_input(e: &Option<Expression>) -> (r: bool)
    ensures
        r == opt_expr_uses_input(opt_expr_view(*e)),
{
    match e {
        Some(x) => expression_reads_input(x),
        None => false,
    }
}

/// Tells whether a statement calls one of the input-reading calls.
pub fn statement_reads_input(s: &Statement) -> (r: bool)
    ensures
        r == stmt_uses_input(s@),
    decreases s, 1nat,
{
    match s {
        Statement::VariableDeclaration { value, .. } => optional_reads_input(value),
        Statement::Assignment { value, .. } => expression_reads_input(value),
        Statement::If { condition, then_body, else_body } => {
            proof {
                assert(then_body@.subrange(0, then_body@.len() as int) =~= then_body@);
                assert(else_body@.subrange(0, else_body@.len() as int) =~= else_body@);
            }
            expression_reads_input(condition) || statements_read_input(then_body, then_body.len())
                || statements_read_input(else_body, else_body.len())
        },
        Statement::For { initializer, condition, increment, body } => {
            proof {
                assert(body@.subrange(0, body@.len() as int) =~= body@);
            }
            let a = match initializer {
                Some(x) => statement_reads_input(x),
                None => false,
            };
            let c = match increment {
                Some(x) => statement_reads_input(x),
                None => false,
            };
            a || optional_reads_input(condition) || c || statements_read_input(body, body.len())
        },
        Statement::While { condition, body } => {
            proof {
                assert(body@.subrange(0, body@.len() as int) =~= body@);
            }
            expression_reads_input(condition) || statements_read_input(body, body.len())
        },
        Statement::Return(e) => optional_reads_input(e),
        Statement::Expression(e) => expression_reads_input(e),
    }
}

fn statements_read_input(b: &Vec<Statement>, n: usize) -> (r: bool)
    requires
        n <= b.len(),
    ensures
        r == stmts_use_input(stmts_view(b@.subrange(0, n as int))),
    decreases b, 0nat, n,
{
    if n == 0 {
        return false;
    }
    proof {
        lemma_stmts_view_push(b@, n - 1);
        lemma_stmts_use_input_push(stmts_view(b@.subrange(0, n - 1)), stmt_view(b@[n - 1]));
    }
    statements_read_input(b, n - 1) || statement_reads_input(&b[n - 1])
}

/// Tells whether any of the methods calls one of the input-reading calls.
pub fn methods_read_input(methods: &Vec<Method>) -> (r: bool)
    ensures
        r == methods_use_input(methods_view(methods@)),
{
    let mut i: usize = 0;
    while i < methods.len()
        invariant
            i <= methods.len(),
            !methods_use_input(methods_view(methods@.subrange(0, i as int))),
        decreases methods.len() - i,
    {
        let body = &methods[i].body;
        assert(body@.subrange(0, body@.len() as int) =~= body@);
        let found = statements_read_input(body, body.len());
        let ghost p = methods_view(methods@.subrange(0, i + 1));
        assert(p.subrange(0, i as int) =~= methods_view(methods@.subrange(0, i as int)));
        if found {
            proof {
                lemma_methods_use_input_prefix(methods_view(methods@), i + 1);
                assert(methods_view(methods@).subrange(0, i + 1) =~= p);
            }
            return true;
        }
        i = i + 1;
    }
    assert(methods@.subrange(0, i as int) =~= methods@);
    false
}

proof fn lemma_methods_use_input_prefix(ms: Seq<MethodModel>, i: int)
    requires
        0 <= i <= ms.len(),
        methods_use_input(ms.subrange(0, i)),
    ensures
        methods_use_input(ms),
    decreases ms.len() - i,
{
    if i < ms.len() {
        assert(ms.subrange(0, i + 1).subrange(0, i) =~= ms.subrange(0, i));
        lemma_methods_use_input_prefix(ms, i + 1);
    } else {
        assert(ms.subrange(0, i) =~= ms);
    }
}
} // verus!
