use vstd::prelude::*;
use crate::ast::{
    BinaryOperator, Class, ClassModel, ExprModel, Expression, Literal, LiteralModel, Method,
    MethodModel, Modifier, Statement, StmtModel, Type, UnaryOperator, Variable, VariableModel,
    class_view, expr_view, exprs_view, method_view, methods_use_input, methods_view, stmt_view, stmts_view,
    variables_view, methods_read_input,
};
use crate::syntax::{
    Probe, SyntaxNode, child_by_field, child_of_kind, find_child, first_from, has_kind,
    is_initializer, is_named, is_return_value, lacks_kind, lemma_first_from_range,
};
use crate::text::text_is;

verus! {

broadcast use lemma_first_from_range;

/// Why a syntax tree could not be lowered.
#[derive(Clone, Copy, Debug, PartialEq, Eq, Structural)]
pub enum BuildError {
    /// A node of a recognised kind lacks a field or child that it needs.
    MissingPart,
    /// An operator outside the supported set.
    UnsupportedOperator,
    /// An expression kind outside the supported set.
    UnsupportedExpression,
    /// An assignment whose target is not a plain name.
    UnsupportedTarget,
    /// A `for` initializer that is neither a declaration nor an assignment.
    UnsupportedForClause,
    /// A called function whose name is not a dotted path of names.
    UnsupportedFunction,
    /// A number literal that does not fit or does not read as a number.
    InvalidLiteral,
    /// A parameter whose text has no space between type and name.
    MalformedParameter,
}

// ---------------------------------------------------------------------
// Spellings
// ---------------------------------------------------------------------

pub open spec fn type_of(s: Seq<char>) -> Type {
    if s == "void"@ {
        Type::Void
    } else if s == "int"@ {
        Type::Int
    } else if s == "bool"@ {
        Type::Bool
    } else if s == "string"@ {
        Type::String
    } else if s == "float"@ {
        Type::Float
    } else if s == "double"@ {
        Type::Double
    } else {
        Type::Unknown
    }
}

pub open spec fn modifier_of(s: Seq<char>) -> Modifier {
    if s == "public"@ {
        Modifier::Public
    } else if s == "private"@ {
        Modifier::Private
    } else if s == "static"@ {
        Modifier::Static
    } else {
        Modifier::Unknown
    }
}

pub open spec fn binop_of(s: Seq<char>) -> Option<BinaryOperator> {
    if s == "+"@ {
        Some(BinaryOperator::Add)
    } else if s == "-"@ {
        Some(BinaryOperator::Sub)
    } else if s == "*"@ {
        Some(BinaryOperator::Mul)
    } else if s == "/"@ {
        Some(BinaryOperator::Div)
    } else if s == "=="@ {
        Some(BinaryOperator::Eq)
    } else if s == "!="@ {
        Some(BinaryOperator::Ne)
    } else if s == "<"@ {
        Some(BinaryOperator::Lt)
    } else if s == ">"@ {
        Some(BinaryOperator::Gt)
    } else if s == "<="@ {
        Some(BinaryOperator::Le)
    } else if s == ">="@ {
        Some(BinaryOperator::Ge)
    } else if s == "&&"@ {
        Some(BinaryOperator::And)
    } else if s == "||"@ {
        Some(BinaryOperator::Or)
    } else {
        None
    }
}

pub open spec fn prefix_op_of(s: Seq<char>) -> Option<UnaryOperator> {
    if s == "!"@ {
        Some(UnaryOperator::Not)
    } else if s == "-"@ {
        Some(UnaryOperator::Neg)
    } else {
        None
    }
}

pub open spec fn postfix_op_of(s: Seq<char>) -> Option<UnaryOperator> {
    if s == "++"@ {
        Some(UnaryOperator::UAdd)
    } else if s == "--"@ {
        Some(UnaryOperator::USub)
    } else {
        None
    }
}

// ---------------------------------------------------------------------
// Literals and parameters
// ---------------------------------------------------------------------

pub open spec fn is_digit(c: char) -> bool {
    '0' <= c && c <= '9'
}

pub open spec fn digits_value(s: Seq<char>) -> int
    decreases s.len(),
{
    if s.len() == 0 {
        0
    } else {
        digits_value(s.subrange(0, s.len() - 1)) * 10 + (s[s.len() - 1] as int - '0' as int)
    }
}

pub open spec fn all_digits(s: Seq<char>) -> bool {
    forall|i: int| 0 <= i < s.len() ==> is_digit(#[trigger] s[i])
}

/// The value of a base-10 integer literal that fits in 32 bits.
pub open spec fn int_literal_value(s: Seq<char>) -> Option<i32> {
    if s.len() > 0 && all_digits(s) && digits_value(s) <= i32::MAX {
        Some(digits_value(s) as i32)
    } else {
        None
    }
}

pub open spec fn is_real_char(c: char) -> bool {
    is_digit(c) || c == '.' || c == 'e' || c == 'E' || c == '+' || c == '-'
}

/// Decimal text of a real number: digits, point, exponent and signs only.
pub open spec fn valid_real(s: Seq<char>) -> bool {
    &&& forall|i: int| 0 <= i < s.len() ==> is_real_char(#[trigger] s[i])
    &&& exists|i: int| 0 <= i < s.len() && is_digit(#[trigger] s[i])
}

/// A real literal: `f`/`F` makes a float, `d`/`D` a double, no suffix a float.
pub open spec fn real_literal(t: Seq<char>) -> Result<LiteralModel, BuildError> {
    let body = t.subrange(0, t.len() - 1);
    if t.len() > 0 && (t[t.len() - 1] == 'f' || t[t.len() - 1] == 'F') {
        if valid_real(body) {
            Ok(LiteralModel::Float(body))
        } else {
            Err(BuildError::InvalidLiteral)
        }
    } else if t.len() > 0 && (t[t.len() - 1] == 'd' || t[t.len() - 1] == 'D') {
        if valid_real(body) {
            Ok(LiteralModel::Double(body))
        } else {
            Err(BuildError::InvalidLiteral)
        }
    } else if valid_real(t) {
        Ok(LiteralModel::Float(t))
    } else {
        Err(BuildError::InvalidLiteral)
    }
}

pub open spec fn first_space(t: Seq<char>, i: int) -> Option<int>
    decreases t.len() - i,
{
    if i < 0 || i >= t.len() {
        None
    } else if t[i] == ' ' {
        Some(i)
    } else {
        first_space(t, i + 1)
    }
}

/// A parameter's text split at its first space into type and name.
pub open spec fn param_of(t: Seq<char>) -> Option<VariableModel> {
    match first_space(t, 0) {
        Some(i) => Some(
            VariableModel { typ: type_of(t.subrange(0, i)), name: t.subrange(i + 1, t.len() as int) },
        ),
        None => None,
    }
}

pub open spec fn params_of(ts: Seq<Seq<char>>) -> Result<Seq<VariableModel>, BuildError>
    decreases ts.len(),
{
    if ts.len() == 0 {
        Ok(Seq::empty())
    } else {
        match params_of(ts.subrange(0, ts.len() - 1)) {
            Err(e) => Err(e),
            Ok(ps) => match param_of(ts[ts.len() - 1]) {
                Some(p) => Ok(ps.push(p)),
                None => Err(BuildError::MalformedParameter),
            },
        }
    }
}

/// The texts of the children of the given kind, in order.
pub open spec fn texts_of_kind(cs: Seq<SyntaxNode>, k: Seq<char>) -> Seq<Seq<char>>
    decreases cs.len(),
{
    if cs.len() == 0 {
        Seq::empty()
    } else {
        let rest = texts_of_kind(cs.subrange(0, cs.len() - 1), k);
        if cs[cs.len() - 1].kind@ == k {
            rest.push(cs[cs.len() - 1].text@)
        } else {
            rest
        }
    }
}

/// The modifiers that open a declaration, up to its first other child.
pub open spec fn leading_modifiers(cs: Seq<SyntaxNode>) -> Seq<Modifier> {
    let n = match first_from(cs, lacks_kind("modifier"@), 0) {
        Some(j) => j,
        None => cs.len() as int,
    };
    Seq::new(n as nat, |j: int| modifier_of(cs[j].text@))
}

// ---------------------------------------------------------------------
// Expressions
// ---------------------------------------------------------------------

/// The dotted name of a called function.
pub open spec fn function_name(n: SyntaxNode) -> Result<Seq<char>, BuildError>
    decreases n,
{
    if n.kind@ == "identifier"@ || n.kind@ == "predefined_type"@ {
        Ok(n.text@)
    } else if n.kind@ == "member_access_expression"@ {
        match (child_by_field(n, "expression"@), child_by_field(n, "name"@)) {
            (Some(l), Some(r)) => match (function_name(l), function_name(r)) {
                (Ok(a), Ok(b)) => Ok(a + "."@ + b),
                (Err(e), _) => Err(e),
                (_, Err(e)) => Err(e),
            },
            _ => Err(BuildError::MissingPart),
        }
    } else {
        Err(BuildError::UnsupportedFunction)
    }
}

pub open spec fn lower_expr(n: SyntaxNode) -> Result<ExprModel, BuildError>
    decreases n, 1nat,
{
    let k = n.kind@;
    if k == "argument"@ {
        match first_from(n.children@, is_named(), 0) {
            Some(i) => lower_expr(n.children@[i]),
            None => Err(BuildError::MissingPart),
        }
    } else if k == "expression_statement"@ {
        if n.children@.len() > 0 {
            lower_expr(n.children@[0])
        } else {
            Err(BuildError::MissingPart)
        }
    } else if k == "binary_expression"@ {
        lower_binary(n)
    } else if k == "prefix_unary_expression"@ {
        lower_unary(n, true)
    } else if k == "postfix_unary_expression"@ {
        lower_unary(n, false)
    } else if k == "invocation_expression"@ {
        lower_call(n)
    } else if k == "integer_literal"@ {
        match int_literal_value(n.text@) {
            Some(v) => Ok(ExprModel::Lit(LiteralModel::Int(v))),
            None => Err(BuildError::InvalidLiteral),
        }
    } else if k == "real_literal"@ {
        match real_literal(n.text@) {
            Ok(l) => Ok(ExprModel::Lit(l)),
            Err(e) => Err(e),
        }
    } else if k == "boolean_literal"@ {
        Ok(ExprModel::Lit(LiteralModel::Bool(n.text@ == "true"@)))
    } else if k == "string_literal"@ {
        Ok(ExprModel::Lit(LiteralModel::Str(n.text@)))
    } else if k == "identifier"@ {
        Ok(ExprModel::Var(n.text@))
    } else {
        Err(BuildError::UnsupportedExpression)
    }
}

pub open spec fn lower_binary(n: SyntaxNode) -> Result<ExprModel, BuildError>
    decreases n, 0nat,
{
    match (child_by_field(n, "left"@), child_by_field(n, "right"@), child_by_field(n, "operator"@)) {
        (Some(l), Some(r), Some(o)) => match lower_expr(l) {
            Err(e) => Err(e),
            Ok(le) => match lower_expr(r) {
                Err(e) => Err(e),
                Ok(re) => match binop_of(o.text@) {
                    Some(op) => Ok(ExprModel::Binary(Box::new(le), op, Box::new(re))),
                    None => Err(BuildError::UnsupportedOperator),
                },
            },
        },
        _ => Err(BuildError::MissingPart),
    }
}

/// A prefix expression is operator then operand; a postfix one the reverse.
pub open spec fn lower_unary(n: SyntaxNode, prefix: bool) -> Result<ExprModel, BuildError>
    decreases n, 0nat,
{
    let cs = n.children@;
    if cs.len() < 2 {
        Err(BuildError::MissingPart)
    } else if prefix {
        match prefix_op_of(cs[0].text@) {
            None => Err(BuildError::UnsupportedOperator),
            Some(op) => match lower_expr(cs[1]) {
                Ok(e) => Ok(ExprModel::Prefix(op, Box::new(e))),
                Err(x) => Err(x),
            },
        }
    } else {
        match postfix_op_of(cs[1].text@) {
            None => Err(BuildError::UnsupportedOperator),
            Some(op) => match lower_expr(cs[0]) {
                Ok(e) => Ok(ExprModel::Postfix(Box::new(e), op)),
                Err(x) => Err(x),
            },
        }
    }
}

pub open spec fn lower_call(n: SyntaxNode) -> Result<ExprModel, BuildError>
    decreases n, 0nat,
{
    match child_by_field(n, "function"@) {
        None => Err(BuildError::MissingPart),
        Some(f) => match function_name(f) {
            Err(e) => Err(e),
            Ok(name) => match child_by_field(n, "arguments"@) {
                None => Err(BuildError::MissingPart),
                Some(a) => match lower_args(a.children@) {
                    Err(e) => Err(e),
                    Ok(args) => Ok(ExprModel::Call(name, args)),
                },
            },
        },
    }
}

/// The `argument` children of an argument list, lowered in order.
pub open spec fn lower_args(cs: Seq<SyntaxNode>) -> Result<Seq<ExprModel>, BuildError>
    decreases cs, 0nat,
{
    if cs.len() == 0 {
        Ok(Seq::empty())
    } else {
        match lower_args(cs.subrange(0, cs.len() - 1)) {
            Err(e) => Err(e),
            Ok(a) => if cs[cs.len() - 1].kind@ == "argument"@ {
                match lower_expr(cs[cs.len() - 1]) {
                    Ok(e) => Ok(a.push(e)),
                    Err(x) => Err(x),
                }
            } else {
                Ok(a)
            },
        }
    }
}

// ---------------------------------------------------------------------
// Statements
// ---------------------------------------------------------------------

/// A `variable_declaration` node: type, name and optional initial value.
pub open spec fn lower_declaration(d: SyntaxNode) -> Result<StmtModel, BuildError>
    decreases d, 1nat,
{
    match (child_of_kind(d, "predefined_type"@), child_of_kind(d, "variable_declarator"@)) {
        (Some(t), Some(v)) => match first_from(v.children@, has_kind("identifier"@), 0) {
            None => Err(BuildError::MissingPart),
            Some(i) => {
                let var = VariableModel { typ: type_of(t.text@), name: v.children@[i].text@ };
                match first_from(v.children@, is_initializer(), i + 1) {
                    None => Ok(StmtModel::VarDecl(var, None)),
                    Some(j) => match lower_expr(v.children@[j]) {
                        Ok(e) => Ok(StmtModel::VarDecl(var, Some(e))),
                        Err(x) => Err(x),
                    },
                }
            },
        },
        _ => Err(BuildError::MissingPart),
    }
}

/// A declaration statement, or a bare `variable_declaration`.
pub open spec fn lower_var(n: SyntaxNode) -> Result<StmtModel, BuildError>
    decreases n, 2nat,
{
    if n.kind@ == "variable_declaration"@ {
        lower_declaration(n)
    } else {
        match child_of_kind(n, "variable_declaration"@) {
            Some(d) => lower_declaration(d),
            None => Err(BuildError::MissingPart),
        }
    }
}

/// `name = value`; a compound assignment operator is not supported.
pub open spec fn lower_assignment(n: SyntaxNode) -> Result<StmtModel, BuildError>
    decreases n, 1nat,
{
    match (child_by_field(n, "left"@), child_by_field(n, "right"@)) {
        (Some(l), Some(r)) => if l.kind@ != "identifier"@ {
            Err(BuildError::UnsupportedTarget)
        } else if (match child_by_field(n, "operator"@) {
            Some(o) => o.text@ != "="@,
            None => false,
        }) {
            Err(BuildError::UnsupportedOperator)
        } else {
            match lower_expr(r) {
                Ok(e) => Ok(StmtModel::Assign(l.text@, e)),
                Err(x) => Err(x),
            }
        },
        _ => Err(BuildError::MissingPart),
    }
}

pub open spec fn lower_return(n: SyntaxNode) -> Result<StmtModel, BuildError>
    decreases n, 2nat,
{
    match first_from(n.children@, is_return_value(), 0) {
        Some(i) => match lower_expr(n.children@[i]) {
            Ok(e) => Ok(StmtModel::Return(Some(e))),
            Err(x) => Err(x),
        },
        None => Ok(StmtModel::Return(None)),
    }
}

pub open spec fn some_stmt(r: Result<StmtModel, BuildError>) -> Result<Option<StmtModel>, BuildError> {
    match r {
        Ok(s) => Ok(Some(s)),
        Err(e) => Err(e),
    }
}

/// An expression statement: an assignment, or an expression on its own.
pub open spec fn lower_expression_statement(c: SyntaxNode) -> Result<StmtModel, BuildError> {
    if c.children@.len() == 0 {
        Err(BuildError::MissingPart)
    } else if c.children@[0].kind@ == "assignment_expression"@ {
        lower_assignment(c.children@[0])
    } else {
        match lower_expr(c.children@[0]) {
            Ok(e) => Ok(StmtModel::Expr(e)),
            Err(x) => Err(x),
        }
    }
}

/// One child of a block: `None` for a kind that is skipped.
pub open spec fn lower_stmt(c: SyntaxNode) -> Result<Option<StmtModel>, BuildError>
    decreases c, 3nat,
{
    let k = c.kind@;
    if k == "local_declaration_statement"@ {
        some_stmt(lower_var(c))
    } else if k == "expression_statement"@ {
        some_stmt(lower_expression_statement(c))
    } else if k == "if_statement"@ {
        some_stmt(lower_if(c))
    } else if k == "for_statement"@ {
        some_stmt(lower_for(c))
    } else if k == "while_statement"@ {
        some_stmt(lower_while(c))
    } else if k == "return_statement"@ {
        some_stmt(lower_return(c))
    } else {
        Ok(None)
    }
}

/// The recognised statements among a block's children, in order.
pub open spec fn lower_stmts(cs: Seq<SyntaxNode>) -> Result<Seq<StmtModel>, BuildError>
    decreases cs, 0nat,
{
    if cs.len() == 0 {
        Ok(Seq::empty())
    } else {
        match lower_stmts(cs.subrange(0, cs.len() - 1)) {
            Err(e) => Err(e),
            Ok(ss) => match lower_stmt(cs[cs.len() - 1]) {
                Err(e) => Err(e),
                Ok(Some(s)) => Ok(ss.push(s)),
                Ok(None) => Ok(ss),
            },
        }
    }
}

/// The body of an `if` or `for`: a block, or a single statement.
pub open spec fn lower_body(b: SyntaxNode) -> Result<Seq<StmtModel>, BuildError>
    decreases b, 4nat,
{
    if b.kind@ == "block"@ {
        lower_stmts(b.children@)
    } else {
        match lower_stmt(b) {
            Err(e) => Err(e),
            Ok(Some(s)) => Ok(seq![s]),
            Ok(None) => Ok(Seq::empty()),
        }
    }
}

/// An `if`; an `else if` nests as the only statement of the else-body.
pub open spec fn lower_if(n: SyntaxNode) -> Result<StmtModel, BuildError>
    decreases n, 2nat,
{
    match (child_by_field(n, "condition"@), child_by_field(n, "consequence"@)) {
        (Some(c), Some(t)) => match lower_expr(c) {
            Err(e) => Err(e),
            Ok(cond) => match lower_body(t) {
                Err(e) => Err(e),
                Ok(then_body) => {
                    let else_body = match child_by_field(n, "alternative"@) {
                        None => Ok(Seq::empty()),
                        Some(a) => if a.kind@ == "block"@ {
                            lower_stmts(a.children@)
                        } else if a.kind@ == "if_statement"@ {
                            match lower_if(a) {
                                Ok(s) => Ok(seq![s]),
                                Err(e) => Err(e),
                            }
                        } else {
                            Ok(Seq::empty())
                        },
                    };
                    match else_body {
                        Ok(eb) => Ok(StmtModel::If(cond, then_body, eb)),
                        Err(e) => Err(e),
                    }
                },
            },
        },
        _ => Err(BuildError::MissingPart),
    }
}

pub open spec fn lower_while(n: SyntaxNode) -> Result<StmtModel, BuildError>
    decreases n, 2nat,
{
    match child_by_field(n, "condition"@) {
        None => Err(BuildError::MissingPart),
        Some(c) => match lower_expr(c) {
            Err(e) => Err(e),
            Ok(cond) => match child_of_kind(n, "block"@) {
                None => Err(BuildError::MissingPart),
                Some(b) => match lower_stmts(b.children@) {
                    Ok(body) => Ok(StmtModel::While(cond, body)),
                    Err(e) => Err(e),
                },
            },
        },
    }
}

/// The initializer of a `for`: a declaration or an assignment.
pub open spec fn lower_for_init(i: SyntaxNode) -> Result<StmtModel, BuildError> {
    if i.kind@ == "variable_declaration"@ {
        lower_declaration(i)
    } else if i.kind@ == "assignment_expression"@ {
        lower_assignment(i)
    } else {
        Err(BuildError::UnsupportedForClause)
    }
}

/// The update of a `for`: an assignment or an expression.
pub open spec fn lower_for_update(u: SyntaxNode) -> Result<StmtModel, BuildError> {
    if u.kind@ == "assignment_expression"@ {
        lower_assignment(u)
    } else {
        match lower_expr(u) {
            Ok(e) => Ok(StmtModel::Expr(e)),
            Err(x) => Err(x),
        }
    }
}

/// A `for`: each of initializer, condition and update may be absent.
pub open spec fn lower_for(n: SyntaxNode) -> Result<StmtModel, BuildError>
    decreases n, 2nat,
{
    let init = match child_by_field(n, "initializer"@) {
        None => Ok(None),
        Some(i) => match lower_for_init(i) {
            Ok(s) => Ok(Some(Box::new(s))),
            Err(e) => Err(e),
        },
    };
    let cond = match child_by_field(n, "condition"@) {
        None => Ok(None),
        Some(c) => match lower_expr(c) {
            Ok(e) => Ok(Some(e)),
            Err(x) => Err(x),
        },
    };
    let update = match child_by_field(n, "update"@) {
        None => Ok(None),
        Some(u) => match lower_for_update(u) {
            Ok(s) => Ok(Some(Box::new(s))),
            Err(e) => Err(e),
        },
    };
    match (init, cond, update) {
        (Err(e), _, _) => Err(e),
        (_, Err(e), _) => Err(e),
        (_, _, Err(e)) => Err(e),
        (Ok(i), Ok(c), Ok(u)) => match child_by_field(n, "body"@) {
            None => Err(BuildError::MissingPart),
            Some(b) => match lower_body(b) {
                Ok(body) => Ok(StmtModel::For(i, c, u, body)),
                Err(e) => Err(e),
            },
        },
    }
}

// ---------------------------------------------------------------------
// Methods and classes
// ---------------------------------------------------------------------

/// A `method_declaration` node.
pub open spec fn lower_method(n: SyntaxNode) -> Result<MethodModel, BuildError> {
    match (
        child_of_kind(n, "identifier"@),
        child_of_kind(n, "predefined_type"@),
        child_of_kind(n, "parameter_list"@),
        child_of_kind(n, "block"@),
    ) {
        (Some(name), Some(ret), Some(plist), Some(block)) => match lower_stmts(block.children@) {
            Err(e) => Err(e),
            Ok(body) => match params_of(texts_of_kind(plist.children@, "parameter"@)) {
                Err(e) => Err(e),
                Ok(ps) => Ok(
                    MethodModel {
                        name: name.text@,
                        return_type: type_of(ret.text@),
                        modifiers: leading_modifiers(n.children@),
                        parameters: ps,
                        body,
                    },
                ),
            },
        },
        _ => Err(BuildError::MissingPart),
    }
}

/// Every method declared at or below `n`, in document order.
pub open spec fn methods_in(n: SyntaxNode) -> Result<Seq<MethodModel>, BuildError>
    decreases n, 1nat,
{
    let own = if n.kind@ == "method_declaration"@ {
        match lower_method(n) {
            Ok(m) => Ok(seq![m]),
            Err(e) => Err(e),
        }
    } else {
        Ok(Seq::empty())
    };
    match own {
        Err(e) => Err(e),
        Ok(a) => match methods_in_list(n.children@) {
            Ok(b) => Ok(a + b),
            Err(e) => Err(e),
        },
    }
}

pub open spec fn methods_in_list(cs: Seq<SyntaxNode>) -> Result<Seq<MethodModel>, BuildError>
    decreases cs, 0nat,
{
    if cs.len() == 0 {
        Ok(Seq::empty())
    } else {
        match methods_in_list(cs.subrange(0, cs.len() - 1)) {
            Err(e) => Err(e),
            Ok(a) => match methods_in(cs[cs.len() - 1]) {
                Ok(b) => Ok(a + b),
                Err(e) => Err(e),
            },
        }
    }
}

/// A `class_declaration` node; one without a name is no class.
pub open spec fn lower_class(n: SyntaxNode) -> Result<Option<ClassModel>, BuildError> {
    match child_of_kind(n, "identifier"@) {
        None => Ok(None),
        Some(name) => match methods_in(n) {
            Ok(ms) => Ok(
                Some(ClassModel { name: name.text@, methods: ms, uses_input: methods_use_input(ms) }),
            ),
            Err(e) => Err(e),
        },
    }
}

/// Every class declared at or below `n`, in document order.
pub open spec fn classes_in(n: SyntaxNode) -> Result<Seq<ClassModel>, BuildError>
    decreases n, 1nat,
{
    let own = if n.kind@ == "class_declaration"@ {
        match lower_class(n) {
            Ok(Some(c)) => Ok(seq![c]),
            Ok(None) => Ok(Seq::empty()),
            Err(e) => Err(e),
        }
    } else {
        Ok(Seq::empty())
    };
    match own {
        Err(e) => Err(e),
        Ok(a) => match classes_in_list(n.children@) {
            Ok(b) => Ok(a + b),
            Err(e) => Err(e),
        },
    }
}

pub open spec fn classes_in_list(cs: Seq<SyntaxNode>) -> Result<Seq<ClassModel>, BuildError>
    decreases cs, 0nat,
{
    if cs.len() == 0 {
        Ok(Seq::empty())
    } else {
        match classes_in_list(cs.subrange(0, cs.len() - 1)) {
            Err(e) => Err(e),
            Ok(a) => match classes_in(cs[cs.len() - 1]) {
                Ok(b) => Ok(a + b),
                Err(e) => Err(e),
            },
        }
    }
}


// ---------------------------------------------------------------------
// Executable lowering
// ---------------------------------------------------------------------

pub open spec fn expr_result(r: Result<Expression, BuildError>) -> Result<ExprModel, BuildError> {
    match r {
        Ok(e) => Ok(expr_view(e)),
        Err(x) => Err(x),
    }
}

pub open spec fn args_result(r: Result<Vec<Expression>, BuildError>) -> Result<
    Seq<ExprModel>,
    BuildError,
> {
    match r {
        Ok(v) => Ok(exprs_view(v@)),
        Err(x) => Err(x),
    }
}

pub open spec fn literal_result(r: Result<Literal, BuildError>) -> Result<LiteralModel, BuildError> {
    match r {
        Ok(l) => Ok(crate::ast::literal_view(l)),
        Err(x) => Err(x),
    }
}

pub open spec fn strs_view(v: Seq<&str>) -> Seq<Seq<char>> {
    Seq::new(v.len(), |j: int| v[j]@)
}

/// The type that a source spelling names.
pub fn match_cs_type(s: &str) -> (r: Type)
    ensures
        r == type_of(s@),
{
    if text_is(s, "void") {
        Type::Void
    } else if text_is(s, "int") {
        Type::Int
    } else if text_is(s, "bool") {
        Type::Bool
    } else if text_is(s, "string") {
        Type::String
    } else if text_is(s, "float") {
        Type::Float
    } else if text_is(s, "double") {
        Type::Double
    } else {
        Type::Unknown
    }
}

fn modifier_from(s: &str) -> (r: Modifier)
    ensures
        r == modifier_of(s@),
{
    if text_is(s, "public") {
        Modifier::Public
    } else if text_is(s, "private") {
        Modifier::Private
    } else if text_is(s, "static") {
        Modifier::Static
    } else {
        Modifier::Unknown
    }
}

/// The modifiers that the spellings name, in order.
pub fn match_cs_modifiers(modifiers: Vec<&str>) -> (r: Vec<Modifier>)
    ensures
        r@ == Seq::new(modifiers@.len(), |i: int| modifier_of(modifiers@[i]@)),
{
    let mut out: Vec<Modifier> = Vec::new();
    let mut i: usize = 0;
    while i < modifiers.len()
        invariant
            i <= modifiers.len(),
            out@ == Seq::new(i as nat, |j: int| modifier_of(modifiers@[j]@)),
        decreases modifiers.len() - i,
    {
        out.push(modifier_from(modifiers[i]));
        i = i + 1;
        assert(out@ =~= Seq::new(i as nat, |j: int| modifier_of(modifiers@[j]@)));
    }
    out
}

/// A parameter's text split at its first space into type and name.
fn parameter_from(t: &str) -> (r: Option<Variable>)
    ensures
        match r {
            Some(v) => param_of(t@) == Some(crate::ast::variable_view(v)),
            None => param_of(t@) is None,
        },
{
    let n = t.unicode_len();
    let mut i: usize = 0;
    while i < n
        invariant
            n == t@.len(),
            i <= n,
            first_space(t@, 0) == first_space(t@, i as int),
        decreases n - i,
    {
        if t.get_char(i) == ' ' {
            let typ = match_cs_type(t.substring_char(0, i));
            let name = String::from_str(t.substring_char(i + 1, n));
            return Some(Variable { typ, name });
        }
        i = i + 1;
    }
    None
}

fn parameters_prefix(parameters: &Vec<&str>, n: usize) -> (r: Result<Vec<Variable>, BuildError>)
    requires
        n <= parameters.len(),
    ensures
        match r {
            Ok(v) => params_of(strs_view(parameters@).subrange(0, n as int)) == Ok::<
                Seq<VariableModel>,
                BuildError,
            >(variables_view(v@)),
            Err(e) => params_of(strs_view(parameters@).subrange(0, n as int)) == Err::<
                Seq<VariableModel>,
                BuildError,
            >(e),
        },
    decreases n,
{
    let ghost ts = strs_view(parameters@).subrange(0, n as int);
    if n == 0 {
        assert(variables_view(Seq::<Variable>::empty()) =~= Seq::<VariableModel>::empty());
        return Ok(Vec::new());
    }
    assert(ts.subrange(0, n - 1) =~= strs_view(parameters@).subrange(0, n - 1));
    match parameters_prefix(parameters, n - 1) {
        Err(e) => Err(e),
        Ok(mut v) => match parameter_from(parameters[n - 1]) {
            None => Err(BuildError::MalformedParameter),
            Some(p) => {
                let ghost old_v = v@;
                v.push(p);
                assert(variables_view(v@) =~= variables_view(old_v).push(
                    crate::ast::variable_view(p),
                ));
                Ok(v)
            },
        },
    }
}

/// Each parameter's text split into type and name at its first space.
pub fn match_cs_parameters(parameters: Vec<&str>) -> (r: Result<Vec<Variable>, BuildError>)
    ensures
        match r {
            Ok(v) => params_of(strs_view(parameters@)) == Ok::<Seq<VariableModel>, BuildError>(
                variables_view(v@),
            ),
            Err(e) => params_of(strs_view(parameters@)) == Err::<Seq<VariableModel>, BuildError>(e),
        },
{
    assert(strs_view(parameters@).subrange(0, parameters@.len() as int) =~= strs_view(
        parameters@,
    ));
    parameters_prefix(&parameters, parameters.len())
}

proof fn lemma_digits_monotone(s: Seq<char>, i: int)
    requires
        0 <= i <= s.len(),
        all_digits(s),
    ensures
        digits_value(s.subrange(0, i)) <= digits_value(s),
        0 <= digits_value(s.subrange(0, i)),
    decreases s.len(),
{
    if s.len() > 0 {
        let p = s.subrange(0, s.len() - 1);
        assert(all_digits(p)) by {
            assert forall|j: int| 0 <= j < p.len() implies is_digit(p[j]) by {
                assert(p[j] == s[j]);
            }
        }
        assert(is_digit(s[s.len() - 1]));
        if i < s.len() {
            lemma_digits_monotone(p, i);
            assert(p.subrange(0, i) =~= s.subrange(0, i));
        } else {
            assert(s.subrange(0, i) =~= s);
            lemma_digits_monotone(p, p.len() as int);
            assert(p.subrange(0, p.len() as int) =~= p);
        }
    } else {
        assert(s.subrange(0, i) =~= s);
    }
}

/// The value of a base-10 literal that fits in 32 bits.
fn parse_int_literal(s: &str) -> (r: Option<i32>)
    ensures
        r == int_literal_value(s@),
{
    let n = s.unicode_len();
    if n == 0 {
        return None;
    }
    let mut acc: i64 = 0;
    let mut i: usize = 0;
    while i < n
        invariant
            n == s@.len(),
            i <= n,
            all_digits(s@.subrange(0, i as int)),
            acc == digits_value(s@.subrange(0, i as int)),
            0 <= acc <= i32::MAX,
        decreases n - i,
    {
        let c = s.get_char(i);
        if !('0' <= c && c <= '9') {
            return None;
        }
        let d = (c as u32 - '0' as u32) as i64;
        assert(s@.subrange(0, i + 1).subrange(0, i as int) =~= s@.subrange(0, i as int));
        assert(all_digits(s@.subrange(0, i + 1))) by {
            assert forall|j: int| 0 <= j < i + 1 implies is_digit(
                #[trigger] s@.subrange(0, i + 1)[j],
            ) by {
                if j < i {
                    assert(s@.subrange(0, i + 1)[j] == s@.subrange(0, i as int)[j]);
                }
            }
        }
        acc = acc * 10 + d;
        if acc > 2147483647 {
            proof {
                if all_digits(s@) {
                    lemma_digits_monotone(s@, i + 1);
                }
            }
            return None;
        }
        i = i + 1;
    }
    assert(s@.subrange(0, n as int) =~= s@);
    Some(acc as i32)
}

fn valid_real_text(s: &str) -> (r: bool)
    ensures
        r == valid_real(s@),
{
    let n = s.unicode_len();
    let mut seen_digit = false;
    let mut i: usize = 0;
    while i < n
        invariant
            n == s@.len(),
            i <= n,
            forall|j: int| 0 <= j < i ==> is_real_char(#[trigger] s@[j]),
            seen_digit == exists|j: int| 0 <= j < i && is_digit(#[trigger] s@[j]),
        decreases n - i,
    {
        let c = s.get_char(i);
        let digit = '0' <= c && c <= '9';
        if !(digit || c == '.' || c == 'e' || c == 'E' || c == '+' || c == '-') {
            return false;
        }
        if digit {
            seen_digit = true;
        }
        i = i + 1;
    }
    seen_digit
}

/// A real literal, its suffix deciding between float and double.
fn real_literal_from(t: &str) -> (r: Result<Literal, BuildError>)
    ensures
        literal_result(r) == real_literal(t@),
{
    let n = t.unicode_len();
    if n > 0 {
        let last = t.get_char(n - 1);
        if last == 'f' || last == 'F' || last == 'd' || last == 'D' {
            let body = t.substring_char(0, n - 1);
            if !valid_real_text(body) {
                return Err(BuildError::InvalidLiteral);
            }
            if last == 'f' || last == 'F' {
                return Ok(Literal::Float(String::from_str(body)));
            } else {
                return Ok(Literal::Double(String::from_str(body)));
            }
        }
    }
    if valid_real_text(t) {
        Ok(Literal::Float(String::from_str(t)))
    } else {
        Err(BuildError::InvalidLiteral)
    }
}

/// The dotted name of a called function.
fn extract_function_name(node: &SyntaxNode) -> (r: Result<String, BuildError>)
    ensures
        match r {
            Ok(s) => function_name(*node) == Ok::<Seq<char>, BuildError>(s@),
            Err(e) => function_name(*node) == Err::<Seq<char>, BuildError>(e),
        },
    decreases node,
{
    let k = node.kind.as_str();
    if text_is(k, "identifier") || text_is(k, "predefined_type") {
        Ok(node.text.clone())
    } else if text_is(k, "member_access_expression") {
        let li = find_child(&node.children, &Probe::Field("expression"), 0);
        let ri = find_child(&node.children, &Probe::Field("name"), 0);
        match (li, ri) {
            (Some(li), Some(ri)) => {
                let a = extract_function_name(&node.children[li]);
                let b = extract_function_name(&node.children[ri]);
                match (a, b) {
                    (Ok(a), Ok(b)) => {
                        let mut out = a;
                        out.append(".");
                        out.append(b.as_str());
                        Ok(out)
                    },
                    (Err(e), _) => Err(e),
                    (_, Err(e)) => Err(e),
                }
            },
            _ => Err(BuildError::MissingPart),
        }
    } else {
        Err(BuildError::UnsupportedFunction)
    }
}

/// Lowers an expression node.
pub fn extract_expression(node: &SyntaxNode) -> (r: Result<Expression, BuildError>)
    ensures
        expr_result(r) == lower_expr(*node),
    decreases node, 1nat,
{
    let k = node.kind.as_str();
    if text_is(k, "argument") {
        match find_child(&node.children, &Probe::Named, 0) {
            Some(i) => extract_expression(&node.children[i]),
            None => Err(BuildError::MissingPart),
        }
    } else if text_is(k, "expression_statement") {
        if node.children.len() > 0 {
            extract_expression(&node.children[0])
        } else {
            Err(BuildError::MissingPart)
        }
    } else if text_is(k, "binary_expression") {
        extract_binary_expression(node)
    } else if text_is(k, "prefix_unary_expression") {
        extract_unary_expression(node, true)
    } else if text_is(k, "postfix_unary_expression") {
        extract_unary_expression(node, false)
    } else if text_is(k, "invocation_expression") {
        extract_call_expression(node)
    } else if text_is(k, "integer_literal") {
        match parse_int_literal(node.text.as_str()) {
            Some(v) => Ok(Expression::Literal(Literal::Int(v))),
            None => Err(BuildError::InvalidLiteral),
        }
    } else if text_is(k, "real_literal") {
        match real_literal_from(node.text.as_str()) {
            Ok(l) => Ok(Expression::Literal(l)),
            Err(e) => Err(e),
        }
    } else if text_is(k, "boolean_literal") {
        Ok(Expression::Literal(Literal::Bool(text_is(node.text.as_str(), "true"))))
    } else if text_is(k, "string_literal") {
        Ok(Expression::Literal(Literal::String(node.text.clone())))
    } else if text_is(k, "identifier") {
        Ok(Expression::Variable(node.text.clone()))
    } else {
        Err(BuildError::UnsupportedExpression)
    }
}

fn binary_operator_from(s: &str) -> (r: Option<BinaryOperator>)
    ensures
        r == binop_of(s@),
{
    if text_is(s, "+") {
        Some(BinaryOperator::Add)
    } else if text_is(s, "-") {
        Some(BinaryOperator::Sub)
    } else if text_is(s, "*") {
        Some(BinaryOperator::Mul)
    } else if text_is(s, "/") {
        Some(BinaryOperator::Div)
    } else if text_is(s, "==") {
        Some(BinaryOperator::Eq)
    } else if text_is(s, "!=") {
        Some(BinaryOperator::Ne)
    } else if text_is(s, "<") {
        Some(BinaryOperator::Lt)
    } else if text_is(s, ">") {
        Some(BinaryOperator::Gt)
    } else if text_is(s, "<=") {
        Some(BinaryOperator::Le)
    } else if text_is(s, ">=") {
        Some(BinaryOperator::Ge)
    } else if text_is(s, "&&") {
        Some(BinaryOperator::And)
    } else if text_is(s, "||") {
        Some(BinaryOperator::Or)
    } else {
        None
    }
}

/// Lowers a binary expression: its left and right operands and its operator.
pub fn extract_binary_expression(node: &SyntaxNode) -> (r: Result<Expression, BuildError>)
    ensures
        expr_result(r) == lower_binary(*node),
    decreases node, 0nat,
{
    let li = find_child(&node.children, &Probe::Field("left"), 0);
    let ri = find_child(&node.children, &Probe::Field("right"), 0);
    let oi = find_child(&node.children, &Probe::Field("operator"), 0);
    match (li, ri, oi) {
        (Some(li), Some(ri), Some(oi)) => {
            let left = match extract_expression(&node.children[li]) {
                Ok(e) => e,
                Err(x) => return Err(x),
            };
            let right = match extract_expression(&node.children[ri]) {
                Ok(e) => e,
                Err(x) => return Err(x),
            };
            match binary_operator_from(node.children[oi].text.as_str()) {
                Some(operator) => Ok(
                    Expression::BinaryExpression {
                        left: Box::new(left),
                        operator,
                        right: Box::new(right),
                    },
                ),
                None => Err(BuildError::UnsupportedOperator),
            }
        },
        _ => Err(BuildError::MissingPart),
    }
}

/// Lowers a unary expression: operator then operand when `prefix`, else the reverse.
pub fn extract_unary_expression(node: &SyntaxNode, prefix: bool) -> (r: Result<
    Expression,
    BuildError,
>)
    ensures
        expr_result(r) == lower_unary(*node, prefix),
    decreases node, 0nat,
{
    if node.children.len() < 2 {
        return Err(BuildError::MissingPart);
    }
    if prefix {
        let t = node.children[0].text.as_str();
        let operator = if text_is(t, "!") {
            UnaryOperator::Not
        } else if text_is(t, "-") {
            UnaryOperator::Neg
        } else {
            return Err(BuildError::UnsupportedOperator);
        };
        match extract_expression(&node.children[1]) {
            Ok(e) => Ok(Expression::PrefixUnaryExpression { operator, right: Box::new(e) }),
            Err(x) => Err(x),
        }
    } else {
        let t = node.children[1].text.as_str();
        let operator = if text_is(t, "++") {
            UnaryOperator::UAdd
        } else if text_is(t, "--") {
            UnaryOperator::USub
        } else {
            return Err(BuildError::UnsupportedOperator);
        };
        match extract_expression(&node.children[0]) {
            Ok(e) => Ok(Expression::PostfixUnaryExpression { left: Box::new(e), operator }),
            Err(x) => Err(x),
        }
    }
}

/// Lowers a call: its dotted function name and its arguments.
pub fn extract_call_expression(node: &SyntaxNode) -> (r: Result<Expression, BuildError>)
    ensures
        expr_result(r) == lower_call(*node),
    decreases node, 0nat,
{
    let function = match find_child(&node.children, &Probe::Field("function"), 0) {
        None => return Err(BuildError::MissingPart),
        Some(fi) => match extract_function_name(&node.children[fi]) {
            Ok(f) => f,
            Err(e) => return Err(e),
        },
    };
    match find_child(&node.children, &Probe::Field("arguments"), 0) {
        None => Err(BuildError::MissingPart),
        Some(ai) => {
            let args = &node.children[ai].children;
            assert(args@.subrange(0, args@.len() as int) =~= args@);
            match extract_arguments(args, args.len()) {
                Ok(arguments) => Ok(Expression::Call { function, arguments }),
                Err(e) => Err(e),
            }
        },
    }
}

/// The `argument` nodes among the first `n` children, lowered in order.
fn extract_arguments(cs: &Vec<SyntaxNode>, n: usize) -> (r: Result<Vec<Expression>, BuildError>)
    requires
        n <= cs.len(),
    ensures
        args_result(r) == lower_args(cs@.subrange(0, n as int)),
    decreases cs, 0nat, n,
{
    let ghost p = cs@.subrange(0, n as int);
    if n == 0 {
        return Ok(Vec::new());
    }
    assert(p.subrange(0, n - 1) =~= cs@.subrange(0, n - 1));
    match extract_arguments(cs, n - 1) {
        Err(e) => Err(e),
        Ok(mut v) => {
            if text_is(cs[n - 1].kind.as_str(), "argument") {
                match extract_expression(&cs[n - 1]) {
                    Ok(e) => {
                        let ghost old_v = v@;
                        v.push(e);
                        assert(v@.subrange(0, old_v.len() as int) =~= old_v);
                        Ok(v)
                    },
                    Err(x) => Err(x),
                }
            } else {
                Ok(v)
            }
        },
    }
}

pub open spec fn stmt_result(r: Result<Statement, BuildError>) -> Result<StmtModel, BuildError> {
    match r {
        Ok(s) => Ok(stmt_view(s)),
        Err(x) => Err(x),
    }
}

pub open spec fn opt_stmt_result(r: Result<Option<Statement>, BuildError>) -> Result<
    Option<StmtModel>,
    BuildError,
> {
    match r {
        Ok(Some(s)) => Ok(Some(stmt_view(s))),
        Ok(None) => Ok(None),
        Err(x) => Err(x),
    }
}

pub open spec fn stmts_result(r: Result<Vec<Statement>, BuildError>) -> Result<
    Seq<StmtModel>,
    BuildError,
> {
    match r {
        Ok(v) => Ok(stmts_view(v@)),
        Err(x) => Err(x),
    }
}

pub open spec fn method_result(r: Result<Method, BuildError>) -> Result<MethodModel, BuildError> {
    match r {
        Ok(m) => Ok(method_view(m)),
        Err(x) => Err(x),
    }
}


pub open spec fn classes_view(s: Seq<Class>) -> Seq<ClassModel> {
    Seq::new(s.len(), |i: int| class_view(s[i]))
}

proof fn lemma_stmts_view_one(v: Seq<Statement>)
    requires
        v.len() == 1,
    ensures
        stmts_view(v) == seq![stmt_view(v[0])],
{
    assert(v.subrange(0, 0) =~= Seq::<Statement>::empty());
    assert(stmts_view(Seq::<Statement>::empty()) =~= Seq::<StmtModel>::empty());
    assert(stmts_view(v) =~= seq![stmt_view(v[0])]);
}

/// Lowers a `variable_declaration` node.
fn extract_declaration(d: &SyntaxNode) -> (r: Result<Statement, BuildError>)
    ensures
        stmt_result(r) == lower_declaration(*d),
    decreases d, 1nat,
{
    let ti = find_child(&d.children, &Probe::Kind("predefined_type"), 0);
    let vi = find_child(&d.children, &Probe::Kind("variable_declarator"), 0);
    match (ti, vi) {
        (Some(ti), Some(vi)) => {
            let v = &d.children[vi];
            match find_child(&v.children, &Probe::Kind("identifier"), 0) {
                None => Err(BuildError::MissingPart),
                Some(i) => {
                    let variable = Variable {
                        typ: match_cs_type(d.children[ti].text.as_str()),
                        name: v.children[i].text.clone(),
                    };
                    match find_child(&v.children, &Probe::Initializer, i + 1) {
                        None => Ok(Statement::VariableDeclaration { variable, value: None }),
                        Some(j) => match extract_expression(&v.children[j]) {
                            Ok(e) => Ok(Statement::VariableDeclaration { variable, value: Some(e) }),
                            Err(x) => Err(x),
                        },
                    }
                },
            }
        },
        _ => Err(BuildError::MissingPart),
    }
}

/// Lowers a declaration statement: its type, name and optional initial value.
pub fn extract_var(node: &SyntaxNode) -> (r: Result<Statement, BuildError>)
    ensures
        stmt_result(r) == lower_var(*node),
    decreases node, 2nat,
{
    if text_is(node.kind.as_str(), "variable_declaration") {
        extract_declaration(node)
    } else {
        match find_child(&node.children, &Probe::Kind("variable_declaration"), 0) {
            Some(i) => extract_declaration(&node.children[i]),
            None => Err(BuildError::MissingPart),
        }
    }
}

/// Lowers `name = value`.
pub fn extract_assignment(node: &SyntaxNode) -> (r: Result<Statement, BuildError>)
    ensures
        stmt_result(r) == lower_assignment(*node),
    decreases node, 1nat,
{
    let li = find_child(&node.children, &Probe::Field("left"), 0);
    let ri = find_child(&node.children, &Probe::Field("right"), 0);
    match (li, ri) {
        (Some(li), Some(ri)) => {
            let left = &node.children[li];
            if !text_is(left.kind.as_str(), "identifier") {
                return Err(BuildError::UnsupportedTarget);
            }
            match find_child(&node.children, &Probe::Field("operator"), 0) {
                Some(oi) => {
                    if !text_is(node.children[oi].text.as_str(), "=") {
                        return Err(BuildError::UnsupportedOperator);
                    }
                },
                None => {},
            }
            match extract_expression(&node.children[ri]) {
                Ok(value) => Ok(Statement::Assignment { target: left.text.clone(), value }),
                Err(x) => Err(x),
            }
        },
        _ => Err(BuildError::MissingPart),
    }
}

/// Lowers a `return`, with the first value-shaped child if there is one.
pub fn extract_return(node: &SyntaxNode) -> (r: Result<Statement, BuildError>)
    ensures
        stmt_result(r) == lower_return(*node),
    decreases node, 2nat,
{
    match find_child(&node.children, &Probe::ReturnValue, 0) {
        Some(i) => match extract_expression(&node.children[i]) {
            Ok(e) => Ok(Statement::Return(Some(e))),
            Err(x) => Err(x),
        },
        None => Ok(Statement::Return(None)),
    }
}

fn extract_expression_statement(c: &SyntaxNode) -> (r: Result<Statement, BuildError>)
    ensures
        stmt_result(r) == lower_expression_statement(*c),
{
    if c.children.len() == 0 {
        Err(BuildError::MissingPart)
    } else if text_is(c.children[0].kind.as_str(), "assignment_expression") {
        extract_assignment(&c.children[0])
    } else {
        match extract_expression(&c.children[0]) {
            Ok(e) => Ok(Statement::Expression(e)),
            Err(x) => Err(x),
        }
    }
}

fn some_statement(r: Result<Statement, BuildError>) -> (o: Result<Option<Statement>, BuildError>)
    ensures
        opt_stmt_result(o) == some_stmt(stmt_result(r)),
{
    match r {
        Ok(s) => Ok(Some(s)),
        Err(e) => Err(e),
    }
}

/// Lowers one child of a block; `None` for a kind that is skipped.
fn extract_statement(c: &SyntaxNode) -> (r: Result<Option<Statement>, BuildError>)
    ensures
        opt_stmt_result(r) == lower_stmt(*c),
    decreases c, 3nat,
{
    let k = c.kind.as_str();
    if text_is(k, "local_declaration_statement") {
        some_statement(extract_var(c))
    } else if text_is(k, "expression_statement") {
        some_statement(extract_expression_statement(c))
    } else if text_is(k, "if_statement") {
        some_statement(extract_if(c))
    } else if text_is(k, "for_statement") {
        some_statement(extract_for(c))
    } else if text_is(k, "while_statement") {
        some_statement(extract_while(c))
    } else if text_is(k, "return_statement") {
        some_statement(extract_return(c))
    } else {
        Ok(None)
    }
}

/// The statements among the first `n` children, in order.
fn extract_statements(cs: &Vec<SyntaxNode>, n: usize) -> (r: Result<Vec<Statement>, BuildError>)
    requires
        n <= cs.len(),
    ensures
        stmts_result(r) == lower_stmts(cs@.subrange(0, n as int)),
    decreases cs, 0nat, n,
{
    let ghost p = cs@.subrange(0, n as int);
    if n == 0 {
        return Ok(Vec::new());
    }
    assert(p.subrange(0, n - 1) =~= cs@.subrange(0, n - 1));
    match extract_statements(cs, n - 1) {
        Err(e) => Err(e),
        Ok(mut v) => match extract_statement(&cs[n - 1]) {
            Err(e) => Err(e),
            Ok(Some(s)) => {
                let ghost old_v = v@;
                v.push(s);
                assert(v@.subrange(0, old_v.len() as int) =~= old_v);
                Ok(v)
            },
            Ok(None) => Ok(v),
        },
    }
}

/// Lowers the statements of a block.
fn extract_block(block: &SyntaxNode) -> (r: Result<Vec<Statement>, BuildError>)
    ensures
        stmts_result(r) == lower_stmts(block.children@),
    decreases block, 0nat,
{
    assert(block.children@.subrange(0, block.children@.len() as int) =~= block.children@);
    extract_statements(&block.children, block.children.len())
}

/// Lowers the body of an `if` or `for`: a block, or a single statement.
fn extract_body(b: &SyntaxNode) -> (r: Result<Vec<Statement>, BuildError>)
    ensures
        stmts_result(r) == lower_body(*b),
    decreases b, 4nat,
{
    if text_is(b.kind.as_str(), "block") {
        extract_block(b)
    } else {
        match extract_statement(b) {
            Err(e) => Err(e),
            Ok(Some(s)) => {
                let mut v = Vec::new();
                v.push(s);
                proof {
                    lemma_stmts_view_one(v@);
                }
                Ok(v)
            },
            Ok(None) => Ok(Vec::new()),
        }
    }
}

/// Lowers an `if`; an `else if` nests as the only statement of the else-body.
pub fn extract_if(node: &SyntaxNode) -> (r: Result<Statement, BuildError>)
    ensures
        stmt_result(r) == lower_if(*node),
    decreases node, 2nat,
{
    let ci = find_child(&node.children, &Probe::Field("condition"), 0);
    let ti = find_child(&node.children, &Probe::Field("consequence"), 0);
    match (ci, ti) {
        (Some(ci), Some(ti)) => {
            let condition = match extract_expression(&node.children[ci]) {
                Ok(e) => e,
                Err(x) => return Err(x),
            };
            let then_body = match extract_body(&node.children[ti]) {
                Ok(b) => b,
                Err(x) => return Err(x),
            };
            let else_body = match find_child(&node.children, &Probe::Field("alternative"), 0) {
                None => Vec::new(),
                Some(ai) => {
                    let a = &node.children[ai];
                    if text_is(a.kind.as_str(), "block") {
                        match extract_block(a) {
                            Ok(b) => b,
                            Err(x) => return Err(x),
                        }
                    } else if text_is(a.kind.as_str(), "if_statement") {
                        match extract_if(a) {
                            Ok(s) => {
                                let mut v = Vec::new();
                                v.push(s);
                                proof {
                                    lemma_stmts_view_one(v@);
                                }
                                v
                            },
                            Err(x) => return Err(x),
                        }
                    } else {
                        Vec::new()
                    }
                },
            };
            assert(stmts_view(Seq::<Statement>::empty()) =~= Seq::<StmtModel>::empty());
            Ok(Statement::If { condition, then_body, else_body })
        },
        _ => Err(BuildError::MissingPart),
    }
}

/// Lowers a `while`: its condition and its block.
pub fn extract_while(node: &SyntaxNode) -> (r: Result<Statement, BuildError>)
    ensures
        stmt_result(r) == lower_while(*node),
    decreases node, 2nat,
{
    match find_child(&node.children, &Probe::Field("condition"), 0) {
        None => Err(BuildError::MissingPart),
        Some(ci) => {
            let condition = match extract_expression(&node.children[ci]) {
                Ok(e) => e,
                Err(x) => return Err(x),
            };
            match find_child(&node.children, &Probe::Kind("block"), 0) {
                None => Err(BuildError::MissingPart),
                Some(bi) => match extract_block(&node.children[bi]) {
                    Ok(body) => Ok(Statement::While { condition, body }),
                    Err(e) => Err(e),
                },
            }
        },
    }
}

fn extract_for_init(i: &SyntaxNode) -> (r: Result<Statement, BuildError>)
    ensures
        stmt_result(r) == lower_for_init(*i),
{
    if text_is(i.kind.as_str(), "variable_declaration") {
        extract_declaration(i)
    } else if text_is(i.kind.as_str(), "assignment_expression") {
        extract_assignment(i)
    } else {
        Err(BuildError::UnsupportedForClause)
    }
}

fn extract_for_update(u: &SyntaxNode) -> (r: Result<Statement, BuildError>)
    ensures
        stmt_result(r) == lower_for_update(*u),
{
    if text_is(u.kind.as_str(), "assignment_expression") {
        extract_assignment(u)
    } else {
        match extract_expression(u) {
            Ok(e) => Ok(Statement::Expression(e)),
            Err(x) => Err(x),
        }
    }
}

/// Lowers a `for`; its initializer, condition and update may each be absent.
fn extract_for(node: &SyntaxNode) -> (r: Result<Statement, BuildError>)
    ensures
        stmt_result(r) == lower_for(*node),
    decreases node, 2nat,
{
    let initializer = match find_child(&node.children, &Probe::Field("initializer"), 0) {
        None => None,
        Some(i) => match extract_for_init(&node.children[i]) {
            Ok(s) => Some(Box::new(s)),
            Err(e) => return Err(e),
        },
    };
    let condition = match find_child(&node.children, &Probe::Field("condition"), 0) {
        None => None,
        Some(i) => match extract_expression(&node.children[i]) {
            Ok(e) => Some(e),
            Err(x) => return Err(x),
        },
    };
    let increment = match find_child(&node.children, &Probe::Field("update"), 0) {
        None => None,
        Some(i) => match extract_for_update(&node.children[i]) {
            Ok(s) => Some(Box::new(s)),
            Err(e) => return Err(e),
        },
    };
    match find_child(&node.children, &Probe::Field("body"), 0) {
        None => Err(BuildError::MissingPart),
        Some(bi) => match extract_body(&node.children[bi]) {
            Ok(body) => Ok(Statement::For { initializer, condition, increment, body }),
            Err(e) => Err(e),
        },
    }
}

/// Lowers a `method_declaration` node.
fn extract_method(n: &SyntaxNode) -> (r: Result<Method, BuildError>)
    ensures
        method_result(r) == lower_method(*n),
{
    let ni = find_child(&n.children, &Probe::Kind("identifier"), 0);
    let ti = find_child(&n.children, &Probe::Kind("predefined_type"), 0);
    let pi = find_child(&n.children, &Probe::Kind("parameter_list"), 0);
    let bi = find_child(&n.children, &Probe::Kind("block"), 0);
    match (ni, ti, pi, bi) {
        (Some(ni), Some(ti), Some(pi), Some(bi)) => {
            let body = match extract_block(&n.children[bi]) {
                Ok(b) => b,
                Err(e) => return Err(e),
            };
            let plist = &n.children[pi].children;
            let mut raw_params: Vec<&str> = Vec::new();
            let mut i: usize = 0;
            while i < plist.len()
                invariant
                    i <= plist.len(),
                    strs_view(raw_params@) == texts_of_kind(
                        plist@.subrange(0, i as int),
                        "parameter"@,
                    ),
                decreases plist.len() - i,
            {
                assert(plist@.subrange(0, i + 1).subrange(0, i as int) =~= plist@.subrange(
                    0,
                    i as int,
                ));
                if text_is(plist[i].kind.as_str(), "parameter") {
                    raw_params.push(plist[i].text.as_str());
                }
                assert(strs_view(raw_params@) =~= texts_of_kind(
                    plist@.subrange(0, i + 1),
                    "parameter"@,
                ));
                i = i + 1;
            }
            assert(plist@.subrange(0, i as int) =~= plist@);
            let parameters = match match_cs_parameters(raw_params) {
                Ok(ps) => ps,
                Err(e) => return Err(e),
            };
            let lead = match find_child(&n.children, &Probe::NotKind("modifier"), 0) {
                Some(j) => j,
                None => n.children.len(),
            };
            let mut raw_mods: Vec<&str> = Vec::new();
            let mut k: usize = 0;
            while k < lead
                invariant
                    k <= lead <= n.children.len(),
                    raw_mods@.len() == k,
                    forall|j: int| 0 <= j < k ==> (#[trigger] raw_mods@[j])@ == n.children@[j].text@,
                decreases lead - k,
            {
                raw_mods.push(n.children[k].text.as_str());
                k = k + 1;
            }
            let modifiers = match_cs_modifiers(raw_mods);
            assert(modifiers@ =~= leading_modifiers(n.children@));
            Ok(
                Method {
                    name: n.children[ni].text.clone(),
                    return_type: match_cs_type(n.children[ti].text.as_str()),
                    modifiers,
                    parameters,
                    body,
                },
            )
        },
        _ => Err(BuildError::MissingPart),
    }
}

/// Appends every method declared at or below `node`, in document order.
pub fn find_methods(node: &SyntaxNode, methods: &mut Vec<Method>) -> (r: Result<(), BuildError>)
    ensures
        match methods_in(*node) {
            Ok(ms) => r is Ok && methods_view(final(methods)@) == methods_view(old(methods)@) + ms,
            Err(e) => r == Err::<(), BuildError>(e),
        },
    decreases node, 1nat,
{
    let ghost before = methods_view(methods@);
    if text_is(node.kind.as_str(), "method_declaration") {
        match extract_method(node) {
            Ok(m) => {
                methods.push(m);
                assert(methods_view(methods@) =~= before + seq![method_view(m)]);
            },
            Err(e) => return Err(e),
        }
    } else {
        assert(methods_view(methods@) =~= before + Seq::<MethodModel>::empty());
    }
    assert(node.children@.subrange(0, node.children@.len() as int) =~= node.children@);
    let r = find_methods_in_list(&node.children, node.children.len(), methods);
    proof {
        match methods_in(*node) {
            Ok(ms) => {
                assert(methods_view(methods@) =~= before + ms);
            },
            Err(e) => {},
        }
    }
    r
}

fn find_methods_in_list(cs: &Vec<SyntaxNode>, n: usize, methods: &mut Vec<Method>) -> (r: Result<
    (),
    BuildError,
>)
    requires
        n <= cs.len(),
    ensures
        match methods_in_list(cs@.subrange(0, n as int)) {
            Ok(ms) => r is Ok && methods_view(final(methods)@) == methods_view(old(methods)@) + ms,
            Err(e) => r == Err::<(), BuildError>(e),
        },
    decreases cs, 0nat, n,
{
    if n == 0 {
        assert(methods_view(methods@) =~= methods_view(methods@) + Seq::<MethodModel>::empty());
        return Ok(());
    }
    let ghost before = methods_view(methods@);
    assert(cs@.subrange(0, n as int).subrange(0, n - 1) =~= cs@.subrange(0, n - 1));
    match find_methods_in_list(cs, n - 1, methods) {
        Err(e) => Err(e),
        Ok(()) => {
            let r = find_methods(&cs[n - 1], methods);
            proof {
                match methods_in_list(cs@.subrange(0, n as int)) {
                    Ok(ms) => {
                        assert(methods_view(methods@) =~= before + ms);
                    },
                    Err(e) => {},
                }
            }
            r
        },
    }
}

/// Appends every class declared at or below `node`, in document order.
pub fn find_classes(node: &SyntaxNode, classes: &mut Vec<Class>) -> (r: Result<(), BuildError>)
    ensures
        match classes_in(*node) {
            Ok(cs) => r is Ok && classes_view(final(classes)@) == classes_view(old(classes)@) + cs,
            Err(e) => r == Err::<(), BuildError>(e),
        },
    decreases node, 1nat,
{
    let ghost before = classes_view(classes@);
    if text_is(node.kind.as_str(), "class_declaration") {
        match find_child(&node.children, &Probe::Kind("identifier"), 0) {
            Some(ni) => {
                let mut methods: Vec<Method> = Vec::new();
                match find_methods(node, &mut methods) {
                    Ok(()) => {},
                    Err(e) => return Err(e),
                }
                assert(methods_view(methods@) =~= Seq::<MethodModel>::empty() + methods_view(
                    methods@,
                ));
                let uses_input = methods_read_input(&methods);
                let c = Class { name: node.children[ni].text.clone(), methods, uses_input };
                classes.push(c);
                assert(classes_view(classes@) =~= before + seq![class_view(c)]);
            },
            None => {
                assert(classes_view(classes@) =~= before + Seq::<ClassModel>::empty());
            },
        }
    } else {
        assert(classes_view(classes@) =~= before + Seq::<ClassModel>::empty());
    }
    assert(node.children@.subrange(0, node.children@.len() as int) =~= node.children@);
    let r = find_classes_in_list(&node.children, node.children.len(), classes);
    proof {
        match classes_in(*node) {
            Ok(cs) => {
                assert(classes_view(classes@) =~= before + cs);
            },
            Err(e) => {},
        }
    }
    r
}

fn find_classes_in_list(cs: &Vec<SyntaxNode>, n: usize, classes: &mut Vec<Class>) -> (r: Result<
    (),
    BuildError,
>)
    requires
        n <= cs.len(),
    ensures
        match classes_in_list(cs@.subrange(0, n as int)) {
            Ok(xs) => r is Ok && classes_view(final(classes)@) == classes_view(old(classes)@) + xs,
            Err(e) => r == Err::<(), BuildError>(e),
        },
    decreases cs, 0nat, n,
{
    if n == 0 {
        assert(classes_view(classes@) =~= classes_view(classes@) + Seq::<ClassModel>::empty());
        return Ok(());
    }
    let ghost before = classes_view(classes@);
    assert(cs@.subrange(0, n as int).subrange(0, n - 1) =~= cs@.subrange(0, n - 1));
    match find_classes_in_list(cs, n - 1, classes) {
        Err(e) => Err(e),
        Ok(()) => {
            let r = find_classes(&cs[n - 1], classes);
            proof {
                match classes_in_list(cs@.subrange(0, n as int)) {
                    Ok(xs) => {
                        assert(classes_view(classes@) =~= before + xs);
                    },
                    Err(e) => {},
                }
            }
            r
        },
    }
}
} // verus!
