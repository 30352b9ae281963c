use vstd::prelude::*;
use crate::text::text_is;

verus! {

/// A node of the concrete syntax tree, as plain values: its kind, its source
/// text, the field under which it hangs in its parent, whether the grammar
/// names it, and its children in order.
pub struct SyntaxNode {
    pub kind: String,
    pub text: String,
    pub field: Option<String>,
    pub named: bool,
    pub children: Vec<SyntaxNode>,
}

/// The first position at or after `i` whose node satisfies `p`.
pub open spec fn first_from(cs: Seq<SyntaxNode>, p: spec_fn(SyntaxNode) -> bool, i: int) -> Option<
    int,
>
    decreases cs.len() - i,
{
    if i < 0 || i >= cs.len() {
        None
    } else if p(cs[i]) {
        Some(i)
    } else {
        first_from(cs, p, i + 1)
    }
}

pub broadcast proof fn lemma_first_from_range(
    cs: Seq<SyntaxNode>,
    p: spec_fn(SyntaxNode) -> bool,
    i: int,
)
    ensures
        #[trigger] first_from(cs, p, i) matches Some(j) ==> i <= j < cs.len() && p(cs[j]),
    decreases cs.len() - i,
{
    if 0 <= i < cs.len() && !p(cs[i]) {
        lemma_first_from_range(cs, p, i + 1);
    }
}

pub open spec fn has_kind(k: Seq<char>) -> spec_fn(SyntaxNode) -> bool {
    |c: SyntaxNode| c.kind@ == k
}

pub open spec fn lacks_kind(k: Seq<char>) -> spec_fn(SyntaxNode) -> bool {
    |c: SyntaxNode| c.kind@ != k
}

pub open spec fn has_field(f: Seq<char>) -> spec_fn(SyntaxNode) -> bool {
    |c: SyntaxNode| c.field is Some && c.field->Some_0@ == f
}

pub open spec fn is_named() -> spec_fn(SyntaxNode) -> bool {
    |c: SyntaxNode| c.named
}

/// Kinds that may stand as the initial value of a declared variable.
pub open spec fn is_initializer_kind(k: Seq<char>) -> bool {
    k == "integer_literal"@ || k == "real_literal"@ || k == "string_literal"@ || k
        == "boolean_literal"@ || k == "identifier"@ || k == "binary_expression"@ || k
        == "prefix_unary_expression"@ || k == "postfix_unary_expression"@ || k
        == "invocation_expression"@ || k == "member_access_expression"@
}

/// Kinds that may stand as the value of a `return`.
pub open spec fn is_return_kind(k: Seq<char>) -> bool {
    k == "binary_expression"@ || k == "prefix_unary_expression"@ || k
        == "postfix_unary_expression"@ || k == "invocation_expression"@ || k == "identifier"@ || k
        == "integer_literal"@ || k == "real_literal"@ || k == "boolean_literal"@ || k
        == "string_literal"@
}

pub open spec fn is_initializer() -> spec_fn(SyntaxNode) -> bool {
    |c: SyntaxNode| is_initializer_kind(c.kind@)
}

pub open spec fn is_return_value() -> spec_fn(SyntaxNode) -> bool {
    |c: SyntaxNode| is_return_kind(c.kind@)
}

/// The first child of the given kind.
pub open spec fn child_of_kind(n: SyntaxNode, k: Seq<char>) -> Option<SyntaxNode> {
    match first_from(n.children@, has_kind(k), 0) {
        Some(i) => Some(n.children@[i]),
        None => None,
    }
}

/// The first child that hangs under the given field.
pub open spec fn child_by_field(n: SyntaxNode, f: Seq<char>) -> Option<SyntaxNode> {
    match first_from(n.children@, has_field(f), 0) {
        Some(i) => Some(n.children@[i]),
        None => None,
    }
}

/// What a search among children looks for.
pub enum Probe<'a> {
    Kind(&'a str),
    NotKind(&'a str),
    Field(&'a str),
    Named,
    Initializer,
    ReturnValue,
}

pub open spec fn probe_pred(p: Probe) -> spec_fn(SyntaxNode) -> bool {
    match p {
        Probe::Kind(k) => has_kind(k@),
        Probe::NotKind(k) => lacks_kind(k@),
        Probe::Field(f) => has_field(f@),
        Probe::Named => is_named(),
        Probe::Initializer => is_initializer(),
        Probe::ReturnValue => is_return_value(),
    }
}

pub fn kind_is_one_of_initializers(k: &str) -> (r: bool)
    ensures
        r == is_initializer_kind(k@),
{
    text_is(k, "integer_literal") || text_is(k, "real_literal") || text_is(k, "string_literal")
        || text_is(k, "boolean_literal") || text_is(k, "identifier") || text_is(
        k,
        "binary_expression",
    ) || text_is(k, "prefix_unary_expression") || text_is(k, "postfix_unary_expression")
        || text_is(k, "invocation_expression") || text_is(k, "member_access_expression")
}

pub fn kind_is_one_of_returns(k: &str) -> (r: bool)
    ensures
        r == is_return_kind(k@),
{
    text_is(k, "binary_expression") || text_is(k, "prefix_unary_expression") || text_is(
        k,
        "postfix_unary_expression",
    ) || text_is(k, "invocation_expression") || text_is(k, "identifier") || text_is(
        k,
        "integer_literal",
    ) || text_is(k, "real_literal") || text_is(k, "boolean_literal") || text_is(
        k,
        "string_literal",
    )
}

/// Tells whether a node satisfies the probe.
pub fn probe_matches(p: &Probe, c: &SyntaxNode) -> (r: bool)
    ensures
        r == (probe_pred(*p))(*c),
{
    match p {
        Probe::Kind(k) => text_is(c.kind.as_str(), k),
        Probe::NotKind(k) => !text_is(c.kind.as_str(), k),
        Probe::Field(f) => match &c.field {
            Some(g) => text_is(g.as_str(), f),
            None => false,
        },
        Probe::Named => c.named,
        Probe::Initializer => kind_is_one_of_initializers(c.kind.as_str()),
        Probe::ReturnValue => kind_is_one_of_returns(c.kind.as_str()),
    }
}

/// The first position at or after `start` whose child satisfies the probe.
pub fn find_child(cs: &Vec<SyntaxNode>, p: &Probe, start: usize) -> (r: Option<usize>)
    ensures
        r == (match first_from(cs@, probe_pred(*p), start as int) {
            Some(i) => Some(i as usize),
            None => None::<usize>,
        }),
        r matches Some(i) ==> i < cs.len(),
{
    let mut i = start;
    while i < cs.len()
        invariant
            start <= i,
            first_from(cs@, probe_pred(*p), start as int) == first_from(
                cs@,
                probe_pred(*p),
                i as int,
            ),
        decreases cs.len() - i,
    {
        if probe_matches(p, &cs[i]) {
            return Some(i);
        }
        i = i + 1;
    }
    None
}

} // verus!
