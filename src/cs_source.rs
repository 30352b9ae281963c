use vstd::prelude::*;
use crate::builder_java::{TranslateError, translate_tree, translation_of};
use crate::syntax::SyntaxNode;

verus! {

#[verifier::external_type_specification]
#[verifier::external_body]
pub struct ExParser(tree_sitter::Parser);

#[verifier::external_type_specification]
#[verifier::external_body]
pub struct ExTree(tree_sitter::Tree);

#[verifier::external_type_specification]
#[verifier::external_body]
pub struct ExNode<'a>(tree_sitter::Node<'a>);

/// Relies on tree_sitter::Parser::new: a parser with no grammar yet.
#[verifier::external_body]
fn new_parser() -> tree_sitter::Parser {
    tree_sitter::Parser::new()
}

/// Relies on tree_sitter::Parser::set_language, given the C# grammar of
/// tree_sitter_c_sharp: true when the parser accepted it.
#[verifier::external_body]
fn use_csharp_grammar(parser: &mut tree_sitter::Parser) -> bool {
    parser.set_language(&tree_sitter_c_sharp::LANGUAGE.into()).is_ok()
}

/// Relies on tree_sitter::Parser::parse: the syntax tree of the text, if any.
#[verifier::external_body]
fn parse_text(parser: &mut tree_sitter::Parser, source: &str) -> Option<tree_sitter::Tree> {
    parser.parse(source, None)
}

/// Relies on tree_sitter::Tree::root_node.
#[verifier::external_body]
fn root_of<'a>(tree: &'a tree_sitter::Tree) -> tree_sitter::Node<'a> {
    tree.root_node()
}

/// Relies on tree_sitter::Node::kind: the grammar's name for the node.
#[verifier::external_body]
fn node_kind(node: &tree_sitter::Node) -> String {
    node.kind().to_string()
}

/// Relies on tree_sitter::Node::is_named.
#[verifier::external_body]
fn node_is_named(node: &tree_sitter::Node) -> bool {
    node.is_named()
}

/// Relies on tree_sitter::Node::byte_range: where the node lies in the source.
#[verifier::external_body]
fn node_span(node: &tree_sitter::Node) -> (usize, usize) {
    let r = node.byte_range();
    (r.start, r.end)
}

/// Relies on tree_sitter::Node::child_count.
#[verifier::external_body]
fn node_child_count(node: &tree_sitter::Node) -> u32 {
    node.child_count()
}

/// Relies on tree_sitter::Node::child: the child at a position, if there is one.
#[verifier::external_body]
fn node_child<'a>(node: &tree_sitter::Node<'a>, i: u32) -> Option<tree_sitter::Node<'a>> {
    node.child(i)
}

/// Relies on tree_sitter::Node::field_name_for_child: the field that the child
/// at a position hangs under, if any.
#[verifier::external_body]
fn node_field_for_child(node: &tree_sitter::Node, i: u32) -> Option<String> {
    match node.field_name_for_child(i) {
        Some(f) => Some(f.to_string()),
        None => None,
    }
}

/// Relies on tree_sitter::Node::descendant_count: the nodes of the subtree,
/// the node itself included.
#[verifier::external_body]
fn node_descendant_count(node: &tree_sitter::Node) -> (r: usize)
    ensures
        r >= 1,
{
    node.descendant_count()
}

/// Relies on str::get: the text between two byte offsets, or `None` when they
/// are out of order, out of range, or not on character boundaries.
#[verifier::external_body]
fn text_between(source: &str, start: usize, end: usize) -> (r: Option<String>)
    ensures
        start > end ==> r is None,
{
    match source.get(start..end) {
        Some(t) => Some(t.to_string()),
        None => None,
    }
}

/// Copies a parsed node and its subtree into plain values. `depth` bounds the
/// recursion: a subtree deeper than that gives `None`, as does a node whose
/// text cannot be cut from the source.
fn copy_node(node: &tree_sitter::Node, source: &str, depth: usize) -> (r: Option<SyntaxNode>)
    ensures
        r matches Some(t) ==> t.field is None,
    decreases depth,
{
    if depth == 0 {
        return None;
    }
    let count = node_child_count(node);
    let mut children: Vec<SyntaxNode> = Vec::new();
    let mut i: u32 = 0;
    while i < count
        invariant
            i <= count,
            depth > 0,
        decreases count - i,
    {
        let child = match node_child(node, i) {
            Some(c) => c,
            None => return None,
        };
        let mut copied = match copy_node(&child, source, depth - 1) {
            Some(c) => c,
            None => return None,
        };
        copied.field = node_field_for_child(node, i);
        children.push(copied);
        i = i + 1;
    }
    let (start, end) = node_span(node);
    let text = match text_between(source, start, end) {
        Some(t) => t,
        None => return None,
    };
    Some(SyntaxNode { kind: node_kind(node), text, field: None, named: node_is_named(node), children })
}

/// Parses source text with the C# grammar and copies the tree into plain values.
pub fn parse_source(source: &str) -> (r: Result<SyntaxNode, TranslateError>)
    ensures
        r matches Ok(t) ==> t.field is None,
        r matches Err(e) ==> e == TranslateError::ParserSetup || e == TranslateError::Parse,
{
    let mut parser = new_parser();
    if !use_csharp_grammar(&mut parser) {
        return Err(TranslateError::ParserSetup);
    }
    let tree = match parse_text(&mut parser, source) {
        Some(t) => t,
        None => return Err(TranslateError::Parse),
    };
    let root = root_of(&tree);
    let depth = node_descendant_count(&root);
    match copy_node(&root, source, depth) {
        Some(t) => Ok(t),
        None => Err(TranslateError::Parse),
    }
}

/// Translates source text: parse, lower, render.
pub fn transpile(source: &str) -> (r: Result<String, TranslateError>)
    ensures
        match r {
            Ok(s) => exists|t: SyntaxNode| translation_of(t) == Ok::<Seq<char>, TranslateError>(s@),
            Err(e) => e == TranslateError::ParserSetup || e == TranslateError::Parse || exists|
                t: SyntaxNode,
            | translation_of(t) == Err::<Seq<char>, TranslateError>(e),
        },
{
    match parse_source(source) {
        Err(e) => Err(e),
        Ok(tree) => translate_tree(&tree),
    }
}

} // verus!
