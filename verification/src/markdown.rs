//! The tree that a markdown text decodes to, reduced to what a cheatsheet is
//! read from.

use comrak::nodes::{AstNode, NodeValue};
use vstd::prelude::*;

verus! {

/// What a node of the tree is, as far as a cheatsheet depends on it.
#[derive(Clone, Debug, PartialEq, Eq)]
pub enum NodeKind {
    /// A heading and its level.
    Heading(u8),
    /// A table; its children are its rows.
    Table,
    /// A table row, and whether it is the header row; its children are cells.
    TableRow(bool),
    /// Literal text.
    Text(String),
    /// An inline code span and its literal text.
    Code(String),
    /// A soft or a hard line break.
    LineBreak,
    /// Any other node.
    Other,
}

/// A node with its children in document order.
#[derive(Debug)]
pub struct MdNode {
    pub kind: NodeKind,
    pub children: Vec<MdNode>,
}

/// The tree that `comrak::parse_document`, with the table extension switched
/// on and every other option at its default, builds from a text, each of its
/// nodes reduced to an `MdNode`.
pub uninterp spec fn markdown_tree(text: Seq<char>) -> MdNode;

/// comrak's tree node: its links to parent, siblings and children, and the
/// data it holds. Nothing is claimed of it.
#[verifier::external_type_specification]
#[verifier::external_body]
#[verifier::reject_recursive_types(T)]
pub struct ExTreeNode<'a, T: 'a>(comrak::arena_tree::Node<'a, T>);

/// comrak's node data: the node value and its place in the source. Nothing
/// is claimed of it.
#[verifier::external_type_specification]
#[verifier::external_body]
pub struct ExAst(comrak::nodes::Ast);

/// The cell in which comrak keeps a node's data. Nothing is claimed of it.
#[verifier::external_type_specification]
#[verifier::external_body]
#[verifier::reject_recursive_types(T)]
pub struct ExRefCell<T: ?Sized>(core::cell::RefCell<T>);

/// Reads one node of comrak's tree, with all that is below it, into an
/// `MdNode`: the kind from the node's value, the children (those that
/// `Node::children` walks) in their order. Nothing is proved of it.
#[verifier::external_body]
fn lift_node<'a>(node: &'a AstNode<'a>) -> (out: MdNode) {
    let kind = match &node.data.borrow().value {
        NodeValue::Heading(h) => NodeKind::Heading(h.level),
        NodeValue::Table(_) => NodeKind::Table,
        NodeValue::TableRow(header) => NodeKind::TableRow(*header),
        NodeValue::Text(t) => NodeKind::Text(t.to_string()),
        NodeValue::Code(c) => NodeKind::Code(c.literal.clone()),
        NodeValue::SoftBreak | NodeValue::LineBreak => NodeKind::LineBreak,
        _ => NodeKind::Other,
    };
    MdNode { kind, children: node.children().map(lift_node).collect() }
}

/// Calls `comrak::parse_document` with the table extension switched on, and
/// reads the tree it builds. The tree is only named: what comrak makes of a
/// text is CommonMark's business, and depends on the text alone.
#[verifier::external_body]
pub(crate) fn decode_markdown(text: &str) -> (root: MdNode)
    ensures
        root == markdown_tree(text@),
{
    let arena = comrak::Arena::new();
    let mut options = comrak::Options::default();
    options.extension.table = true;
    lift_node(comrak::parse_document(&arena, text, &options))
}

} // verus!
