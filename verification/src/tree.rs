//! The schema tree that the layout planner reads.

use crate::layout::Span;
use vstd::prelude::*;

verus! {

/// What a node of the schema tree stands for.
#[derive(Clone, Copy, Debug, PartialEq, Eq)]
pub enum NodeKind {
    /// An optional name followed by a type.
    Element,
    /// An identifier; its text is the name.
    Name,
    /// A scalar literal; its text is the letter `b` and a bit count.
    Bits,
    /// The union branch without a payload.
    Null,
    /// A record; its children are elements.
    Struct,
    /// A tagged union; its children are elements or null branches.
    Union,
    /// A fixed-depth array; its first child is the element.
    List,
    /// A length-prefixed array; its first child is the element.
    Vector,
}

/// A node of the schema tree: its kind, the text it covers where that
/// matters, its place in the source and its children in source order.
#[derive(Debug, PartialEq, Eq)]
pub struct Node {
    pub kind: NodeKind,
    pub text: String,
    pub span: Span,
    pub children: Vec<Node>,
}

/// Mathematical value of a [`Node`].
pub ghost struct NodeModel {
    pub kind: NodeKind,
    pub text: Seq<char>,
    pub span: Span,
    pub children: Seq<NodeModel>,
}

/// The values of a sequence of nodes, in order.
pub open spec fn node_models(nodes: Seq<Node>) -> Seq<NodeModel>
    decreases nodes,
{
    Seq::new(
        nodes.len(),
        |i: int|
            if 0 <= i < nodes.len() {
                nodes[i]@
            } else {
                arbitrary()
            },
    )
}

impl View for Node {
    type V = NodeModel;

    open spec fn view(&self) -> NodeModel
        decreases self,
    {
        NodeModel {
            kind: self.kind,
            text: self.text@,
            span: self.span,
            children: node_models(self.children@),
        }
    }
}

/// The children of a node's value are the values of its children.
pub proof fn lemma_children_models(node: &Node)
    ensures
        node@.kind == node.kind,
        node@.text == node.text@,
        node@.span == node.span,
        node@.children.len() == node.children.len(),
        forall|i: int|
            0 <= i < node.children.len() ==> (#[trigger] node@.children[i]) == node.children[i]@,
{
    assert(node@.children == node_models(node.children@));
}

} // verus!
