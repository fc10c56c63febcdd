//! The deep embedding of the Space-Time IR as an expression tree.
use vstd::prelude::*;

verus! {

/// The operation a node performs.
#[derive(Debug, PartialEq, Eq)]
pub enum NodeKind {
    Id,
    Abs,
    Add,
    MapS { n: u32, f: Box<Node> },
    MapT { n: u32, i: u32, f: Box<Node> },
    Map2S { n: u32, f: Box<Node> },
    Map2T { n: u32, i: u32, f: Box<Node> },
}

/// The producers of a node's inputs.
#[derive(Debug, PartialEq, Eq)]
pub enum NodeInputs {
    Nullary,
    Unary(Box<Node>),
    Binary { left: Box<Node>, right: Box<Node> },
}

/// A node of an expression tree. The root of the tree is the output node and
/// the leaves are the inputs; `inputs` names each node's producers, and
/// `index` is unique within a tree.
#[derive(Debug, PartialEq, Eq)]
pub struct Node {
    index: u32,
    node_kind: NodeKind,
    inputs: NodeInputs,
}

} // verus!
