//! Ordering of proof nodes by their absolute index within the tree.

use vstd::prelude::*;

verus! {

/// A node of a proof, identified by its absolute index within the tree.
#[derive(Clone, Copy, Debug, PartialEq, Eq, Structural, PartialOrd, Ord, Hash)]
pub struct Node {
    pub abs_index: usize,
}

impl Node {
    pub fn abs_index(&self) -> (r: usize)
        ensures
            r == self.abs_index,
    {
        self.abs_index
    }
}

/// A proof node wrapped so that collections order it by absolute index.
#[derive(Clone, Copy, Debug, PartialEq, Eq, Structural, PartialOrd, Ord, Hash)]
pub struct NodesWithAbsOrder {
    pub node: Node,
}

impl NodesWithAbsOrder {
    pub open spec fn spec_node(&self) -> Node {
        self.node
    }

    pub fn get(&self) -> (r: &Node)
        ensures
            *r == self.spec_node(),
    {
        &self.node
    }
}

impl From<Node> for NodesWithAbsOrder {
    fn from(node: Node) -> (r: NodesWithAbsOrder) {
        NodesWithAbsOrder { node }
    }
}

impl vstd::std_specs::convert::FromSpecImpl<Node> for NodesWithAbsOrder {
    open spec fn obeys_from_spec() -> bool {
        true
    }

    open spec fn from_spec(node: Node) -> NodesWithAbsOrder {
        NodesWithAbsOrder { node }
    }
}

impl From<NodesWithAbsOrder> for Node {
    fn from(node: NodesWithAbsOrder) -> (r: Node) {
        node.node
    }
}

impl vstd::std_specs::convert::FromSpecImpl<NodesWithAbsOrder> for Node {
    open spec fn obeys_from_spec() -> bool {
        true
    }

    open spec fn from_spec(node: NodesWithAbsOrder) -> Node {
        node.spec_node()
    }
}

} // verus!
