//! Messages of the registry service.

use crate::NodeView;
use vstd::prelude::*;

verus! {

/// The address a node can be reached at.
#[derive(Debug)]
pub struct ConnectionAddr {
    pub addr: String,
}

/// A ring member as named on the wire.
#[derive(Debug)]
pub struct Node {
    pub id: u64,
    pub addr: String,
}

impl View for Node {
    type V = NodeView;

    open spec fn view(&self) -> NodeView {
        NodeView { id: self.id, addr: self.addr@ }
    }
}

impl Clone for Node {
    fn clone(&self) -> (copy: Self)
        ensures
            copy == *self,
    {
        Node { id: self.id, addr: self.addr.clone() }
    }
}

/// The view of an optional node.
pub open spec fn optional_node_view(node: Option<Node>) -> Option<NodeView> {
    match node {
        Some(node) => Some(node@),
        None => None,
    }
}

/// The registry's answer to a registration: the identifier it assigned and,
/// unless the ring was empty, the member to join through.
#[derive(Debug)]
pub struct RegisterInfo {
    pub id: u64,
    pub neighbor: Option<Node>,
}

/// The members the registry knows.
#[derive(Debug)]
pub struct Nodes {
    pub nodes: Vec<Node>,
}

} // verus!
