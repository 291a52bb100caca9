//! A Chord-style distributed hash table: ring arithmetic over 64-bit
//! identifiers, the registry that places new nodes, the neighbour handshake
//! used to splice a node into the ring, query routing and key handoff.

use vstd::prelude::*;

pub mod dht;
pub mod error;
pub mod hash;
pub mod partition;
pub mod registry;
pub mod rpc;
pub mod text;

verus! {

/// Number of points on the identifier circle.
pub open spec fn ring_size() -> int {
    0x1_0000_0000_0000_0000
}

/// Arc length walking backward (counter-clockwise) from `a` to `b`:
/// `a - b` modulo the ring size.
pub open spec fn ccw_distance(a: u64, b: u64) -> int {
    if a >= b {
        a - b
    } else {
        a - b + ring_size()
    }
}

/// The shorter of the two arcs between `a` and `b`.
pub open spec fn ring_distance(a: u64, b: u64) -> int {
    if ccw_distance(a, b) <= ccw_distance(b, a) {
        ccw_distance(a, b)
    } else {
        ccw_distance(b, a)
    }
}

/// `key` lies in the half-open arc `[id, next_id)` that starts at `id` and
/// runs clockwise to `next_id`. The degenerate arc `id == next_id` holds no
/// key at all.
pub open spec fn owns(id: u64, next_id: u64, key: u64) -> bool {
    (id < next_id && id <= key && key < next_id) || (id > next_id && (id <= key || key < next_id))
}

/// What a ring member is known by: its identifier and its address.
pub struct NodeView {
    pub id: u64,
    pub addr: Seq<char>,
}

/// Identity and address of a ring member.
#[derive(Debug)]
pub struct NodeInfo {
    pub id: u64,
    pub addr: String,
}

impl View for NodeInfo {
    type V = NodeView;

    open spec fn view(&self) -> NodeView {
        NodeView { id: self.id, addr: self.addr@ }
    }
}

/// The view of an optional member.
pub open spec fn optional_info_view(node: Option<NodeInfo>) -> Option<NodeView> {
    match node {
        Some(node) => Some(node@),
        None => None,
    }
}

impl Clone for NodeInfo {
    fn clone(&self) -> (copy: Self)
        ensures
            copy == *self,
    {
        NodeInfo { id: self.id, addr: self.addr.clone() }
    }
}

pub struct HashRing {}

impl HashRing {
    /// Shortest arc between two identifiers, in either direction.
    pub fn distance(a: u64, b: u64) -> (d: u64)
        ensures
            d == ring_distance(a, b),
            d == ring_distance(b, a),
    {
        let bigger: u64;
        let smaller: u64;
        if a > b {
            bigger = a;
            smaller = b;
        } else {
            bigger = b;
            smaller = a;
        }
        let inner: u64 = bigger - smaller;
        if inner == 0 {
            0
        } else {
            let outer: u64 = (u64::MAX - bigger) + smaller + 1;
            if inner <= outer {
                inner
            } else {
                outer
            }
        }
    }

    /// Arc length walking backward from `a` to `b`.
    pub fn counter_clockwise_distance(a: u64, b: u64) -> (d: u64)
        ensures
            d == ccw_distance(a, b),
    {
        if a >= b {
            a - b
        } else {
            (u64::MAX - b) + a + 1
        }
    }

    /// Whether the node `id`, whose successor is `next_id`, is responsible
    /// for `key`.
    pub fn is_node_key(id: u64, next_id: u64, key: u64) -> (owned: bool)
        ensures
            owned == owns(id, next_id, key),
    {
        (id < next_id && (id <= key && key < next_id)) || (id > next_id && (id <= key || key
            < next_id))
    }
}

} // verus!
