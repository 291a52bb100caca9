//! The registry's list of members.

use crate::error::Result;
use crate::hash::{
    clock_failure_text, generate_salted_hash, hash64, salt_from_clock, salted_text,
};
use crate::partition::{is_consistent, lemma_nearest_owns, Arcs};
use crate::{ccw_distance, optional_info_view, owns, HashRing, NodeInfo, NodeView};
use vstd::prelude::*;
use vstd::utf8::encode_utf8;

verus! {

/// The views of a list of members.
pub open spec fn member_views(nodes: Seq<NodeInfo>) -> Seq<NodeView> {
    nodes.map_values(|node: NodeInfo| node@)
}

/// `node` can be the rendezvous of a newcomer `id`: it is another node.
pub open spec fn is_candidate(node: NodeView, id: u64) -> bool {
    node.id != id
}

/// The member at `at` is the rendezvous for `id`: of the candidates it is
/// nearest walking backward from `id`, and the first among those equally
/// near.
pub open spec fn is_closest(nodes: Seq<NodeView>, id: u64, at: int) -> bool {
    &&& 0 <= at < nodes.len()
    &&& is_candidate(nodes[at], id)
    &&& forall|j: int|
        0 <= j < nodes.len() && is_candidate(#[trigger] nodes[j], id) ==> ccw_distance(
            id,
            nodes[at].id,
        ) <= ccw_distance(id, nodes[j].id)
    &&& forall|j: int|
        0 <= j < at && is_candidate(#[trigger] nodes[j], id) ==> ccw_distance(id, nodes[at].id)
            < ccw_distance(id, nodes[j].id)
}

/// `found` is the answer to a newcomer `id` that asks for its rendezvous:
/// the closest member, or nobody if there is no other node.
pub open spec fn is_rendezvous(nodes: Seq<NodeView>, id: u64, found: Option<NodeView>) -> bool {
    match found {
        Some(node) => exists|at: int| #[trigger] is_closest(nodes, id, at) && node == nodes[at],
        None => forall|j: int| 0 <= j < nodes.len() ==> !is_candidate(#[trigger] nodes[j], id),
    }
}

/// The members that have registered, in the order in which they came.
#[derive(Debug)]
pub struct Manager {
    nodes: Vec<NodeInfo>,
}

impl View for Manager {
    type V = Seq<NodeView>;

    closed spec fn view(&self) -> Seq<NodeView> {
        member_views(self.nodes@)
    }
}

impl Manager {
    pub fn new() -> (manager: Self)
        ensures
            manager@ == Seq::<NodeView>::empty(),
    {
        let manager = Manager { nodes: Vec::new() };
        assert(manager@ =~= Seq::<NodeView>::empty());
        manager
    }

    /// Registers the node at `addr` under the identifier that its address
    /// hashes to when salted with the time `nanos`.
    pub fn register_node_at(&mut self, addr: String, nanos: u128) -> (id: Result<u64>)
        ensures
            id matches Ok(assigned) && assigned == hash64(
                encode_utf8(salted_text(addr@, nanos)),
            ) && final(self)@ == old(self)@.push(NodeView { id: assigned, addr: addr@ }),
    {
        let hashed_id = match generate_salted_hash(addr.as_str(), nanos) {
            Ok(hashed_id) => hashed_id,
            Err(failure) => {
                return Err(failure);
            },
        };
        let ghost text = addr@;
        self.nodes.push(NodeInfo { id: hashed_id, addr });
        assert(self@ =~= old(self)@.push(NodeView { id: hashed_id, addr: text }));
        Ok(hashed_id)
    }

    /// Registers the node at `addr` under the identifier that its address
    /// hashes to when salted with the current time.
    pub fn register_node(&mut self, addr: String) -> (id: Result<u64>)
        ensures
            match id {
                Ok(assigned) => final(self)@ == old(self)@.push(
                    NodeView { id: assigned, addr: addr@ },
                ) && exists|nanos: u128|
                    assigned == hash64(encode_utf8(#[trigger] salted_text(addr@, nanos))),
                Err(failure) => final(self)@ == old(self)@ && failure.is_internal(
                    clock_failure_text(),
                ),
            },
    {
        match salt_from_clock() {
            Ok(nanos) => self.register_node_at(addr, nanos),
            Err(failure) => Err(failure),
        }
    }

    /// The member through which a newcomer `id` joins: the nearest other
    /// member walking backward from `id`.
    pub fn find_closest_neighbor(&self, id: u64) -> (found: Result<Option<NodeInfo>>)
        ensures
            found matches Ok(closest) && is_rendezvous(self@, id, optional_info_view(closest)),
    {
        let mut smallest_distance = u64::MAX;
        let mut result: Option<NodeInfo> = None;
        let ghost mut best: int = 0;
        let mut i: usize = 0;
        while i < self.nodes.len()
            invariant
                0 <= i <= self.nodes@.len(),
                result matches Some(node) ==> 0 <= best < i && node@ == self@[best]
                    && smallest_distance == ccw_distance(id, self@[best].id) && is_candidate(
                    self@[best],
                    id,
                ),
                forall|j: int|
                    0 <= j < i && is_candidate(#[trigger] self@[j], id) ==> result is Some
                        && smallest_distance <= ccw_distance(id, self@[j].id),
                forall|j: int|
                    0 <= j < best && result is Some && is_candidate(#[trigger] self@[j], id)
                        ==> smallest_distance < ccw_distance(id, self@[j].id),
            decreases self.nodes@.len() - i,
        {
            let node = &self.nodes[i];
            assert(self@[i as int] == node@);
            let distance = HashRing::counter_clockwise_distance(id, node.id);
            if node.id != id && (result.is_none() || distance < smallest_distance) {
                smallest_distance = distance;
                result = Some(node.clone());
                proof {
                    best = i as int;
                }
            }
            i += 1;
        }
        proof {
            if result is Some {
                assert(is_closest(self@, id, best));
            }
        }
        Ok(result)
    }

    /// Every member, in the order of registration.
    pub fn get_nodes(&self) -> (nodes: Result<Vec<NodeInfo>>)
        ensures
            nodes matches Ok(list) && member_views(list@) == self@,
    {
        let mut list: Vec<NodeInfo> = Vec::new();
        let mut i: usize = 0;
        while i < self.nodes.len()
            invariant
                0 <= i <= self.nodes@.len(),
                list@.len() == i,
                forall|j: int| 0 <= j < i ==> (#[trigger] list@[j])@ == self.nodes@[j]@,
            decreases self.nodes@.len() - i,
        {
            list.push(self.nodes[i].clone());
            i += 1;
        }
        assert(member_views(list@) =~= self@);
        Ok(list)
    }
}

/// The rendezvous that the registry names is the member to join behind: if
/// the members form a consistent ring and the newcomer's identifier is not
/// taken, the member that is closest to it owns it.
pub proof fn lemma_closest_is_owner(arcs: Arcs, members: Seq<NodeView>, id: u64, at: int)
    requires
        is_consistent(arcs),
        members.len() == arcs.len(),
        forall|i: int| 0 <= i < arcs.len() ==> (#[trigger] arcs[i]).0 == members[i].id,
        forall|i: int| 0 <= i < members.len() ==> (#[trigger] members[i]).id != id,
        is_closest(members, id, at),
    ensures
        owns(arcs[at].0, arcs[at].1, id),
{
    assert forall|j: int| 0 <= j < arcs.len() implies ccw_distance(id, arcs[at].0)
        <= ccw_distance(id, (#[trigger] arcs[j]).0) by {
        assert(is_candidate(members[j], id));
    }
    lemma_nearest_owns(arcs, id, at);
}

} // verus!
