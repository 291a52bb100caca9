//! Where a query ends up when it is passed from node to node.

use crate::dht::service::{forward_target, is_local};
use crate::dht::topology::{is_cycle, place_after, place_before, Network};
use crate::rpc::dht::NeighborsView;
use crate::{owns, ring_distance, NodeView};
use vstd::prelude::*;

verus! {

/// The node that executes a query for `key` that enters the ring at the node
/// `id`, if at most `hops` nodes handle it: each node that does not answer
/// for the key passes the query to the neighbour that forwarding names.
pub open spec fn routed_to(network: Network, id: u64, key: u64, hops: nat) -> Option<u64>
    decreases hops,
{
    if hops == 0 {
        None
    } else if is_local(id, network[id], key) {
        Some(id)
    } else {
        match forward_target(id, network[id], key) {
            Some(target) => routed_to(network, target.id, key, (hops - 1) as nat),
            None => None,
        }
    }
}

/// A forwarded query gets somewhere: the neighbour it is passed to either
/// owns the key, being the predecessor with the key on its arc, or is
/// strictly nearer to the key than the node that passed it on.
pub proof fn lemma_forward_makes_progress(id: u64, neighbors: NeighborsView, key: u64)
    requires
        neighbors.prev matches Some(prev) && prev.id != id,
        neighbors.next matches Some(next) && next.id != id,
        !is_local(id, neighbors, key),
    ensures
        forward_target(id, neighbors, key) matches Some(target) && ((target
            == neighbors.prev->0 && owns(target.id, id, key)) || ring_distance(target.id, key)
            < ring_distance(id, key)),
{
}

/// In a ring that is one cycle, a query that enters at the member at place
/// `at` is executed after finitely many hops, by a member that answers for
/// its key: no query travels for ever.
pub proof fn lemma_query_reaches_owner(
    network: Network,
    order: Seq<NodeView>,
    at: int,
    key: u64,
) -> (owner: int)
    requires
        is_cycle(network, order),
        0 <= at < order.len(),
    ensures
        0 <= owner < order.len(),
        owns(order[owner].id, order[place_after(owner, order.len() as int)].id, key),
        routed_to(network, order[at].id, key, (ring_distance(order[at].id, key) + 1) as nat)
            == Some(order[owner].id),
    decreases ring_distance(order[at].id, key),
{
    let n = order.len() as int;
    let id = order[at].id;
    let hops = (ring_distance(id, key) + 1) as nat;
    assert(network[id] == (NeighborsView {
        prev: Some(order[place_before(at, n)]),
        next: Some(order[place_after(at, n)]),
    }) && order[place_before(at, n)].id != id && order[place_after(at, n)].id != id) by {
        reveal(is_cycle);
    }
    if is_local(id, network[id], key) {
        at
    } else {
        lemma_forward_makes_progress(id, network[id], key);
        let before = place_before(at, n);
        let target = forward_target(id, network[id], key)->0;
        if target == order[before] && owns(target.id, id, key) {
            assert(network[target.id].next == Some(order[place_after(before, n)])
                && place_after(before, n) == at) by {
                reveal(is_cycle);
            }
            assert(is_local(target.id, network[target.id], key));
            assert(routed_to(network, target.id, key, (hops - 1) as nat) == Some(target.id)) by {
                lemma_more_hops(network, target.id, key, 1, (hops - 1) as nat);
            }
            before
        } else {
            let place = if target == order[before] {
                before
            } else {
                place_after(at, n)
            };
            assert(order[place] == target);
            let owner = lemma_query_reaches_owner(network, order, place, key);
            lemma_more_hops(
                network,
                target.id,
                key,
                (ring_distance(target.id, key) + 1) as nat,
                (hops - 1) as nat,
            );
            owner
        }
    }
}

/// A query that is executed within some number of hops is executed by the
/// same node within any greater number.
pub proof fn lemma_more_hops(network: Network, id: u64, key: u64, hops: nat, more: nat)
    requires
        routed_to(network, id, key, hops) is Some,
        hops <= more,
    ensures
        routed_to(network, id, key, more) == routed_to(network, id, key, hops),
    decreases hops,
{
    if hops > 0 && !is_local(id, network[id], key) {
        match forward_target(id, network[id], key) {
            Some(target) => {
                lemma_more_hops(network, target.id, key, (hops - 1) as nat, (more - 1) as nat);
            },
            None => {},
        }
    }
}

} // verus!
