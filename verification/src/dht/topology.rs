//! What the join of a node does to the neighbour slots of the ring.

use crate::dht::service::{next_join_step, successor_choice, JoinStepView};
use crate::partition::{is_consistent, lemma_split_keeps_consistent, split, Arcs};
use crate::rpc::dht::{NeighborType, NeighborsView};
use crate::{owns, NodeView};
use vstd::prelude::*;

verus! {

/// The neighbour slots of every node of a ring, by node identifier.
pub type Network = Map<u64, NeighborsView>;

/// The ring after `joiner` has joined through `rendezvous`.
///
/// The joiner registers as the successor of the rendezvous, which answers
/// with the neighbours it had; the joiner records the rendezvous as its
/// predecessor, takes for its successor the one that the rendezvous had (or
/// the rendezvous itself, if that one was alone), registers as the
/// predecessor of that node and records it as its successor.
pub open spec fn joined(network: Network, joiner: NodeView, rendezvous: NodeView) -> Network {
    let previous = network[rendezvous.id];
    let first = network.insert(rendezvous.id, previous.switched(NeighborType::Next, joiner));
    let successor = successor_choice(previous, rendezvous);
    let second = first.insert(
        successor.id,
        first[successor.id].switched(NeighborType::Previous, joiner),
    );
    second.insert(
        joiner.id,
        NeighborsView::alone().registered(NeighborType::Next, rendezvous).registered(
            NeighborType::Previous,
            successor,
        ),
    )
}

/// The steps of a join lead to the joined ring: a joiner that is alone
/// registers as the successor of its rendezvous, then as the predecessor of
/// the node it takes for its successor, then pulls its keys from the
/// rendezvous; by then its own slots and those of the two nodes it has
/// called are what `joined` says.
pub proof fn lemma_join_steps(network: Network, joiner: NodeView, rendezvous: NodeView)
    requires
        network.contains_key(rendezvous.id),
        network.contains_key(successor_choice(network[rendezvous.id], rendezvous).id),
        !network.contains_key(joiner.id),
    ensures
        ({
            let answer = network[rendezvous.id];
            let first = NeighborsView::alone().registered(NeighborType::Next, rendezvous);
            let successor = successor_choice(answer, rendezvous);
            let second = first.registered(NeighborType::Previous, successor);
            let after = joined(network, joiner, rendezvous);
            &&& next_join_step(joiner, first, rendezvous, NeighborType::Next, answer) == (
            JoinStepView::Register {
                neighbor: successor,
                ty: NeighborType::Previous,
                caller: joiner,
            })
            &&& forall|reply: NeighborsView|
                next_join_step(joiner, second, successor, NeighborType::Previous, reply) == (
                JoinStepView::TransferKeys { neighbor: rendezvous, id: joiner.id })
            &&& after[joiner.id] == second
            &&& second == (NeighborsView { prev: Some(rendezvous), next: Some(successor) })
            &&& after[rendezvous.id].next == Some(joiner)
            &&& after[successor.id].prev == Some(joiner)
            &&& forall|id: u64|
                id != joiner.id ==> (#[trigger] after.contains_key(id) <==> network.contains_key(
                    id,
                ))
            &&& forall|id: u64|
                network.contains_key(id) && id != rendezvous.id && id != successor.id
                    ==> #[trigger] after[id] == network[id]
        }),
{
}

/// The place after `i` on a cycle of `n` places.
pub open spec fn place_after(i: int, n: int) -> int {
    if i + 1 == n {
        0
    } else {
        i + 1
    }
}

/// The place before `i` on a cycle of `n` places.
pub open spec fn place_before(i: int, n: int) -> int {
    if i == 0 {
        n - 1
    } else {
        i - 1
    }
}

/// The nodes of the network are those of `order`, each once, and the slots
/// of each name the node after it as its successor and the node before it as
/// its predecessor: the ring is one cycle, walked in this order.
#[verifier::opaque]
pub open spec fn is_cycle(network: Network, order: Seq<NodeView>) -> bool {
    &&& order.len() >= 2
    &&& forall|i: int, j: int|
        0 <= i < order.len() && 0 <= j < order.len() && (#[trigger] order[i]).id == (
        #[trigger] order[j]).id ==> i == j
    &&& forall|id: u64|
        network.contains_key(id) <==> exists|i: int|
            0 <= i < order.len() && (#[trigger] order[i]).id == id
    &&& forall|i: int|
        0 <= i < order.len() ==> network[(#[trigger] order[i]).id] == (NeighborsView {
            prev: Some(order[place_before(i, order.len() as int)]),
            next: Some(order[place_after(i, order.len() as int)]),
        })
}

/// A node that is alone takes the newcomer for both its neighbours, and the
/// newcomer takes that node for both of its own: the two form a ring in
/// which each is the other's successor and predecessor.
pub proof fn lemma_second_node_joins(single: NodeView, joiner: NodeView)
    requires
        single.id != joiner.id,
    ensures
        ({
            let network = Map::<u64, NeighborsView>::empty().insert(
                single.id,
                NeighborsView::alone(),
            );
            let after = joined(network, joiner, single);
            &&& after[single.id] == (NeighborsView { prev: Some(joiner), next: Some(joiner) })
            &&& after[joiner.id] == (NeighborsView { prev: Some(single), next: Some(single) })
            &&& after.dom() =~= set![single.id, joiner.id]
            &&& is_cycle(after, seq![single, joiner])
        }),
{
    reveal(is_cycle);
    let network = Map::<u64, NeighborsView>::empty().insert(single.id, NeighborsView::alone());
    let after = joined(network, joiner, single);
    let order = seq![single, joiner];
    assert(order[0] == single && order[1] == joiner);
    assert forall|id: u64| after.contains_key(id) implies exists|i: int|
        0 <= i < order.len() && (#[trigger] order[i]).id == id by {
        if id == single.id {
            assert(order[0].id == id);
        } else {
            assert(order[1].id == id);
        }
    }
}

/// A third node that joins a ring of two through `a` comes to stand between
/// `a` and `b`: the successors run from `a` to the newcomer, on to `b` and
/// back to `a`, and the predecessors run the other way.
pub proof fn lemma_third_node_joins(a: NodeView, b: NodeView, c: NodeView)
    requires
        a.id != b.id,
        a.id != c.id,
        b.id != c.id,
    ensures
        ({
            let network = Map::<u64, NeighborsView>::empty().insert(
                a.id,
                NeighborsView { prev: Some(b), next: Some(b) },
            ).insert(b.id, NeighborsView { prev: Some(a), next: Some(a) });
            let after = joined(network, c, a);
            &&& after[a.id] == (NeighborsView { prev: Some(b), next: Some(c) })
            &&& after[c.id] == (NeighborsView { prev: Some(a), next: Some(b) })
            &&& after[b.id] == (NeighborsView { prev: Some(c), next: Some(a) })
            &&& after.dom() =~= set![a.id, b.id, c.id]
            &&& is_cycle(after, seq![a, c, b])
        }),
{
    reveal(is_cycle);
    let network = Map::<u64, NeighborsView>::empty().insert(
        a.id,
        NeighborsView { prev: Some(b), next: Some(b) },
    ).insert(b.id, NeighborsView { prev: Some(a), next: Some(a) });
    let after = joined(network, c, a);
    let order = seq![a, c, b];
    assert(order[0] == a && order[1] == c && order[2] == b);
    assert forall|id: u64| after.contains_key(id) implies exists|i: int|
        0 <= i < order.len() && (#[trigger] order[i]).id == id by {
        if id == a.id {
            assert(order[0].id == id);
        } else if id == c.id {
            assert(order[1].id == id);
        } else {
            assert(order[2].id == id);
        }
    }
}

/// A join keeps the ring in one piece: if the ring is one cycle and a node
/// that is not yet on it joins through the member at place `at`, the ring is
/// one cycle again, with the newcomer right after that member.
pub proof fn lemma_join_keeps_cycle(
    network: Network,
    order: Seq<NodeView>,
    joiner: NodeView,
    at: int,
)
    requires
        is_cycle(network, order),
        0 <= at < order.len(),
        !network.contains_key(joiner.id),
    ensures
        is_cycle(joined(network, joiner, order[at]), order.insert(at + 1, joiner)),
{
    reveal(is_cycle);
    let n = order.len() as int;
    let rendezvous = order[at];
    let successor = order[place_after(at, n)];
    let after = joined(network, joiner, rendezvous);
    let longer = order.insert(at + 1, joiner);
    assert(network[rendezvous.id].next == Some(successor));
    assert(successor_choice(network[rendezvous.id], rendezvous) == successor);
    assert(longer.len() == n + 1);
    assert forall|i: int| 0 <= i < n + 1 implies (#[trigger] longer[i]) == (if i <= at {
        order[i]
    } else if i == at + 1 {
        joiner
    } else {
        order[i - 1]
    }) by {}
    assert forall|i: int| 0 <= i < n implies (#[trigger] order[i]).id != joiner.id by {
        assert(network.contains_key(order[i].id));
    }
    assert forall|i: int, j: int|
        0 <= i < longer.len() && 0 <= j < longer.len() && (#[trigger] longer[i]).id == (
        #[trigger] longer[j]).id implies i == j by {
        let from_i = if i <= at {
            i
        } else {
            i - 1
        };
        let from_j = if j <= at {
            j
        } else {
            j - 1
        };
        if i != at + 1 && j != at + 1 {
            assert(order[from_i].id == order[from_j].id);
        } else if i != at + 1 {
            assert(order[from_i].id != joiner.id);
        } else if j != at + 1 {
            assert(order[from_j].id != joiner.id);
        }
    }
    assert forall|id: u64| after.contains_key(id) <==> exists|i: int|
        0 <= i < longer.len() && (#[trigger] longer[i]).id == id by {
        if after.contains_key(id) {
            if id == joiner.id {
                assert(longer[at + 1].id == id);
            } else {
                assert(network.contains_key(id));
                let i = choose|i: int| 0 <= i < order.len() && (#[trigger] order[i]).id == id;
                if i <= at {
                    assert(longer[i].id == id);
                } else {
                    assert(longer[i + 1].id == id);
                }
            }
        }
        if exists|i: int| 0 <= i < longer.len() && (#[trigger] longer[i]).id == id {
            let i = choose|i: int| 0 <= i < longer.len() && (#[trigger] longer[i]).id == id;
            if i != at + 1 {
                let from = if i <= at {
                    i
                } else {
                    i - 1
                };
                assert(order[from].id == id);
                assert(network.contains_key(id));
            }
        }
    }
    assert forall|i: int| 0 <= i < longer.len() implies after[(#[trigger] longer[i]).id] == (
    NeighborsView {
        prev: Some(longer[place_before(i, longer.len() as int)]),
        next: Some(longer[place_after(i, longer.len() as int)]),
    }) by {
        if i != at + 1 {
            let from = if i <= at {
                i
            } else {
                i - 1
            };
            assert(longer[i] == order[from]);
            assert(order[from].id != joiner.id);
            assert(network[order[from].id] == (NeighborsView {
                prev: Some(order[place_before(from, n)]),
                next: Some(order[place_after(from, n)]),
            }));
            if from != at {
                assert(order[from].id != rendezvous.id);
            }
            if from != place_after(at, n) {
                assert(order[from].id != successor.id);
            }
        }
    }
}

/// The arcs of a ring that is walked in `order`: each node with the one
/// after it.
pub open spec fn ring_arcs(order: Seq<NodeView>) -> Arcs {
    Seq::new(order.len(), |i: int| (order[i].id, order[place_after(i, order.len() as int)].id))
}

/// A join through the owner of the newcomer's identifier keeps the ring in
/// order: if the ring is one cycle whose arcs divide the circle, and the
/// newcomer joins through the member that owns its identifier, the ring is
/// one cycle again and its arcs still divide the circle.
pub proof fn lemma_join_keeps_partition(
    network: Network,
    order: Seq<NodeView>,
    joiner: NodeView,
    at: int,
)
    requires
        is_cycle(network, order),
        is_consistent(ring_arcs(order)),
        0 <= at < order.len(),
        !network.contains_key(joiner.id),
        owns(order[at].id, order[place_after(at, order.len() as int)].id, joiner.id),
    ensures
        is_cycle(joined(network, joiner, order[at]), order.insert(at + 1, joiner)),
        is_consistent(ring_arcs(order.insert(at + 1, joiner))),
{
    lemma_join_keeps_cycle(network, order, joiner, at);
    let arcs = ring_arcs(order);
    assert forall|i: int| 0 <= i < arcs.len() implies (#[trigger] arcs[i]).0 != joiner.id by {
        reveal(is_cycle);
        assert(network.contains_key(order[i].id));
    }
    lemma_split_keeps_consistent(arcs, at, joiner.id);
    assert(ring_arcs(order.insert(at + 1, joiner)) =~= split(arcs, at, joiner.id));
}

} // verus!
