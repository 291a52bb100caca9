//! How the arcs of a ring divide the identifier circle among its members.

use crate::{ccw_distance, owns, ring_size};
use vstd::prelude::*;

verus! {

/// The members of a ring, each with its successor: `(id, next_id)`.
pub type Arcs = Seq<(u64, u64)>;

/// `id` is the identifier of a member.
pub open spec fn is_member(arcs: Arcs, id: u64) -> bool {
    exists|j: int| 0 <= j < arcs.len() && (#[trigger] arcs[j]).0 == id
}

/// The pairs form one cycle round the whole circle: there are at least two
/// members, each has a successor other than itself that is a member too, and
/// no member lies on the arc of another.
#[verifier::opaque]
pub open spec fn is_consistent(arcs: Arcs) -> bool {
    &&& arcs.len() >= 2
    &&& forall|i: int| 0 <= i < arcs.len() ==> (#[trigger] arcs[i]).0 != arcs[i].1
    &&& forall|i: int| 0 <= i < arcs.len() ==> #[trigger] is_member(arcs, arcs[i].1)
    &&& forall|i: int, j: int|
        0 <= i < arcs.len() && 0 <= j < arcs.len() && #[trigger] owns(
            arcs[i].0,
            arcs[i].1,
            arcs[j].0,
        ) ==> i == j
}

/// The number of keys on the arc from `id` to `next_id`.
pub open spec fn arc_length(id: u64, next_id: u64) -> int {
    ccw_distance(next_id, id)
}

/// The number of keys on all the arcs together.
pub open spec fn total_arc_length(arcs: Arcs) -> int
    decreases arcs.len(),
{
    if arcs.len() == 0 {
        0
    } else {
        total_arc_length(arcs.drop_last()) + arc_length(arcs.last().0, arcs.last().1)
    }
}

/// The number of keys below `bound` on the arc from `id` to `next_id`.
pub open spec fn covered_below(id: u64, next_id: u64, bound: int) -> int {
    if id < next_id {
        if bound <= id {
            0
        } else if bound <= next_id {
            bound - id
        } else {
            next_id - id
        }
    } else if id > next_id {
        (if bound <= next_id {
            bound
        } else {
            next_id as int
        }) + (if bound <= id {
            0
        } else {
            bound - id
        })
    } else {
        0
    }
}

/// The number of keys below `bound` on all the arcs together, each counted
/// as often as it is owned.
pub open spec fn total_covered_below(arcs: Arcs, bound: int) -> int
    decreases arcs.len(),
{
    if arcs.len() == 0 {
        0
    } else {
        total_covered_below(arcs.drop_last(), bound) + covered_below(
            arcs.last().0,
            arcs.last().1,
            bound,
        )
    }
}

/// The number of members that own `key`.
pub open spec fn owner_count(arcs: Arcs, key: u64) -> int
    decreases arcs.len(),
{
    if arcs.len() == 0 {
        0
    } else {
        owner_count(arcs.drop_last(), key) + if owns(arcs.last().0, arcs.last().1, key) {
            1int
        } else {
            0int
        }
    }
}

/// An arc that wraps round the top of the circle holds the keys from its
/// start upward and the keys below its end, and no others.
pub proof fn lemma_wraparound(id: u64, next_id: u64, key: u64)
    requires
        id > next_id,
    ensures
        owns(id, next_id, key) <==> key >= id || key < next_id,
{
}

/// An arc holds a key exactly if the way backward from the key to the start
/// of the arc is shorter than the arc.
pub proof fn lemma_owns_by_distance(id: u64, next_id: u64, key: u64)
    ensures
        owns(id, next_id, key) <==> ccw_distance(key, id) < arc_length(id, next_id),
{
}

/// Among the first `n` members, one whose start is nearest walking backward
/// from `key`.
proof fn lemma_nearest_member(arcs: Arcs, key: u64, n: int) -> (at: int)
    requires
        1 <= n <= arcs.len(),
    ensures
        0 <= at < n,
        forall|j: int|
            0 <= j < n ==> ccw_distance(key, arcs[at].0) <= ccw_distance(
                key,
                (#[trigger] arcs[j]).0,
            ),
    decreases n,
{
    if n == 1 {
        0
    } else {
        let before = lemma_nearest_member(arcs, key, n - 1);
        if ccw_distance(key, arcs[n - 1].0) < ccw_distance(key, arcs[before].0) {
            n - 1
        } else {
            before
        }
    }
}

/// In a consistent ring the member whose start is nearest walking backward
/// from a key owns that key.
pub proof fn lemma_nearest_owns(arcs: Arcs, key: u64, at: int)
    requires
        is_consistent(arcs),
        0 <= at < arcs.len(),
        forall|j: int|
            0 <= j < arcs.len() ==> ccw_distance(key, arcs[at].0) <= ccw_distance(
                key,
                (#[trigger] arcs[j]).0,
            ),
    ensures
        owns(arcs[at].0, arcs[at].1, key),
{
    reveal(is_consistent);
    let id = arcs[at].0;
    let next_id = arcs[at].1;
    if !owns(id, next_id, key) {
        assert(is_member(arcs, arcs[at].1));
        let successor = choose|j: int| 0 <= j < arcs.len() && (#[trigger] arcs[j]).0 == next_id;
        assert(ccw_distance(key, arcs[successor].0) < ccw_distance(key, id));
        assert(false);
    }
}

/// In a consistent ring every key has an owner.
pub proof fn lemma_some_owner(arcs: Arcs, key: u64) -> (at: int)
    requires
        is_consistent(arcs),
    ensures
        0 <= at < arcs.len(),
        owns(arcs[at].0, arcs[at].1, key),
{
    assert(arcs.len() >= 2) by {
        reveal(is_consistent);
    }
    let at = lemma_nearest_member(arcs, key, arcs.len() as int);
    lemma_nearest_owns(arcs, key, at);
    at
}

/// In a consistent ring no key has two owners.
pub proof fn lemma_one_owner(arcs: Arcs, key: u64, i: int, j: int)
    requires
        is_consistent(arcs),
        0 <= i < arcs.len(),
        0 <= j < arcs.len(),
        owns(arcs[i].0, arcs[i].1, key),
        owns(arcs[j].0, arcs[j].1, key),
    ensures
        i == j,
{
    reveal(is_consistent);
    if ccw_distance(key, arcs[j].0) <= ccw_distance(key, arcs[i].0) {
        assert(owns(arcs[i].0, arcs[i].1, arcs[j].0));
    } else {
        assert(owns(arcs[j].0, arcs[j].1, arcs[i].0));
    }
}

/// The partition of the circle: in a consistent ring, every key is owned by
/// exactly one member.
pub proof fn lemma_exactly_one_owner(arcs: Arcs, key: u64)
    requires
        is_consistent(arcs),
    ensures
        exists|i: int| 0 <= i < arcs.len() && owns((#[trigger] arcs[i]).0, arcs[i].1, key),
        forall|i: int, j: int|
            0 <= i < arcs.len() && 0 <= j < arcs.len() && owns(
                (#[trigger] arcs[i]).0,
                arcs[i].1,
                key,
            ) && owns((#[trigger] arcs[j]).0, arcs[j].1, key) ==> i == j,
{
    let at = lemma_some_owner(arcs, key);
    assert(owns(arcs[at].0, arcs[at].1, key));
    assert forall|i: int, j: int|
        0 <= i < arcs.len() && 0 <= j < arcs.len() && owns(
            (#[trigger] arcs[i]).0,
            arcs[i].1,
            key,
        ) && owns((#[trigger] arcs[j]).0, arcs[j].1, key) implies i == j by {
        lemma_one_owner(arcs, key, i, j);
    }
}

/// The owners of `key` among the first `n` members number one if `owner` is
/// among them and none if it is not, `owner` being the only owner there is.
proof fn lemma_count_prefix(arcs: Arcs, key: u64, owner: int, n: int)
    requires
        0 <= n <= arcs.len(),
        0 <= owner < arcs.len(),
        forall|i: int|
            0 <= i < arcs.len() ==> (owns((#[trigger] arcs[i]).0, arcs[i].1, key) <==> i == owner),
    ensures
        owner_count(arcs.subrange(0, n), key) == if owner < n {
            1int
        } else {
            0int
        },
    decreases n,
{
    let prefix = arcs.subrange(0, n);
    if n > 0 {
        lemma_count_prefix(arcs, key, owner, n - 1);
        assert(prefix.drop_last() =~= arcs.subrange(0, n - 1));
        assert(prefix.last() == arcs[n - 1]);
    }
}

/// In a consistent ring the owners of a key number one.
pub proof fn lemma_owner_count(arcs: Arcs, key: u64)
    requires
        is_consistent(arcs),
    ensures
        owner_count(arcs, key) == 1,
{
    let owner = lemma_some_owner(arcs, key);
    assert forall|i: int| 0 <= i < arcs.len() implies (owns(
        (#[trigger] arcs[i]).0,
        arcs[i].1,
        key,
    ) <==> i == owner) by {
        if owns(arcs[i].0, arcs[i].1, key) {
            lemma_one_owner(arcs, key, i, owner);
        }
    }
    lemma_count_prefix(arcs, key, owner, arcs.len() as int);
    assert(arcs.subrange(0, arcs.len() as int) =~= arcs);
}

/// Raising the bound by one key adds as many covered keys as that key has
/// owners.
proof fn lemma_cover_step(arcs: Arcs, key: u64)
    ensures
        total_covered_below(arcs, key + 1) == total_covered_below(arcs, key as int) + owner_count(
            arcs,
            key,
        ),
    decreases arcs.len(),
{
    if arcs.len() > 0 {
        lemma_cover_step(arcs.drop_last(), key);
    }
}

/// In a consistent ring the keys below a bound are covered once each.
proof fn lemma_cover_below(arcs: Arcs, bound: int)
    requires
        is_consistent(arcs),
        0 <= bound <= ring_size(),
    ensures
        total_covered_below(arcs, bound) == bound,
    decreases bound,
{
    if bound == 0 {
        lemma_cover_nothing(arcs);
    } else {
        let key = (bound - 1) as u64;
        lemma_cover_below(arcs, bound - 1);
        lemma_cover_step(arcs, key);
        lemma_owner_count(arcs, key);
    }
}

/// Below zero no key is covered.
proof fn lemma_cover_nothing(arcs: Arcs)
    ensures
        total_covered_below(arcs, 0) == 0,
    decreases arcs.len(),
{
    if arcs.len() > 0 {
        lemma_cover_nothing(arcs.drop_last());
    }
}

/// Below the size of the circle each arc covers its whole length.
proof fn lemma_cover_all(arcs: Arcs)
    ensures
        total_covered_below(arcs, ring_size()) == total_arc_length(arcs),
    decreases arcs.len(),
{
    if arcs.len() > 0 {
        lemma_cover_all(arcs.drop_last());
    }
}

/// In a consistent ring the arcs of the members add up to the whole circle.
pub proof fn lemma_arcs_cover_ring(arcs: Arcs)
    requires
        is_consistent(arcs),
    ensures
        total_arc_length(arcs) == ring_size(),
{
    lemma_cover_below(arcs, ring_size());
    lemma_cover_all(arcs);
}

/// Two members that are each other's successor form a consistent ring.
pub proof fn lemma_pair_is_consistent(a: u64, b: u64)
    requires
        a != b,
    ensures
        is_consistent(seq![(a, b), (b, a)]),
{
    reveal(is_consistent);
    let arcs = seq![(a, b), (b, a)];
    assert(arcs[0] == (a, b) && arcs[1] == (b, a));
    assert forall|i: int| 0 <= i < arcs.len() implies #[trigger] is_member(arcs, arcs[i].1) by {
        if i == 0 {
            assert(arcs[1].0 == arcs[0].1);
        } else {
            assert(arcs[0].0 == arcs[1].1);
        }
    }
}

/// The arcs after a newcomer `id` has taken its place behind the member at
/// `at`: that member's arc ends at the newcomer, whose own arc runs on to
/// the member's former successor.
pub open spec fn split(arcs: Arcs, at: int, id: u64) -> Arcs {
    arcs.update(at, (arcs[at].0, id)).insert(at + 1, (id, arcs[at].1))
}

/// What stands at each place of the arcs after a split.
proof fn lemma_split_places(arcs: Arcs, at: int, id: u64, i: int)
    requires
        0 <= at < arcs.len(),
        0 <= i <= arcs.len(),
    ensures
        split(arcs, at, id).len() == arcs.len() + 1,
        split(arcs, at, id)[i] == (if i < at {
            arcs[i]
        } else if i == at {
            (arcs[at].0, id)
        } else if i == at + 1 {
            (id, arcs[at].1)
        } else {
            arcs[i - 1]
        }),
{
}

/// In a consistent ring a member is not its own successor, and its
/// successor is a member.
proof fn lemma_successor_is_member(arcs: Arcs, i: int) -> (j: int)
    requires
        is_consistent(arcs),
        0 <= i < arcs.len(),
    ensures
        arcs[i].0 != arcs[i].1,
        0 <= j < arcs.len(),
        arcs[j].0 == arcs[i].1,
{
    reveal(is_consistent);
    assert(is_member(arcs, arcs[i].1));
    choose|j: int| 0 <= j < arcs.len() && (#[trigger] arcs[j]).0 == arcs[i].1
}

/// In a consistent ring no member lies on the arc of another.
proof fn lemma_arcs_apart(arcs: Arcs, i: int, j: int)
    requires
        is_consistent(arcs),
        0 <= i < arcs.len(),
        0 <= j < arcs.len(),
        owns(arcs[i].0, arcs[i].1, arcs[j].0),
    ensures
        i == j,
{
    reveal(is_consistent);
}

/// The parts of consistency, put together.
proof fn lemma_consistent_by_parts(arcs: Arcs)
    requires
        arcs.len() >= 2,
        forall|i: int| 0 <= i < arcs.len() ==> (#[trigger] arcs[i]).0 != arcs[i].1,
        forall|i: int| 0 <= i < arcs.len() ==> #[trigger] is_member(arcs, arcs[i].1),
        forall|i: int, j: int|
            0 <= i < arcs.len() && 0 <= j < arcs.len() && #[trigger] owns(
                arcs[i].0,
                arcs[i].1,
                arcs[j].0,
            ) ==> i == j,
    ensures
        is_consistent(arcs),
{
    reveal(is_consistent);
}

/// After a split each member has a successor other than itself that is a
/// member.
proof fn lemma_split_successor(arcs: Arcs, at: int, id: u64, i: int) -> (j: int)
    requires
        is_consistent(arcs),
        0 <= at < arcs.len(),
        owns(arcs[at].0, arcs[at].1, id),
        forall|k: int| 0 <= k < arcs.len() ==> (#[trigger] arcs[k]).0 != id,
        0 <= i <= arcs.len(),
    ensures
        split(arcs, at, id)[i].0 != split(arcs, at, id)[i].1,
        0 <= j <= arcs.len(),
        split(arcs, at, id)[j].0 == split(arcs, at, id)[i].1,
{
    lemma_split_places(arcs, at, id, i);
    if i == at {
        lemma_split_places(arcs, at, id, at + 1);
        at + 1
    } else {
        let from = if i < at {
            i
        } else {
            i - 1
        };
        let j = lemma_successor_is_member(arcs, from);
        let place = if j <= at {
            j
        } else {
            j + 1
        };
        lemma_split_places(arcs, at, id, place);
        place
    }
}

/// After a split no member lies on the arc of another.
proof fn lemma_split_apart(arcs: Arcs, at: int, id: u64, i: int, j: int)
    requires
        is_consistent(arcs),
        0 <= at < arcs.len(),
        owns(arcs[at].0, arcs[at].1, id),
        forall|k: int| 0 <= k < arcs.len() ==> (#[trigger] arcs[k]).0 != id,
        0 <= i <= arcs.len(),
        0 <= j <= arcs.len(),
        owns(split(arcs, at, id)[i].0, split(arcs, at, id)[i].1, split(arcs, at, id)[j].0),
    ensures
        i == j,
{
    lemma_split_places(arcs, at, id, i);
    lemma_split_places(arcs, at, id, j);
    let start = arcs[at].0;
    let end = arcs[at].1;
    assert(arcs[at].0 != id);
    let arc_from = if i <= at {
        i
    } else {
        i - 1
    };
    let member_from = if j <= at {
        j
    } else {
        j - 1
    };
    if j == at + 1 {
        if i != at && i != at + 1 {
            lemma_one_owner(arcs, id, arc_from, at);
        }
    } else {
        assert(arcs[member_from].0 != id);
        if i == at || i == at + 1 {
            assert(owns(start, end, arcs[member_from].0));
            lemma_arcs_apart(arcs, at, member_from);
        } else {
            lemma_arcs_apart(arcs, arc_from, member_from);
        }
    }
}

/// A newcomer that takes its place behind the owner of its own identifier
/// leaves the ring consistent.
pub proof fn lemma_split_keeps_consistent(arcs: Arcs, at: int, id: u64)
    requires
        is_consistent(arcs),
        0 <= at < arcs.len(),
        owns(arcs[at].0, arcs[at].1, id),
        forall|i: int| 0 <= i < arcs.len() ==> (#[trigger] arcs[i]).0 != id,
    ensures
        is_consistent(split(arcs, at, id)),
{
    let after = split(arcs, at, id);
    lemma_split_places(arcs, at, id, 0);
    assert forall|i: int| 0 <= i < after.len() implies (#[trigger] after[i]).0 != after[i].1 by {
        lemma_split_successor(arcs, at, id, i);
    }
    assert forall|i: int| 0 <= i < after.len() implies #[trigger] is_member(
        after,
        after[i].1,
    ) by {
        let j = lemma_split_successor(arcs, at, id, i);
        assert(after[j].0 == after[i].1);
    }
    assert forall|i: int, j: int|
        0 <= i < after.len() && 0 <= j < after.len() && #[trigger] owns(
            after[i].0,
            after[i].1,
            after[j].0,
        ) implies i == j by {
        lemma_split_apart(arcs, at, id, i, j);
    }
    lemma_consistent_by_parts(after);
}

} // verus!
