//! What a key handoff does to the stores of the two nodes.

use crate::dht::service::{absorbed, kept_contents, moved_contents};
use crate::dht::store::{lists_exactly, pair_keys, Pairs};
use crate::owns;
use vstd::prelude::*;

verus! {

/// A handoff loses and doubles nothing: what the sender keeps and what it
/// hands over have no key in common, and together they are what it held.
pub proof fn lemma_handoff_conserves(contents: Map<u64, Seq<u8>>, id: u64, target: u64)
    ensures
        kept_contents(contents, id, target).dom().disjoint(
            moved_contents(contents, id, target).dom(),
        ),
        kept_contents(contents, id, target).dom().union(
            moved_contents(contents, id, target).dom(),
        ) == contents.dom(),
        kept_contents(contents, id, target).union_prefer_right(
            moved_contents(contents, id, target),
        ) == contents,
        forall|key: u64| #[trigger]
            contents.contains_key(key) ==> (kept_contents(contents, id, target).contains_key(key)
                <==> owns(id, target, key)) && (moved_contents(contents, id, target).contains_key(
                key,
            ) <==> !owns(id, target, key)),
{
    let kept = kept_contents(contents, id, target);
    let moved = moved_contents(contents, id, target);
    assert(kept.dom().union(moved.dom()) =~= contents.dom());
    assert(kept.union_prefer_right(moved) =~= contents);
}

/// A store that takes in a list in which no key occurs twice holds what it
/// held before, overlaid with what the list states.
pub proof fn lemma_absorbed_listing(
    before: Map<u64, Seq<u8>>,
    pairs: Pairs,
    listed: Map<u64, Seq<u8>>,
)
    requires
        lists_exactly(pairs, listed),
    ensures
        absorbed(before, pairs) == before.union_prefer_right(listed),
    decreases pairs.len(),
{
    if pairs.len() == 0 {
        assert forall|key: u64| !listed.contains_key(key) by {
            if listed.contains_key(key) {
                assert(pair_keys(pairs).contains(key));
            }
        }
        assert(before.union_prefer_right(listed) =~= before);
    } else {
        let last = pairs.last();
        let shorter = pairs.drop_last();
        let fewer = listed.remove(last.0);
        assert(pair_keys(shorter) =~= pair_keys(pairs).drop_last());
        assert(pair_keys(pairs)[pairs.len() - 1] == last.0);
        assert forall|i: int| 0 <= i < shorter.len() implies fewer.contains_key(
            #[trigger] shorter[i].0,
        ) && fewer[shorter[i].0] == shorter[i].1 by {
            assert(shorter[i] == pairs[i]);
            assert(pair_keys(pairs)[i] == pairs[i].0);
            assert(listed.contains_key(pairs[i].0));
        }
        assert forall|key: u64| #[trigger] fewer.contains_key(key) implies pair_keys(
            shorter,
        ).contains(key) by {
            assert(listed.contains_key(key));
            let i = choose|i: int| 0 <= i < pairs.len() && pair_keys(pairs)[i] == key;
            assert(i < pairs.len() - 1);
            assert(pair_keys(shorter)[i] == key);
        }
        lemma_absorbed_listing(before, shorter, fewer);
        assert(listed.contains_key(pairs[pairs.len() - 1].0));
        assert(before.union_prefer_right(fewer).insert(last.0, last.1)
            =~= before.union_prefer_right(listed));
    }
}

/// After a handoff into an empty store every binding that the sender held
/// stands in exactly one of the two stores: the sender holds what it keeps,
/// the receiver what was handed over.
pub proof fn lemma_handoff_delivers(
    contents: Map<u64, Seq<u8>>,
    id: u64,
    target: u64,
    pairs: Pairs,
)
    requires
        lists_exactly(pairs, moved_contents(contents, id, target)),
    ensures
        ({
            let sender = kept_contents(contents, id, target);
            let receiver = absorbed(Map::<u64, Seq<u8>>::empty(), pairs);
            &&& receiver == moved_contents(contents, id, target)
            &&& sender.dom().disjoint(receiver.dom())
            &&& sender.dom().union(receiver.dom()) == contents.dom()
            &&& forall|key: u64| #[trigger]
                contents.contains_key(key) ==> if sender.contains_key(key) {
                    sender[key] == contents[key]
                } else {
                    receiver.contains_key(key) && receiver[key] == contents[key]
                }
        }),
{
    let moved = moved_contents(contents, id, target);
    lemma_absorbed_listing(Map::<u64, Seq<u8>>::empty(), pairs, moved);
    assert(Map::<u64, Seq<u8>>::empty().union_prefer_right(moved) =~= moved);
    lemma_handoff_conserves(contents, id, target);
}

/// A second handoff to the same successor moves nothing.
pub proof fn lemma_handoff_idempotent(contents: Map<u64, Seq<u8>>, id: u64, target: u64)
    ensures
        kept_contents(kept_contents(contents, id, target), id, target) == kept_contents(
            contents,
            id,
            target,
        ),
        moved_contents(kept_contents(contents, id, target), id, target) == Map::<
            u64,
            Seq<u8>,
        >::empty(),
{
    let kept = kept_contents(contents, id, target);
    assert(kept_contents(kept, id, target) =~= kept);
    assert(moved_contents(kept, id, target) =~= Map::<u64, Seq<u8>>::empty());
}

/// A handoff puts every key with its new owner: a key of the arc that the
/// newcomer has split lies on the sender's shortened arc, and is kept, or on
/// the newcomer's arc, and is moved, and never on both.
pub proof fn lemma_handoff_follows_ownership(id: u64, joiner: u64, next_id: u64, key: u64)
    requires
        owns(id, next_id, joiner),
        joiner != id,
        owns(id, next_id, key),
    ensures
        owns(id, joiner, key) != owns(joiner, next_id, key),
{
}

/// The first handoff of a node that was alone, and so answered for every
/// key, divides the keys between the two: each key lies on the arc from the
/// node to the newcomer, and is kept, or on the arc from the newcomer back
/// to the node, and is moved.
pub proof fn lemma_first_handoff_follows_ownership(id: u64, joiner: u64, key: u64)
    requires
        joiner != id,
    ensures
        owns(id, joiner, key) != owns(joiner, id, key),
{
}

} // verus!
