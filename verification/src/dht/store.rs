//! The key-value store of one node.

use std::collections::HashMap;
use vstd::prelude::*;
use vstd::std_specs::hash::spec_hash_map_iter;
use vstd::std_specs::iter::IteratorSpec;

verus! {

broadcast use vstd::std_specs::hash::group_hash_axioms;

/// A list of bindings.
pub type Pairs = Seq<(u64, Seq<u8>)>;

/// The keys of a list of bindings, in order.
pub open spec fn pair_keys(pairs: Pairs) -> Seq<u64> {
    pairs.map_values(|pair: (u64, Seq<u8>)| pair.0)
}

/// The list states every binding of `contents` once and nothing else.
pub open spec fn lists_exactly(pairs: Pairs, contents: Map<u64, Seq<u8>>) -> bool {
    &&& pair_keys(pairs).no_duplicates()
    &&& forall|i: int|
        0 <= i < pairs.len() ==> contents.contains_key(#[trigger] pairs[i].0)
            && contents[pairs[i].0] == pairs[i].1
    &&& forall|key: u64| #[trigger]
        contents.contains_key(key) ==> pair_keys(pairs).contains(key)
}

/// The bindings that a list of stored entries states.
pub open spec fn entry_pairs(entries: Seq<(u64, Vec<u8>)>) -> Pairs {
    entries.map_values(|entry: (u64, Vec<u8>)| (entry.0, entry.1@))
}

/// A map from hashed keys to values.
#[derive(Debug)]
pub struct Store {
    store: HashMap<u64, Vec<u8>>,
}

impl View for Store {
    type V = Map<u64, Seq<u8>>;

    closed spec fn view(&self) -> Map<u64, Seq<u8>> {
        self.store@.map_values(|value: Vec<u8>| value@)
    }
}

impl Store {
    pub fn new() -> (store: Self)
        ensures
            store@ == Map::<u64, Seq<u8>>::empty(),
    {
        let store = Store { store: HashMap::new() };
        assert(store@ =~= Map::<u64, Seq<u8>>::empty());
        store
    }

    /// The value bound to `key`, if any.
    pub fn get(&self, key: &u64) -> (value: Option<Vec<u8>>)
        ensures
            match value {
                Some(bytes) => self@.contains_key(*key) && self@[*key] == bytes@,
                None => !self@.contains_key(*key),
            },
    {
        match self.store.get(key) {
            Some(bytes) => Some(bytes.clone()),
            None => None,
        }
    }

    /// Binds `key` to `value` and returns the value bound before.
    pub fn set(&mut self, key: &u64, value: &[u8]) -> (previous: Option<Vec<u8>>)
        ensures
            final(self)@ == old(self)@.insert(*key, value@),
            match previous {
                Some(bytes) => old(self)@.contains_key(*key) && old(self)@[*key] == bytes@,
                None => !old(self)@.contains_key(*key),
            },
    {
        let bytes = vstd::slice::slice_to_vec(value);
        let previous = self.store.insert(*key, bytes);
        assert(self@ =~= old(self)@.insert(*key, value@));
        previous
    }

    /// Removes the binding of `key` and returns the value it had.
    pub fn delete(&mut self, key: &u64) -> (previous: Option<Vec<u8>>)
        ensures
            final(self)@ == old(self)@.remove(*key),
            match previous {
                Some(bytes) => old(self)@.contains_key(*key) && old(self)@[*key] == bytes@,
                None => !old(self)@.contains_key(*key),
            },
    {
        let previous = self.store.remove(key);
        assert(self@ =~= old(self)@.remove(*key));
        previous
    }

    /// Every binding, in no particular order.
    pub fn list(&self) -> (entries: Vec<(u64, Vec<u8>)>)
        ensures
            lists_exactly(entry_pairs(entries@), self@),
    {
        let mut entries: Vec<(u64, Vec<u8>)> = Vec::new();
        for pair in it: self.store.iter()
            invariant
                it.seq() == spec_hash_map_iter(&self.store).remaining(),
                it.seq().no_duplicates(),
                entries@.len() == it.index(),
                forall|i: int|
                    0 <= i < entries@.len() ==> entries@[i].0 == *it.seq()[i].0
                        && entries@[i].1@ == (*it.seq()[i].1)@,
        {
            let (key, value) = pair;
            entries.push((*key, value.clone()));
        }
        proof {
            let walked = spec_hash_map_iter(&self.store).remaining();
            let keys = pair_keys(entry_pairs(entries@));
            assert forall|i: int, j: int|
                0 <= i < keys.len() && 0 <= j < keys.len() && i != j implies keys[i] != keys[j] by {
                if keys[i] == keys[j] {
                    assert(self.store@[*walked[i].0] == *walked[i].1);
                    assert(self.store@[*walked[j].0] == *walked[j].1);
                    assert(walked[i] == walked[j]);
                }
            }
            let pairs = entry_pairs(entries@);
            assert forall|i: int| 0 <= i < pairs.len() implies self@.contains_key(
                #[trigger] pairs[i].0,
            ) && self@[pairs[i].0] == pairs[i].1 by {
                assert(self.store@.contains_key(*walked[i].0));
                assert(self.store@[*walked[i].0] == *walked[i].1);
            }
            assert forall|key: u64| #[trigger] self@.contains_key(key) implies keys.contains(
                key,
            ) by {
                assert(self.store@.contains_key(key));
                let pair = (&key, &self.store@[key]);
                assert(walked.contains(pair));
                let i = choose|i: int| 0 <= i < walked.len() && walked[i] == pair;
                assert(keys[i] == key);
            }
        }
        entries
    }

    /// The bindings whose key `f` accepts, in no particular order.
    pub fn get_entries_satisfy<F>(&self, f: F) -> (entries: Vec<(u64, Vec<u8>)>) where
        F: Fn(u64) -> bool,

        requires
            forall|key: u64| self@.contains_key(key) ==> #[trigger] f.requires((key,)),
        ensures
            pair_keys(entry_pairs(entries@)).no_duplicates(),
            forall|i: int|
                0 <= i < entries@.len() ==> self@.contains_key(#[trigger] entries@[i].0)
                    && self@[entries@[i].0] == entries@[i].1@ && f.ensures(
                    (entries@[i].0,),
                    true,
                ),
            forall|key: u64| #[trigger]
                self@.contains_key(key) ==> pair_keys(entry_pairs(entries@)).contains(key)
                    || f.ensures((key,), false),
    {
        let mut entries: Vec<(u64, Vec<u8>)> = Vec::new();
        let ghost mut picked: Seq<int> = Seq::empty();
        for pair in it: self.store.iter()
            invariant
                it.seq() == spec_hash_map_iter(&self.store).remaining(),
                it.seq().no_duplicates(),
                forall|key: u64| self@.contains_key(key) ==> #[trigger] f.requires((key,)),
                picked.len() == entries@.len(),
                forall|j: int| 0 <= j < picked.len() ==> 0 <= #[trigger] picked[j] < it.index(),
                forall|j: int, k: int| 0 <= j < k < picked.len() ==> picked[j] < picked[k],
                forall|j: int|
                    0 <= j < entries@.len() ==> (#[trigger] entries@[j]).0 == *it.seq()[picked[j]].0
                        && entries@[j].1@ == (*it.seq()[picked[j]].1)@ && f.ensures(
                        (entries@[j].0,),
                        true,
                    ),
                forall|i: int|
                    0 <= i < it.index() ==> picked.contains(i) || f.ensures(
                        (*(#[trigger] it.seq()[i]).0,),
                        false,
                    ),
        {
            let (key, value) = pair;
            proof {
                let walked = it.seq();
                let at = it.index();
                assert(walked[at] == pair);
                assert(self.store@.contains_key(*walked[at].0));
                assert(self@.contains_key(*key));
            }
            if f(*key) {
                entries.push((*key, value.clone()));
                proof {
                    let ghost before = picked;
                    picked = picked.push(it.index());
                    assert forall|i: int| 0 <= i <= it.index() implies picked.contains(i)
                        || f.ensures((*(#[trigger] it.seq()[i]).0,), false) by {
                        if i == it.index() {
                            assert(picked[picked.len() - 1] == i);
                        } else if before.contains(i) {
                            let j = choose|j: int| 0 <= j < before.len() && before[j] == i;
                            assert(picked[j] == i);
                        }
                    }
                }
            }
        }
        proof {
            let walked = spec_hash_map_iter(&self.store).remaining();
            let keys = pair_keys(entry_pairs(entries@));
            assert forall|i: int, j: int|
                0 <= i < keys.len() && 0 <= j < keys.len() && i != j implies keys[i] != keys[j] by {
                let a = picked[i];
                let b = picked[j];
                assert(entries@[i].0 == *walked[a].0);
                assert(entries@[j].0 == *walked[b].0);
                assert(a != b) by {
                    if i < j {
                        assert(picked[i] < picked[j]);
                    } else {
                        assert(picked[j] < picked[i]);
                    }
                }
                if keys[i] == keys[j] {
                    assert(self.store@[*walked[a].0] == *walked[a].1);
                    assert(self.store@[*walked[b].0] == *walked[b].1);
                    assert(walked[a] == walked[b]);
                }
            }
            assert forall|i: int| 0 <= i < entries@.len() implies self@.contains_key(
                #[trigger] entries@[i].0,
            ) && self@[entries@[i].0] == entries@[i].1@ && f.ensures((entries@[i].0,), true) by {
                let a = picked[i];
                assert(entries@[i].0 == *walked[a].0);
                assert(self.store@.contains_key(*walked[a].0));
                assert(self.store@[*walked[a].0] == *walked[a].1);
            }
            assert forall|key: u64| #[trigger] self@.contains_key(key) implies keys.contains(key)
                || f.ensures((key,), false) by {
                assert(self.store@.contains_key(key));
                let pair = (&key, &self.store@[key]);
                assert(walked.contains(pair));
                let i = choose|i: int| 0 <= i < walked.len() && walked[i] == pair;
                if picked.contains(i) {
                    let j = choose|j: int| 0 <= j < picked.len() && picked[j] == i;
                    assert(entries@[j].0 == *walked[picked[j]].0);
                    assert(keys[j] == key);
                } else {
                    assert(f.ensures((*walked[i].0,), false));
                }
            }
        }
        entries
    }
}

} // verus!
