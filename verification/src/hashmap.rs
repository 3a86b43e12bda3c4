//! Collecting into a `HashMap`.
use crate::collection::Collection;
use crate::grouping::{group_with, groups_by_key};
use crate::{default_has_no_groups, Aggregate};
use std::collections::hash_map::Entry;
use std::collections::HashMap;
use std::hash::{BuildHasher, Hash};
use vstd::prelude::*;
use vstd::std_specs::hash::{builds_valid_hashers, obeys_key_model};

verus! {

/// A `HashMap` from keys to collections groups values by key. Its keys come out in no
/// particular order.
impl<K, V, C, S> Aggregate<K, V> for HashMap<K, C, S> where
    K: Eq + Hash,
    C: Collection<V>,
    S: BuildHasher,
 {
    type Groups = Map<K, C::Items>;

    /// The map follows the model if its keys hash and compare as the model of
    /// `HashMap` assumes, and if the collections follow theirs.
    open spec fn obeys_aggregate_model() -> bool {
        obeys_key_model::<K>() && builds_valid_hashers::<S>() && C::obeys_collection_model()
    }

    /// Under each key of the map, the model of the collection that the map holds there.
    open spec fn groups(&self) -> Map<K, C::Items> {
        self@.map_values(|c: C| c.items())
    }

    open spec fn no_groups() -> Map<K, C::Items> {
        Map::empty()
    }

    open spec fn groups_with(groups: Map<K, C::Items>, key: K, value: V) -> Map<K, C::Items> {
        group_with::<K, V, C>(groups, key, value)
    }

    /// Adds `value` to the collection under `key`, which is created empty if the map
    /// has none. The collections under the other keys stay as they are.
    fn insert(&mut self, key: K, value: V)
        ensures
            obeys_key_model::<K>() && builds_valid_hashers::<S>() ==> {
                &&& final(self)@.dom() == old(self)@.dom().insert(key)
                &&& final(self)@.remove(key) == old(self)@.remove(key)
                &&& C::obeys_collection_model() ==> final(self)@[key].items() == C::items_with(
                    if old(self)@.contains_key(key) {
                        old(self)@[key].items()
                    } else {
                        C::no_items()
                    },
                    value,
                )
            },
    {
        match self.entry(key) {
            Entry::Occupied(occupied) => {
                occupied.into_mut().add_item(value);
            },
            Entry::Vacant(vacant) => {
                vacant.insert(C::empty()).add_item(value);
            },
        }
        proof {
            if Self::obeys_aggregate_model() {
                assert(self.groups() =~= Self::groups_with(old(self).groups(), key, value));
            }
        }
    }
}

/// A `HashMap` is among the maps that keep one collection per key.
pub proof fn lemma_hash_map_groups_by_key<K, V, C, S>() where
    K: Eq + Hash,
    C: Collection<V>,
    S: BuildHasher,

    ensures
        groups_by_key::<HashMap<K, C, S>, K, V, C>(),
{
}

/// A default `HashMap` is one into which nothing has been inserted.
pub proof fn lemma_hash_map_default<K, V, C, S>() where
    K: Eq + Hash,
    C: Collection<V>,
    S: BuildHasher + Default,

    ensures
        default_has_no_groups::<HashMap<K, C, S>, K, V>(),
{
    assert forall|fresh: HashMap<K, C, S>|
        call_ensures(HashMap::<K, C, S>::default, (), fresh) implies #[trigger]
        Aggregate::<K, V>::groups(&fresh) == Map::<K, C::Items>::empty() by {
        assert(fresh@ == Map::<K, C>::empty());
        assert(Aggregate::<K, V>::groups(&fresh) =~= Map::<K, C::Items>::empty());
    }
}

/// A `HashMap` without groups is a map without keys.
pub proof fn lemma_hash_map_without_groups<K, V, C, S>(map: HashMap<K, C, S>) where
    K: Eq + Hash,
    C: Collection<V>,
    S: BuildHasher,

    requires
        Aggregate::<K, V>::groups(&map) == Map::<K, C::Items>::empty(),
    ensures
        map@ == Map::<K, C>::empty(),
        map@.len() == 0,
{
    assert forall|key: K| !map@.dom().contains(key) by {
        assert(!Aggregate::<K, V>::groups(&map).dom().contains(key));
    }
    assert(map@ =~= Map::<K, C>::empty());
}

} // verus!
