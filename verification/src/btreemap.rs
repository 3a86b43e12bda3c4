//! Collecting into a `BTreeMap`.
use crate::collection::Collection;
use crate::grouping::{group_with, groups_by_key};
use crate::{default_has_no_groups, Aggregate};
use std::collections::BTreeMap;
use std::hash::Hash;
use vstd::laws_cmp::obeys_cmp;
use vstd::prelude::*;

verus! {

/// A `BTreeMap` from keys to collections groups values by key. Its keys come out in
/// ascending order.
impl<K, V, C> Aggregate<K, V> for BTreeMap<K, C> where K: Eq + Ord + Hash, C: Collection<V> {
    type Groups = Map<K, C::Items>;

    /// The map follows the model if its keys are ordered as the model of `BTreeMap`
    /// assumes, and if the collections follow theirs.
    open spec fn obeys_aggregate_model() -> bool {
        obeys_cmp::<K>() && C::obeys_collection_model()
    }

    /// Under each key of the map, the model of the collection that the map holds there.
    open spec fn groups(&self) -> Map<K, C::Items> {
        self@.map_values(|c: C| c.items())
    }

    open spec fn no_groups() -> Map<K, C::Items> {
        Map::empty()
    }

    open spec fn groups_with(groups: Map<K, C::Items>, key: K, value: V) -> Map<K, C::Items> {
        group_with::<K, V, C>(groups, key, value)
    }

    /// Adds `value` to the collection under `key`, which is created empty if the map
    /// has none. The collections under the other keys stay as they are.
    fn insert(&mut self, key: K, value: V)
        ensures
            obeys_cmp::<K>() ==> {
                &&& final(self)@.dom() == old(self)@.dom().insert(key)
                &&& final(self)@.remove(key) == old(self)@.remove(key)
                &&& C::obeys_collection_model() ==> final(self)@[key].items() == C::items_with(
                    if old(self)@.contains_key(key) {
                        old(self)@[key].items()
                    } else {
                        C::no_items()
                    },
                    value,
                )
            },
    {
        // The collection is taken out of the map, grown, and put back.
        let mut slot = match self.remove(&key) {
            Some(found) => found,
            None => C::empty(),
        };
        slot.add_item(value);
        self.insert(key, slot);
        proof {
            if Self::obeys_aggregate_model() {
                assert(self.groups() =~= Self::groups_with(old(self).groups(), key, value));
            }
        }
    }
}

/// A `BTreeMap` is among the maps that keep one collection per key.
pub proof fn lemma_btree_map_groups_by_key<K, V, C>() where K: Eq + Ord + Hash, C: Collection<V>
    ensures
        groups_by_key::<BTreeMap<K, C>, K, V, C>(),
{
}

/// A default `BTreeMap` is one into which nothing has been inserted.
pub proof fn lemma_btree_map_default<K, V, C>() where K: Eq + Ord + Hash, C: Collection<V>
    ensures
        default_has_no_groups::<BTreeMap<K, C>, K, V>(),
{
    assert forall|fresh: BTreeMap<K, C>|
        call_ensures(BTreeMap::<K, C>::default, (), fresh) implies #[trigger]
        Aggregate::<K, V>::groups(&fresh) == Map::<K, C::Items>::empty() by {
        assert(fresh@ == Map::<K, C>::empty());
        assert(Aggregate::<K, V>::groups(&fresh) =~= Map::<K, C::Items>::empty());
    }
}

/// A `BTreeMap` without groups is a map without keys.
pub proof fn lemma_btree_map_without_groups<K, V, C>(map: BTreeMap<K, C>) where
    K: Eq + Ord + Hash,
    C: Collection<V>,

    requires
        Aggregate::<K, V>::groups(&map) == Map::<K, C::Items>::empty(),
    ensures
        map@ == Map::<K, C>::empty(),
        map@.len() == 0,
{
    assert forall|key: K| !map@.dom().contains(key) by {
        assert(!Aggregate::<K, V>::groups(&map).dom().contains(key));
    }
    assert(map@ =~= Map::<K, C>::empty());
}

} // verus!
