//! A `HashSet` as the collection behind a key.
use crate::collection::{keeps_one_of_each, Collection};
use std::collections::HashSet;
use std::hash::{BuildHasher, Hash};
use vstd::prelude::*;
use vstd::std_specs::hash::{builds_valid_hashers, obeys_key_model};

verus! {

/// A `HashSet` keeps one of each item.
impl<V, S> Collection<V> for HashSet<V, S> where V: Eq + Hash, S: BuildHasher + Default {
    type Items = Set<V>;

    /// The set follows the model if its items hash and compare as the model of
    /// `HashSet` assumes.
    open spec fn obeys_collection_model() -> bool {
        obeys_key_model::<V>() && builds_valid_hashers::<S>()
    }

    open spec fn items(&self) -> Set<V> {
        self@
    }

    open spec fn no_items() -> Set<V> {
        Set::empty()
    }

    open spec fn items_with(items: Set<V>, item: V) -> Set<V> {
        items.insert(item)
    }

    fn empty() -> (fresh: Self) {
        HashSet::default()
    }

    fn add_item(&mut self, item: V) {
        self.insert(item);
    }
}

/// A `HashSet` is among the collections that keep one of each.
pub proof fn lemma_hash_set_keeps_one_of_each<V, S>() where V: Eq + Hash, S: BuildHasher + Default
    ensures
        keeps_one_of_each::<HashSet<V, S>, V>(),
{
}

} // verus!
