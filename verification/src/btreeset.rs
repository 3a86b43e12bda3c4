//! A `BTreeSet` as the collection behind a key.
use crate::collection::{keeps_one_of_each, Collection};
use std::collections::BTreeSet;
use vstd::laws_cmp::obeys_cmp;
use vstd::prelude::*;

verus! {

/// A `BTreeSet` keeps one of each item.
impl<V: Ord> Collection<V> for BTreeSet<V> {
    type Items = Set<V>;

    /// The set follows the model if its items are ordered as the model of `BTreeSet`
    /// assumes.
    open spec fn obeys_collection_model() -> bool {
        obeys_cmp::<V>()
    }

    open spec fn items(&self) -> Set<V> {
        self@
    }

    open spec fn no_items() -> Set<V> {
        Set::empty()
    }

    open spec fn items_with(items: Set<V>, item: V) -> Set<V> {
        items.insert(item)
    }

    fn empty() -> (fresh: Self) {
        BTreeSet::new()
    }

    fn add_item(&mut self, item: V) {
        self.insert(item);
    }
}

/// A `BTreeSet` is among the collections that keep one of each.
pub proof fn lemma_btree_set_keeps_one_of_each<V: Ord>()
    ensures
        keeps_one_of_each::<BTreeSet<V>, V>(),
{
}

} // verus!
