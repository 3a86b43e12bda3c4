//! A `VecDeque` as the collection behind a key.
use crate::collection::{keeps_order, Collection};
use std::collections::VecDeque;
use vstd::prelude::*;

verus! {

/// A `VecDeque` keeps every item, in the order of arrival: an item goes to its back.
impl<V> Collection<V> for VecDeque<V> {
    type Items = Seq<V>;

    open spec fn obeys_collection_model() -> bool {
        true
    }

    open spec fn items(&self) -> Seq<V> {
        self@
    }

    open spec fn no_items() -> Seq<V> {
        Seq::empty()
    }

    open spec fn items_with(items: Seq<V>, item: V) -> Seq<V> {
        items.push(item)
    }

    fn empty() -> (fresh: Self) {
        VecDeque::new()
    }

    fn add_item(&mut self, item: V) {
        self.push_back(item);
    }
}

/// A `VecDeque` is among the collections that keep order.
pub proof fn lemma_vec_deque_keeps_order<V>()
    ensures
        keeps_order::<VecDeque<V>, V>(),
{
}

} // verus!
