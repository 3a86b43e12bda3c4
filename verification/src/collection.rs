//! The collections that can stand behind a key.
use vstd::prelude::*;

verus! {

/// A collection that can hold the values of one key.
///
/// Two operations are asked of it: to make an empty collection, and to take in one more
/// item. Whether an item that is already there is kept twice is the collection's own
/// affair: a `Vec` keeps it, a set does not.
///
/// The spec functions give the type its model; the two operations are held to it
/// whenever [`obeys_collection_model`](Collection::obeys_collection_model) is true.
pub trait Collection<V>: Sized {
    /// The mathematical model of the collection's contents.
    type Items;

    /// Whether `empty` and `add_item` behave as `no_items` and `items_with` say.
    spec fn obeys_collection_model() -> bool;

    /// The model of this collection.
    spec fn items(&self) -> Self::Items;

    /// The model of an empty collection.
    spec fn no_items() -> Self::Items;

    /// The model that results from adding `item` to a collection whose model is `items`.
    spec fn items_with(items: Self::Items, item: V) -> Self::Items;

    /// Makes an empty collection.
    fn empty() -> (fresh: Self)
        ensures
            Self::obeys_collection_model() ==> fresh.items() == Self::no_items(),
    ;

    /// Adds one item to the collection.
    fn add_item(&mut self, item: V)
        ensures
            Self::obeys_collection_model() ==> final(self).items() == Self::items_with(
                old(self).items(),
                item,
            ),
    ;
}

/// The model that results from adding `values`, one at a time and in order, to a
/// collection whose model is `items`.
pub open spec fn gather<C: Collection<V>, V>(items: C::Items, values: Seq<V>) -> C::Items
    decreases values.len(),
{
    if values.len() == 0 {
        items
    } else {
        C::items_with(gather::<C, V>(items, values.drop_last()), values.last())
    }
}

/// Whether `C` keeps every item, in the order of arrival.
pub open spec fn keeps_order<C: Collection<V, Items = Seq<V>>, V>() -> bool {
    &&& C::no_items() == Seq::<V>::empty()
    &&& forall|items: Seq<V>, item: V| #[trigger] C::items_with(items, item) == items.push(item)
}

/// Whether `C` keeps one of each item, in no order.
pub open spec fn keeps_one_of_each<C: Collection<V, Items = Set<V>>, V>() -> bool {
    &&& C::no_items() == Set::<V>::empty()
    &&& forall|items: Set<V>, item: V| #[trigger] C::items_with(items, item) == items.insert(item)
}

/// A `Vec` keeps every item, in the order of arrival.
impl<V> Collection<V> for Vec<V> {
    type Items = Seq<V>;

    open spec fn obeys_collection_model() -> bool {
        true
    }

    open spec fn items(&self) -> Seq<V> {
        self@
    }

    open spec fn no_items() -> Seq<V> {
        Seq::empty()
    }

    open spec fn items_with(items: Seq<V>, item: V) -> Seq<V> {
        items.push(item)
    }

    fn empty() -> (fresh: Self) {
        Vec::new()
    }

    fn add_item(&mut self, item: V) {
        self.push(item);
    }
}

/// A `Vec` is among the collections that keep order.
pub proof fn lemma_vec_keeps_order<V>()
    ensures
        keeps_order::<Vec<V>, V>(),
{
}

} // verus!
