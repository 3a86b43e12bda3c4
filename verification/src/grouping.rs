//! The model shared by maps that keep one collection per key.
use crate::collection::Collection;
use crate::Aggregate;
use vstd::prelude::*;

verus! {

/// The model that results from adding `value` to the collection that `groups` holds
/// under `key`, starting from an empty collection where it holds none.
pub open spec fn group_with<K, V, C: Collection<V>>(
    groups: Map<K, C::Items>,
    key: K,
    value: V,
) -> Map<K, C::Items> {
    groups.insert(
        key,
        C::items_with(
            if groups.contains_key(key) {
                groups[key]
            } else {
                C::no_items()
            },
            value,
        ),
    )
}

/// Whether `M` keeps one collection of type `C` per key: an insertion creates the
/// key's collection if it is missing, adds the value to it, and touches no other key.
pub open spec fn groups_by_key<M, K, V, C>() -> bool where
    M: Aggregate<K, V, Groups = Map<K, C::Items>>,
    C: Collection<V>,
 {
    &&& M::no_groups() == Map::<K, C::Items>::empty()
    &&& forall|groups: Map<K, C::Items>, key: K, value: V| #[trigger]
        M::groups_with(groups, key, value) == group_with::<K, V, C>(groups, key, value)
}

/// The values that `pairs` holds under `key`, in the order in which they occur.
pub open spec fn values_of<K, V>(pairs: Seq<(K, V)>, key: K) -> Seq<V> {
    pairs.filter(|pair: (K, V)| pair.0 == key).map_values(|pair: (K, V)| pair.1)
}

} // verus!
