//! What holds of every collected map.
//!
//! The first laws hold of every map that can be collected into. The later ones are
//! about maps that keep one collection per key, as `HashMap` and `BTreeMap` do, and
//! say what ends up under each key for the kinds of collection that can stand there.
use crate::collection::{gather, keeps_one_of_each, keeps_order, Collection};
use crate::grouping::{group_with, groups_by_key, values_of};
use crate::{aggregate, Aggregate, AggregateMap};
use vstd::prelude::*;

verus! {

/// Collecting no pairs leaves the map as it was.
pub proof fn lemma_aggregate_nothing<M: Aggregate<K, V>, K, V>(groups: M::Groups)
    ensures
        aggregate::<M, K, V>(groups, Seq::empty()) == groups,
{
}

/// Collecting one more pair is one more insertion.
pub proof fn lemma_aggregate_push<M: Aggregate<K, V>, K, V>(
    groups: M::Groups,
    pairs: Seq<(K, V)>,
    key: K,
    value: V,
)
    ensures
        aggregate::<M, K, V>(groups, pairs.push((key, value))) == M::groups_with(
            aggregate::<M, K, V>(groups, pairs),
            key,
            value,
        ),
{
    assert(pairs.push((key, value)).drop_last() == pairs);
}

/// Collecting `first` and then `second` gives what collecting `first + second` at once
/// gives.
pub proof fn lemma_aggregate_concat<M: Aggregate<K, V>, K, V>(
    groups: M::Groups,
    first: Seq<(K, V)>,
    second: Seq<(K, V)>,
)
    ensures
        aggregate::<M, K, V>(aggregate::<M, K, V>(groups, first), second) == aggregate::<M, K, V>(
            groups,
            first + second,
        ),
    decreases second.len(),
{
    if second.len() == 0 {
        assert(first + second == first);
    } else {
        lemma_aggregate_concat::<M, K, V>(groups, first, second.drop_last());
        assert((first + second).drop_last() == first + second.drop_last());
    }
}

/// The values under `key` after one more pair: one more value if the pair has that key,
/// the same values if it has another.
pub proof fn lemma_values_of_push<K, V>(pairs: Seq<(K, V)>, pair: (K, V), key: K)
    ensures
        values_of(pairs.push(pair), key) == if pair.0 == key {
            values_of(pairs, key).push(pair.1)
        } else {
            values_of(pairs, key)
        },
{
    let under_key = |pair: (K, V)| pair.0 == key;
    pairs.lemma_filter_push(pair, under_key);
}

/// `pairs` holds a value under `key` exactly if one of its pairs has that key.
pub proof fn lemma_values_of_occurs<K, V>(pairs: Seq<(K, V)>, key: K)
    ensures
        values_of(pairs, key).len() > 0 <==> exists|i: int|
            0 <= i < pairs.len() && (#[trigger] pairs[i]).0 == key,
    decreases pairs.len(),
{
    if pairs.len() > 0 {
        let rest = pairs.drop_last();
        lemma_values_of_occurs(rest, key);
        lemma_values_of_push(rest, pairs.last(), key);
        assert(rest.push(pairs.last()) == pairs);
        if values_of(pairs, key).len() > 0 {
            if pairs.last().0 == key {
                assert(pairs[pairs.len() - 1].0 == key);
            } else {
                let i = choose|i: int| 0 <= i < rest.len() && (#[trigger] rest[i]).0 == key;
                assert(pairs[i].0 == key);
            }
        }
        if exists|i: int| 0 <= i < pairs.len() && (#[trigger] pairs[i]).0 == key {
            let i = choose|i: int| 0 <= i < pairs.len() && (#[trigger] pairs[i]).0 == key;
            if i < rest.len() {
                assert(rest[i].0 == key);
            }
        }
    }
}

/// `pairs` holds `value` under `key` exactly if it holds the pair of the two.
pub proof fn lemma_values_of_contains<K, V>(pairs: Seq<(K, V)>, key: K, value: V)
    ensures
        values_of(pairs, key).contains(value) <==> pairs.contains((key, value)),
    decreases pairs.len(),
{
    if pairs.len() > 0 {
        let rest = pairs.drop_last();
        let last = pairs.last();
        lemma_values_of_contains(rest, key, value);
        lemma_values_of_push(rest, last, key);
        assert(rest.push(last) == pairs);
        if values_of(pairs, key).contains(value) {
            let i = choose|i: int|
                0 <= i < values_of(pairs, key).len() && values_of(pairs, key)[i] == value;
            if last.0 == key && i == values_of(rest, key).len() {
                assert(pairs[pairs.len() - 1] == (key, value));
            } else {
                assert(values_of(rest, key)[i] == value);
                let j = choose|j: int| 0 <= j < rest.len() && rest[j] == (key, value);
                assert(pairs[j] == (key, value));
            }
        }
        if pairs.contains((key, value)) {
            let j = choose|j: int| 0 <= j < pairs.len() && pairs[j] == (key, value);
            if j < rest.len() {
                assert(rest[j] == (key, value));
                let i = choose|i: int|
                    0 <= i < values_of(rest, key).len() && values_of(rest, key)[i] == value;
                assert(values_of(pairs, key)[i] == value);
            } else {
                assert(values_of(pairs, key)[values_of(rest, key).len() as int] == value);
            }
        }
    }
}

/// A collection that keeps order holds, after `values` were added, what it held before
/// followed by `values`.
pub proof fn lemma_gather_in_order<C: Collection<V, Items = Seq<V>>, V>(
    items: Seq<V>,
    values: Seq<V>,
)
    requires
        keeps_order::<C, V>(),
    ensures
        gather::<C, V>(items, values) == items + values,
    decreases values.len(),
{
    if values.len() > 0 {
        lemma_gather_in_order::<C, V>(items, values.drop_last());
        assert(values.drop_last().push(values.last()) == values);
    }
}

/// A collection that keeps one of each holds, after `values` were added, what it held
/// before and every value that occurs in `values`.
pub proof fn lemma_gather_one_of_each<C: Collection<V, Items = Set<V>>, V>(
    items: Set<V>,
    values: Seq<V>,
)
    requires
        keeps_one_of_each::<C, V>(),
    ensures
        gather::<C, V>(items, values) == items.union(values.to_set()),
    decreases values.len(),
{
    if values.len() > 0 {
        lemma_gather_one_of_each::<C, V>(items, values.drop_last());
        assert(values.drop_last() + seq![values.last()] == values);
        Seq::lemma_to_set_insert_commutes(values.drop_last(), values.last());
    }
}

/// An `AggregateMap` behind a key holds, after `pairs` were added, what collecting
/// `pairs` into it gives.
pub proof fn lemma_gather_nested<M: Aggregate<K, V> + Default, K, V>(
    groups: M::Groups,
    pairs: Seq<(K, V)>,
)
    ensures
        gather::<AggregateMap<M>, (K, V)>(groups, pairs) == aggregate::<M, K, V>(groups, pairs),
    decreases pairs.len(),
{
    if pairs.len() > 0 {
        lemma_gather_nested::<M, K, V>(groups, pairs.drop_last());
    }
}

/// In a map that keeps one collection per key, the collection under `key` is what its
/// earlier content becomes when the values that `pairs` holds under `key` are added to
/// it in order. The map holds `key` exactly if it held it before or `pairs` has it.
pub proof fn lemma_group_of_key<M, K, V, C>(
    groups: Map<K, C::Items>,
    pairs: Seq<(K, V)>,
    key: K,
) where M: Aggregate<K, V, Groups = Map<K, C::Items>>, C: Collection<V>

    requires
        groups_by_key::<M, K, V, C>(),
    ensures
        ({
            let out = aggregate::<M, K, V>(groups, pairs);
            let before = if groups.contains_key(key) {
                groups[key]
            } else {
                C::no_items()
            };
            &&& out.contains_key(key) <==> groups.contains_key(key) || values_of(pairs, key).len()
                > 0
            &&& out.contains_key(key) ==> out[key] == gather::<C, V>(before, values_of(pairs, key))
        }),
    decreases pairs.len(),
{
    let before = if groups.contains_key(key) {
        groups[key]
    } else {
        C::no_items()
    };
    if pairs.len() > 0 {
        let rest = pairs.drop_last();
        let last = pairs.last();
        lemma_group_of_key::<M, K, V, C>(groups, rest, key);
        lemma_values_of_push(rest, last, key);
        assert(rest.push(last) == pairs);
        let so_far = aggregate::<M, K, V>(groups, rest);
        let out = aggregate::<M, K, V>(groups, pairs);
        assert(out == group_with::<K, V, C>(so_far, last.0, last.1));
        if last.0 == key {
            // The collection under `key` takes in one more value.
            let values = values_of(pairs, key);
            assert(values == values_of(rest, key).push(last.1));
            assert(values.drop_last() == values_of(rest, key));
            let current = if so_far.contains_key(key) {
                so_far[key]
            } else {
                C::no_items()
            };
            assert(current == gather::<C, V>(before, values_of(rest, key)));
            assert(out[key] == C::items_with(current, last.1));
        } else {
            // The insertion goes to another key.
            assert(out.contains_key(key) ==> out[key] == so_far[key]);
        }
    }
}

/// Collecting no pairs into a fresh map that keeps one collection per key gives a map
/// without keys.
pub proof fn lemma_no_pairs_no_keys<M, K, V, C>() where
    M: Aggregate<K, V, Groups = Map<K, C::Items>>,
    C: Collection<V>,

    requires
        groups_by_key::<M, K, V, C>(),
    ensures
        aggregate::<M, K, V>(M::no_groups(), Seq::empty()) == Map::<K, C::Items>::empty(),
{
}

/// In a map that keeps one collection per key, the keys do not affect one another:
/// sequences of pairs that hold the same values under every key give the same map,
/// however the keys are interleaved in them.
pub proof fn lemma_keys_are_independent<M, K, V, C>(
    groups: Map<K, C::Items>,
    first: Seq<(K, V)>,
    second: Seq<(K, V)>,
) where M: Aggregate<K, V, Groups = Map<K, C::Items>>, C: Collection<V>
    requires
        groups_by_key::<M, K, V, C>(),
        forall|key: K| #[trigger] values_of(first, key) == values_of(second, key),
    ensures
        aggregate::<M, K, V>(groups, first) == aggregate::<M, K, V>(groups, second),
{
    let from_first = aggregate::<M, K, V>(groups, first);
    let from_second = aggregate::<M, K, V>(groups, second);
    assert forall|key: K| #[trigger]
        from_first.dom().contains(key) == from_second.dom().contains(key) by {
        lemma_group_of_key::<M, K, V, C>(groups, first, key);
        lemma_group_of_key::<M, K, V, C>(groups, second, key);
        assert(values_of(first, key) == values_of(second, key));
    }
    assert forall|key: K| from_first.dom().contains(key) implies #[trigger] from_first[key]
        == from_second[key] by {
        lemma_group_of_key::<M, K, V, C>(groups, first, key);
        lemma_group_of_key::<M, K, V, C>(groups, second, key);
        assert(values_of(first, key) == values_of(second, key));
    }
    assert(from_first =~= from_second);
}

/// Where the collection behind each key keeps order, collecting into an empty map
/// keeps every value: a key of the result is a key of some pair, and it leads to the
/// values of that key, each as often as it occurs and in the order of the pairs.
pub proof fn lemma_every_value_in_order<M, K, V, C>(pairs: Seq<(K, V)>, key: K) where
    M: Aggregate<K, V, Groups = Map<K, Seq<V>>>,
    C: Collection<V, Items = Seq<V>>,

    requires
        groups_by_key::<M, K, V, C>(),
        keeps_order::<C, V>(),
    ensures
        ({
            let out = aggregate::<M, K, V>(M::no_groups(), pairs);
            &&& out.contains_key(key) <==> exists|i: int|
                0 <= i < pairs.len() && (#[trigger] pairs[i]).0 == key
            &&& out.contains_key(key) ==> out[key] == values_of(pairs, key)
        }),
{
    lemma_group_of_key::<M, K, V, C>(M::no_groups(), pairs, key);
    lemma_values_of_occurs(pairs, key);
    lemma_gather_in_order::<C, V>(Seq::empty(), values_of(pairs, key));
}

/// Where the collection behind each key keeps one of each, collecting into an empty
/// map drops repetitions: a key of the result is a key of some pair, and it leads to
/// the set of the values of that key.
pub proof fn lemma_every_value_once<M, K, V, C>(pairs: Seq<(K, V)>, key: K) where
    M: Aggregate<K, V, Groups = Map<K, Set<V>>>,
    C: Collection<V, Items = Set<V>>,

    requires
        groups_by_key::<M, K, V, C>(),
        keeps_one_of_each::<C, V>(),
    ensures
        ({
            let out = aggregate::<M, K, V>(M::no_groups(), pairs);
            &&& out.contains_key(key) <==> exists|i: int|
                0 <= i < pairs.len() && (#[trigger] pairs[i]).0 == key
            &&& out.contains_key(key) ==> out[key] == values_of(pairs, key).to_set()
        }),
{
    lemma_group_of_key::<M, K, V, C>(M::no_groups(), pairs, key);
    lemma_values_of_occurs(pairs, key);
    lemma_gather_one_of_each::<C, V>(Set::empty(), values_of(pairs, key));
}

/// Where the collection behind each key keeps one of each, neither the order of the
/// pairs nor their repetition matters: sequences that hold the same pairs give the same
/// map.
pub proof fn lemma_sets_ignore_order<M, K, V, C>(first: Seq<(K, V)>, second: Seq<(K, V)>) where
    M: Aggregate<K, V, Groups = Map<K, Set<V>>>,
    C: Collection<V, Items = Set<V>>,

    requires
        groups_by_key::<M, K, V, C>(),
        keeps_one_of_each::<C, V>(),
        first.to_set() == second.to_set(),
    ensures
        aggregate::<M, K, V>(M::no_groups(), first) == aggregate::<M, K, V>(
            M::no_groups(),
            second,
        ),
{
    assert forall|key: K| #[trigger]
        values_of(first, key).to_set() == values_of(second, key).to_set() by {
        let in_first = values_of(first, key).to_set();
        let in_second = values_of(second, key).to_set();
        assert forall|value: V| in_first.contains(value) == in_second.contains(value) by {
            lemma_values_of_contains(first, key, value);
            lemma_values_of_contains(second, key, value);
            assert(first.to_set().contains((key, value)) == first.contains((key, value)));
            assert(second.to_set().contains((key, value)) == second.contains((key, value)));
        }
        assert(in_first =~= in_second);
    }
    let from_first = aggregate::<M, K, V>(M::no_groups(), first);
    let from_second = aggregate::<M, K, V>(M::no_groups(), second);
    assert forall|key: K| #[trigger]
        from_first.dom().contains(key) == from_second.dom().contains(key) by {
        lemma_group_of_key::<M, K, V, C>(M::no_groups(), first, key);
        lemma_group_of_key::<M, K, V, C>(M::no_groups(), second, key);
        // A key has a value in one sequence exactly if it has one in the other.
        let in_first = values_of(first, key);
        let in_second = values_of(second, key);
        assert(in_first.to_set() == in_second.to_set());
        if in_first.len() > 0 {
            assert(in_first.to_set().contains(in_first[0]));
            assert(in_second.contains(in_first[0]));
        }
        if in_second.len() > 0 {
            assert(in_second.to_set().contains(in_second[0]));
            assert(in_first.contains(in_second[0]));
        }
    }
    assert forall|key: K| from_first.dom().contains(key) implies #[trigger] from_first[key]
        == from_second[key] by {
        lemma_every_value_once::<M, K, V, C>(first, key);
        lemma_every_value_once::<M, K, V, C>(second, key);
        assert(values_of(first, key).to_set() == values_of(second, key).to_set());
    }
    assert(from_first =~= from_second);
}

/// Where the collection behind each key is another `AggregateMap`, collecting into an
/// empty map groups twice: a key of the result is a key of some pair, and it leads to
/// what collecting the values of that key, themselves pairs, gives.
pub proof fn lemma_every_value_grouped<M, K, N, L, V>(pairs: Seq<(K, (L, V))>, key: K) where
    M: Aggregate<K, (L, V), Groups = Map<K, N::Groups>>,
    N: Aggregate<L, V> + Default,

    requires
        groups_by_key::<M, K, (L, V), AggregateMap<N>>(),
    ensures
        ({
            let out = aggregate::<M, K, (L, V)>(M::no_groups(), pairs);
            &&& out.contains_key(key) <==> exists|i: int|
                0 <= i < pairs.len() && (#[trigger] pairs[i]).0 == key
            &&& out.contains_key(key) ==> out[key] == aggregate::<N, L, V>(
                N::no_groups(),
                values_of(pairs, key),
            )
        }),
{
    lemma_group_of_key::<M, K, (L, V), AggregateMap<N>>(M::no_groups(), pairs, key);
    lemma_values_of_occurs(pairs, key);
    lemma_gather_nested::<N, L, V>(N::no_groups(), values_of(pairs, key));
}

} // verus!
