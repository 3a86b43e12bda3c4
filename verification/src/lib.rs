//! Collect key-value pairs into a map from each key to a collection of its values.
//!
//! Collecting pairs into an ordinary map keeps only the last value of a repeated key.
//! [`AggregateMap`] keeps them all: it wraps a map whose values are collections and
//! adds every value to the collection stored under its key, creating that collection
//! the first time the key is seen.
//!
//! The wrapped map can be any type that implements [`Aggregate`]; implementations for
//! `HashMap` and `BTreeMap` are provided. The per-key collection can be any type that
//! implements [`collection::Collection`]: a `Vec` or a `VecDeque`, a `HashSet` or a
//! `BTreeSet`, or another [`AggregateMap`] for a further level of grouping.
//!
//! ```
//! use aggregate_map::AggregateMap;
//! use std::collections::HashMap;
//!
//! let data = vec![("dog", "Terry"), ("dog", "Zamboni"), ("cat", "Jonathan")];
//! let collected: AggregateMap<HashMap<_, Vec<_>>> = AggregateMap::from_iter(data.into_iter());
//! let map = collected.into_inner();
//! // `map` is {"dog": ["Terry", "Zamboni"], "cat": ["Jonathan"]}
//! ```
//!
//! Every container is described by a mathematical model (its *groups*), and the
//! contracts say how the model changes. What a sequence of pairs does to a model is
//! the spec function [`aggregate`]; the module [`laws`] proves what follows from it.
//! All of this holds on the assumptions that the model of the wrapped map rests on,
//! such as a hash function that gives equal keys equal hashes: each type names its
//! own in `obeys_aggregate_model` or `obeys_collection_model`.
use crate::collection::Collection;
use std::ops::{Deref, DerefMut};
use vstd::prelude::*;
use vstd::std_specs::convert::{FromSpec, FromSpecImpl};
use vstd::std_specs::iter::IteratorSpec;

pub mod btreemap;
pub mod btreeset;
pub mod collection;
pub mod grouping;
pub mod hashmap;
pub mod hashset;
pub mod laws;
pub mod vecdeque;

verus! {

/// A map type that an [`AggregateMap`] can collect into.
///
/// An implementor usually maps a key of type `K` to a collection that holds several
/// values of type `V`. Its one operation, [`insert`](Aggregate::insert), adds a single
/// value to the collection stored under a key.
///
/// The spec functions give the type its model. `insert` is held to that model whenever
/// [`obeys_aggregate_model`](Aggregate::obeys_aggregate_model) is true; a type whose
/// behaviour rests on assumptions about its parameters (a hash function, an ordering)
/// states those assumptions there.
pub trait Aggregate<K, V> {
    /// The mathematical model of the map's contents.
    type Groups;

    /// Whether `insert` behaves as `groups_with` says.
    spec fn obeys_aggregate_model() -> bool;

    /// The model of this map.
    spec fn groups(&self) -> Self::Groups;

    /// The model of a map into which nothing has been inserted.
    spec fn no_groups() -> Self::Groups;

    /// The model that results from inserting `value` under `key` into a map whose model
    /// is `groups`.
    spec fn groups_with(groups: Self::Groups, key: K, value: V) -> Self::Groups;

    /// Inserts one `value` into the collection stored under `key`.
    fn insert(&mut self, key: K, value: V)
        ensures
            Self::obeys_aggregate_model() ==> final(self).groups() == Self::groups_with(
                old(self).groups(),
                key,
                value,
            ),
    ;
}

/// The model that results from inserting `pairs`, one at a time and in order, into a map
/// whose model is `groups`.
pub open spec fn aggregate<M: Aggregate<K, V>, K, V>(
    groups: M::Groups,
    pairs: Seq<(K, V)>,
) -> M::Groups
    decreases pairs.len(),
{
    if pairs.len() == 0 {
        groups
    } else {
        M::groups_with(
            aggregate::<M, K, V>(groups, pairs.drop_last()),
            pairs.last().0,
            pairs.last().1,
        )
    }
}

/// Whether every map that `M::default()` can return is one into which nothing has been
/// inserted.
pub open spec fn default_has_no_groups<M: Aggregate<K, V> + Default, K, V>() -> bool {
    forall|fresh: M|
        call_ensures(M::default, (), fresh) ==> #[trigger] fresh.groups() == M::no_groups()
}

/// A wrapper around a map that lets key-value pairs be collected into a mapping from
/// keys to collections of values, instead of from keys to single values.
#[derive(Debug)]
pub struct AggregateMap<M>(M);

impl<M> View for AggregateMap<M> {
    type V = M;

    /// The wrapped map.
    closed spec fn view(&self) -> M {
        self.0
    }
}

impl<M> AggregateMap<M> {
    /// Consumes the wrapper and returns the map it owns.
    pub fn into_inner(self) -> (map: M)
        ensures
            map == self@,
    {
        self.0
    }

    /// Inserts every pair that `iter` yields, in the order in which it yields them.
    ///
    /// The pairs are taken from the iterator one at a time; nothing is buffered. The
    /// iterator has to keep to the laws of iterators and to come to an end: `extend`
    /// returns when it has yielded its last pair.
    pub fn extend<K, V, I>(&mut self, iter: I) where M: Aggregate<K, V>, I: Iterator<Item = (K, V)>
        requires
            iter.obeys_prophetic_iter_laws(),
            iter.decrease() is Some,
        ensures
            M::obeys_aggregate_model() ==> final(self)@.groups() == aggregate::<M, K, V>(
                old(self)@.groups(),
                iter.remaining(),
            ),
    {
        let mut iter = iter;
        let ghost pairs = iter.remaining();
        let ghost mut done: int = 0;
        loop
            invariant
                iter.obeys_prophetic_iter_laws(),
                iter.decrease() is Some,
                0 <= done <= pairs.len(),
                iter.remaining() == pairs.skip(done),
                M::obeys_aggregate_model() ==> self@.groups() == aggregate::<M, K, V>(
                    old(self)@.groups(),
                    pairs.take(done),
                ),
            ensures
                M::obeys_aggregate_model() ==> self@.groups() == aggregate::<M, K, V>(
                    old(self)@.groups(),
                    pairs,
                ),
            decreases iter.decrease()->0,
        {
            match iter.next() {
                Some((key, value)) => {
                    self.0.insert(key, value);
                    proof {
                        assert(pairs.take(done + 1).drop_last() == pairs.take(done));
                        assert(pairs.skip(done).drop_first() == pairs.skip(done + 1));
                        done = done + 1;
                    }
                },
                None => {
                    assert(pairs.take(done) == pairs);
                    break ;
                },
            }
        }
    }

    /// Builds a wrapper around a default map and inserts every pair that `iter` yields,
    /// in the order in which it yields them.
    ///
    /// The result is what `extend` makes of some map that `M::default()` can return.
    /// Where every such map is one without groups, the second clause says it shorter.
    /// The iterator has to keep to the laws of iterators and to come to an end.
    pub fn from_iter<K, V, I>(iter: I) -> (out: Self) where
        M: Aggregate<K, V> + Default,
        I: Iterator<Item = (K, V)>,

        requires
            iter.obeys_prophetic_iter_laws(),
            iter.decrease() is Some,
        ensures
            M::obeys_aggregate_model() ==> exists|fresh: M|
                call_ensures(M::default, (), fresh) && out@.groups() == aggregate::<M, K, V>(
                    #[trigger] fresh.groups(),
                    iter.remaining(),
                ),
            M::obeys_aggregate_model() && default_has_no_groups::<M, K, V>() ==> out@.groups()
                == aggregate::<M, K, V>(M::no_groups(), iter.remaining()),
    {
        let mut this = Self::default();
        let ghost fresh = this@;
        this.extend(iter);
        assert(M::obeys_aggregate_model() ==> call_ensures(M::default, (), fresh) && this@.groups()
            == aggregate::<M, K, V>(fresh.groups(), iter.remaining()));
        this
    }

    /// Wrapping a map and unwrapping the result gives the map back.
    pub proof fn lemma_wrap_unwrap(map: M)
        ensures
            <Self as FromSpec<M>>::from_spec(map)@ == map,
    {
    }
}

/// An `AggregateMap` can itself stand behind a key, which gives a further level of
/// grouping: its items are pairs, which it groups in turn.
impl<M, K, V> Collection<(K, V)> for AggregateMap<M> where M: Aggregate<K, V> + Default {
    type Items = M::Groups;

    /// The wrapper follows the model if the wrapped map follows its own and starts
    /// out without groups.
    open spec fn obeys_collection_model() -> bool {
        M::obeys_aggregate_model() && default_has_no_groups::<M, K, V>()
    }

    open spec fn items(&self) -> M::Groups {
        self@.groups()
    }

    open spec fn no_items() -> M::Groups {
        M::no_groups()
    }

    open spec fn items_with(items: M::Groups, item: (K, V)) -> M::Groups {
        M::groups_with(items, item.0, item.1)
    }

    fn empty() -> (fresh: Self) {
        Self::default()
    }

    fn add_item(&mut self, item: (K, V)) {
        self.0.insert(item.0, item.1);
    }
}

impl<M> Deref for AggregateMap<M> {
    type Target = M;

    /// Read access to the wrapped map.
    fn deref(&self) -> (map: &M)
        ensures
            *map == self@,
    {
        &self.0
    }
}

impl<M> DerefMut for AggregateMap<M> {
    /// Write access to the wrapped map: what the caller leaves behind the reference is
    /// what the wrapper holds afterwards.
    fn deref_mut(&mut self) -> (map: &mut M)
        ensures
            *map == old(self)@,
            final(self)@ == *final(map),
    {
        &mut self.0
    }
}

impl<M> From<M> for AggregateMap<M> {
    /// Wraps an existing map.
    fn from(map: M) -> (out: Self)
        ensures
            out@ == map,
    {
        AggregateMap(map)
    }
}

impl<M> FromSpecImpl<M> for AggregateMap<M> {
    open spec fn obeys_from_spec() -> bool {
        true
    }

    closed spec fn from_spec(map: M) -> Self {
        AggregateMap(map)
    }
}

impl<M: Default> Default for AggregateMap<M> {
    /// Wraps a default map.
    fn default() -> (out: Self)
        ensures
            call_ensures(M::default, (), out@),
    {
        AggregateMap(M::default())
    }
}

impl<M: Clone> Clone for AggregateMap<M> {
    /// Wraps a clone of the wrapped map.
    fn clone(&self) -> (out: Self)
        ensures
            cloned::<M>(self@, out@),
    {
        AggregateMap(self.0.clone())
    }
}

} // verus!
