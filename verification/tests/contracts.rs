use aggregate_map::collection::Collection;
use aggregate_map::{Aggregate, AggregateMap};
use std::collections::hash_map::DefaultHasher;
use std::collections::{BTreeMap, BTreeSet, HashMap, HashSet, VecDeque};
use std::hash::BuildHasherDefault;

#[test]
fn a_vec_starts_empty_and_takes_items_at_its_end() {
    let mut items: Vec<u8> = Collection::empty();
    assert!(items.is_empty());
    items.add_item(3);
    items.add_item(1);
    items.add_item(3);
    assert_eq!(items, vec![3u8, 1, 3]);
}

#[test]
fn a_vec_deque_starts_empty_and_takes_items_at_its_back() {
    let mut items: VecDeque<u8> = Collection::empty();
    assert!(items.is_empty());
    items.add_item(3);
    items.add_item(1);
    items.add_item(3);
    assert_eq!(items, VecDeque::from([3u8, 1, 3]));
}

#[test]
fn a_hash_set_starts_empty_and_takes_each_item_once() {
    let mut items: HashSet<u8> = Collection::empty();
    assert!(items.is_empty());
    items.add_item(3);
    items.add_item(1);
    items.add_item(3);
    assert_eq!(items, HashSet::from([1u8, 3]));
}

#[test]
fn a_btree_set_starts_empty_and_takes_each_item_once() {
    let mut items: BTreeSet<u8> = Collection::empty();
    assert!(items.is_empty());
    items.add_item(3);
    items.add_item(1);
    items.add_item(3);
    assert_eq!(items.into_iter().collect::<Vec<u8>>(), vec![1u8, 3]);
}

#[test]
fn an_aggregate_map_starts_empty_and_takes_pairs() {
    let mut items: AggregateMap<HashMap<u8, Vec<char>>> = Collection::empty();
    assert!(items.is_empty());
    items.add_item((1, 'a'));
    items.add_item((2, 'b'));
    items.add_item((1, 'c'));
    assert_eq!(
        items.into_inner(),
        HashMap::from([(1u8, vec!['a', 'c']), (2u8, vec!['b'])])
    );
}

#[test]
fn inserting_into_a_hash_map_creates_the_collection_of_a_new_key() {
    let mut map: HashMap<&str, Vec<u8>> = HashMap::new();
    Aggregate::insert(&mut map, "a", 1u8);
    assert_eq!(map, HashMap::from([("a", vec![1u8])]));
}

#[test]
fn inserting_into_a_hash_map_adds_to_the_collection_of_a_known_key() {
    let mut map = HashMap::from([("a", vec![1u8]), ("b", vec![5u8])]);
    Aggregate::insert(&mut map, "a", 2u8);
    Aggregate::insert(&mut map, "a", 1u8);
    assert_eq!(map, HashMap::from([("a", vec![1u8, 2, 1]), ("b", vec![5u8])]));
}

#[test]
fn inserting_into_a_btree_map_creates_the_collection_of_a_new_key() {
    let mut map: BTreeMap<&str, Vec<u8>> = BTreeMap::new();
    Aggregate::insert(&mut map, "a", 1u8);
    assert_eq!(map, BTreeMap::from([("a", vec![1u8])]));
}

#[test]
fn inserting_into_a_btree_map_adds_to_the_collection_of_a_known_key() {
    let mut map = BTreeMap::from([("a", vec![1u8]), ("b", vec![5u8])]);
    Aggregate::insert(&mut map, "a", 2u8);
    Aggregate::insert(&mut map, "a", 1u8);
    assert_eq!(map, BTreeMap::from([("a", vec![1u8, 2, 1]), ("b", vec![5u8])]));
}

#[test]
fn a_hash_map_with_a_hasher_of_ones_own_can_be_collected_into() {
    let data = vec![(1u8, 'a'), (1, 'b')];
    let collected: AggregateMap<HashMap<u8, Vec<char>, BuildHasherDefault<DefaultHasher>>> =
        AggregateMap::from_iter(data.into_iter());
    assert_eq!(collected.get(&1), Some(&vec!['a', 'b']));
    assert_eq!(collected.len(), 1);
}

/// A map of one's own: it keeps the number of values seen for each key. It claims no
/// model, so the functions that describe one have nothing to say.
#[derive(Default)]
struct Tally(BTreeMap<char, usize>);

impl Aggregate<char, u8> for Tally {
    type Groups = ();

    fn obeys_aggregate_model() -> bool {
        false
    }

    fn groups(&self) {}

    fn no_groups() {}

    fn groups_with(_groups: (), _key: char, _value: u8) {}

    fn insert(&mut self, key: char, _value: u8) {
        *self.0.entry(key).or_default() += 1;
    }
}

#[test]
fn a_map_of_ones_own_can_be_collected_into() {
    let data = vec![('x', 1u8), ('y', 2), ('x', 3)];
    let collected: AggregateMap<Tally> = AggregateMap::from_iter(data.into_iter());
    assert_eq!(collected.into_inner().0, BTreeMap::from([('x', 2usize), ('y', 1)]));
}
