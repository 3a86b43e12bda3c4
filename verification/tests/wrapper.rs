use aggregate_map::AggregateMap;
use std::collections::{BTreeMap, HashMap};

#[test]
fn wrapping_and_unwrapping_gives_the_map_back() {
    let map = HashMap::from([("dog", vec!["Terry", "Zamboni"]), ("cat", vec![])]);
    let wrapped = AggregateMap::from(map.clone());
    assert_eq!(wrapped.into_inner(), map);

    let map: BTreeMap<u8, Vec<u8>> = BTreeMap::new();
    assert_eq!(AggregateMap::from(map.clone()).into_inner(), map);
}

#[test]
fn into_gives_a_wrapper_too() {
    let map = HashMap::from([(1u8, vec![2u8])]);
    let wrapped: AggregateMap<HashMap<u8, Vec<u8>>> = map.clone().into();
    assert_eq!(wrapped.into_inner(), map);
}

#[test]
fn a_default_wrapper_holds_a_default_map() {
    let wrapped: AggregateMap<HashMap<&str, Vec<&str>>> = AggregateMap::default();
    assert_eq!(wrapped.into_inner(), HashMap::default());
}

#[test]
fn the_wrapped_map_can_be_read_through_the_wrapper() {
    let wrapped: AggregateMap<HashMap<&str, Vec<u8>>> =
        AggregateMap::from_iter(vec![("a", 1u8), ("b", 2), ("a", 3)].into_iter());
    assert_eq!(wrapped.len(), 2);
    assert!(wrapped.contains_key("a"));
    assert_eq!(wrapped.get("a"), Some(&vec![1u8, 3]));
    assert_eq!(wrapped.get("c"), None);
    let mut keys: Vec<&str> = wrapped.keys().copied().collect();
    keys.sort();
    assert_eq!(keys, vec!["a", "b"]);
    let map: &HashMap<&str, Vec<u8>> = &wrapped;
    assert_eq!(map["b"], vec![2u8]);
}

#[test]
fn the_wrapped_map_can_be_changed_through_the_wrapper() {
    let mut wrapped: AggregateMap<HashMap<&str, Vec<u8>>> =
        AggregateMap::from_iter(vec![("a", 1u8), ("b", 2)].into_iter());
    assert_eq!(wrapped.remove("a"), Some(vec![1u8]));
    wrapped.get_mut("b").unwrap().push(9);
    wrapped.entry("c").or_default().push(7);
    assert_eq!(
        wrapped.into_inner(),
        HashMap::from([("b", vec![2u8, 9]), ("c", vec![7u8])])
    );

    let mut wrapped: AggregateMap<HashMap<&str, Vec<u8>>> =
        AggregateMap::from_iter(vec![("a", 1u8)].into_iter());
    wrapped.clear();
    wrapped.extend(vec![("z", 26u8)].into_iter());
    assert_eq!(wrapped.into_inner(), HashMap::from([("z", vec![26u8])]));
}

#[test]
fn a_clone_is_a_wrapper_of_its_own() {
    let mut first: AggregateMap<BTreeMap<u8, Vec<u8>>> =
        AggregateMap::from_iter(vec![(1u8, 1u8)].into_iter());
    let second = first.clone();
    first.extend(vec![(1u8, 2u8)].into_iter());
    assert_eq!(first.into_inner(), BTreeMap::from([(1u8, vec![1u8, 2])]));
    assert_eq!(second.into_inner(), BTreeMap::from([(1u8, vec![1u8])]));
}

#[test]
fn a_wrapper_shows_its_map_when_debugged() {
    let wrapped: AggregateMap<BTreeMap<u8, Vec<u8>>> =
        AggregateMap::from_iter(vec![(1u8, 2u8), (1, 3)].into_iter());
    assert_eq!(format!("{:?}", wrapped), "AggregateMap({1: [2, 3]})");
}
