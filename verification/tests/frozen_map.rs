use share_map::FrozenMap;

#[test]
fn test_snapshot_map_from_pairs() {
    let snapshot_map_ok = FrozenMap::<&str, i32>::from_pairs(vec![("key1", 42), ("key2", 100)]);

    assert!(snapshot_map_ok.is_ok());

    // duplicate key's error
    let snapshot_map_err = FrozenMap::<&str, i32>::from_pairs(vec![("key1", 42), ("key1", 100)]);

    assert!(snapshot_map_err.is_err());
}

#[test]
fn test_map_snapshot_into_iter_owned() {
    let snapshot =
        FrozenMap::<&str, i32>::from_pairs(vec![("key1", 42), ("key2", 100)]).expect("should be Ok");

    let mut pairs: Vec<(&str, i32)> = Vec::new();
    let mut iter = snapshot.into_iter();
    while let Some((k, v)) = iter.next() {
        pairs.push((k, v));
    }

    assert_eq!(pairs, vec![("key1", 42), ("key2", 100)]);
}

#[test]
fn test_map_snapshot_into_iter_borrowed() {
    let snapshot =
        FrozenMap::<&str, i32>::from_pairs(vec![("key1", 42), ("key2", 100)]).expect("should be Ok");

    let mut pairs: Vec<(&str, i32)> = Vec::new();
    let mut iter = snapshot.iter();
    while let Some((k, v)) = iter.next() {
        pairs.push((*k, *v));
    }

    assert_eq!(pairs, vec![("key1", 42), ("key2", 100)]);
}

#[test]
fn frozen_map_default_is_empty() {
    let map: FrozenMap<&str, i32> = FrozenMap::default();
    assert!(map.is_empty());
    assert_eq!(map.len(), 0);
    assert_eq!(map.get(&"key1"), None);
}

#[test]
fn frozen_map_collapse_keeps_first_position_last_value() {
    let map =
        FrozenMap::<&str, i32>::from_pairs_collapse(vec![("a", 1), ("b", 2), ("a", 3)]);

    assert_eq!(map.len(), 2);
    // "a" keeps its first position but carries the last value
    assert_eq!(*map.values(), vec![3, 2]);
    assert_eq!(map.get(&"a"), Some(&3));
    assert_eq!(map.get(&"b"), Some(&2));
}

#[test]
fn frozen_map_empty_build_succeeds() {
    let map = FrozenMap::<&str, i32>::from_pairs(Vec::new()).expect("should be Ok");
    assert!(map.is_empty());
}

#[test]
fn duplicate_key_error_message() {
    let err = FrozenMap::<&str, i32>::from_pairs(vec![("key1", 1), ("key1", 2)])
        .expect_err("should be Err");
    assert_eq!(err.message(), "duplicate key");
}

#[test]
fn frozen_map_keys_and_values_in_insertion_order() {
    let map =
        FrozenMap::<&str, i32>::from_pairs(vec![("b", 2), ("a", 1)]).expect("should be Ok");

    let keys: Vec<&str> = map.keys().into_iter().map(|k| *k).collect();
    assert_eq!(keys, vec!["b", "a"]);
    assert_eq!(*map.values(), vec![2, 1]);

    let owned_keys: Vec<&str> = map.into_keys();
    assert_eq!(owned_keys, vec!["b", "a"]);
}
