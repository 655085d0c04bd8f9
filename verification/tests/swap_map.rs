use std::collections::BTreeMap;
use std::sync::Arc;

use share_map::SwapMap;

#[test]
fn test_swap_map_iteration_pattern() {
    let btree_map = BTreeMap::from([("key1", 42), ("key2", 100)]);
    let swap_map: SwapMap<&str, i32> =
        SwapMap::from_pairs(btree_map.clone().into_iter().collect()).expect("should be Ok");
    let snapshot = swap_map.snapshot();

    let mut swap_vec: Vec<(&str, i32)> = Vec::new();
    let mut iter = snapshot.iter();
    while let Some((k, v)) = iter.next() {
        swap_vec.push((*k, *v));
    }
    let btree_vec: Vec<(&str, i32)> = btree_map.into_iter().collect();

    assert_eq!(swap_vec, btree_vec);
}

#[test]
fn test_swap_map_get_value_ref_does_not_share_ownership() {
    let swap_map = SwapMap::<&str, i32>::from_pairs(vec![("key", 42)]).expect("should be Ok");

    let _value_ref = swap_map.get(&"key").expect("Key not found");

    let some_snapshot = swap_map.try_into_snapshot();

    assert!(some_snapshot.is_owned());
}

#[test]
fn test_swap_map_swap_returned_value_does_not_share_ownership() {
    let mut swap_map = SwapMap::<&str, i32>::from_pairs(vec![("key", 42)]).expect("should be Ok");

    let old_snapshot = swap_map.swap(vec![("key", 21)]).expect("should be Ok");

    let unwrapped_snapshot = Arc::try_unwrap(old_snapshot);

    assert!(unwrapped_snapshot.is_ok());
}

#[test]
fn test_swap_map_snapshot_shares_ownership() {
    let swap_map = SwapMap::<&str, i32>::from_pairs(vec![("key", 42)]).expect("should be Ok");

    let snapshot = swap_map.snapshot();

    let unwrapped_snapshot = Arc::try_unwrap(snapshot);

    assert!(unwrapped_snapshot.is_err());
}

#[test]
fn swap_map_new_is_empty() {
    let swap_map = SwapMap::<&str, i32>::new();
    assert!(swap_map.is_empty());
    assert_eq!(swap_map.len(), 0);
}

#[test]
fn swap_map_store_replaces_contents() {
    let mut swap_map = SwapMap::<&str, i32>::new();
    swap_map.store(vec![("key1", 42), ("key2", 100)]).expect("should be Ok");

    let value1 = swap_map.get(&"key1").expect("key not found");
    assert_eq!(*value1.get(), 42);

    swap_map.store(vec![("key1", 21), ("key2", 200)]).expect("should be Ok");

    // the reference taken before the store still reads the old data
    assert_eq!(*value1.get(), 42);

    // new reads see the new data
    let value2 = swap_map.get(&"key1").expect("key not found");
    assert_eq!(*value2.get(), 21);

    // a duplicate key fails the store
    let err = swap_map.store(vec![("key1", 42), ("key1", 100)]);
    assert!(err.is_err());
}

#[test]
fn swap_map_duplicate_store_leaves_contents_alone() {
    let mut swap_map = SwapMap::<&str, i32>::from_pairs(vec![("key1", 42)]).expect("should be Ok");

    let err = swap_map.store(vec![("key2", 1), ("key2", 2)]);
    assert!(err.is_err());

    // the failed store left the previous contents observable, unchanged
    assert_eq!(swap_map.len(), 1);
    let value = swap_map.get(&"key1").expect("key not found");
    assert_eq!(*value.get(), 42);
    assert!(!swap_map.contains_key(&"key2"));
}

#[test]
fn swap_map_from_map_holds_given_pairs() {
    let btree_map = BTreeMap::from([("key1", 42), ("key2", 100)]);
    let swap_map: SwapMap<&str, i32> = SwapMap::from_map(btree_map.into_iter().collect());

    assert_eq!(swap_map.len(), 2);
    assert_eq!(*swap_map.get(&"key1").expect("key not found").get(), 42);
    assert_eq!(*swap_map.get(&"key2").expect("key not found").get(), 100);
}

#[test]
fn swap_map_into_snapshot_or_clone_keeps_contents() {
    let swap_map = SwapMap::<&str, i32>::from_pairs(vec![("key1", 42)]).expect("should be Ok");
    let extra = swap_map.snapshot();

    // another snapshot shares the contents, so a duplicate comes back
    let cloned = swap_map.into_snapshot_or_clone();
    assert_eq!(cloned.get(&"key1"), Some(&42));
    assert_eq!(extra.get(&"key1"), Some(&42));

    // without other snapshots the original comes back
    let swap_map = SwapMap::<&str, i32>::from_pairs(vec![("key1", 42)]).expect("should be Ok");
    let original = swap_map.into_snapshot_or_clone();
    assert_eq!(original.get(&"key1"), Some(&42));
}
