use std::sync::Arc;

use share_map::Hold;
use share_map::ShareMap;
use share_map::SwapMap;
use share_map::Value;

#[test]
fn value_into_owned_or_clone() {
    let value = Value::Owned("World");
    let owned: &str = Value::into_owned_or_clone(value);
    assert_eq!(owned, "World");

    let arc = Arc::new("Hello");
    let value = Value::Shared(arc);
    let unwrapped: &str = Value::into_owned_or_clone(value);
    assert_eq!(unwrapped, "Hello");

    let arc = Arc::new("Hello");
    let value = Value::Shared(arc.clone());
    let cloned: &str = Value::into_owned_or_clone(value);
    assert_eq!(cloned, "Hello");
}

#[test]
fn value_try_into_owned() {
    let value = Value::Owned("World");
    let owned = Value::try_into_owned(value);
    assert!(owned.is_owned());

    let arc = Arc::new("Hello");
    let value = Value::Shared(arc);
    let unwrapped = Value::try_into_owned(value);
    assert!(unwrapped.is_owned());

    let arc = Arc::new("Hello");
    let value = Value::Shared(arc.clone());
    let shared = Value::try_into_owned(value);
    assert!(shared.is_shared());
}

#[test]
fn value_into_owned() {
    let value = Value::Owned("World");
    let owned = Value::into_owned(value);
    assert!(owned.is_some());

    let arc = Arc::new("Hello");
    let value = Value::Shared(arc);
    let unwrapped = Value::into_owned(value);
    assert!(unwrapped.is_some());

    let arc = Arc::new("Hello");
    let value = Value::Shared(arc.clone());
    let shared = Value::into_owned(value);
    assert!(shared.is_none());
}

#[test]
fn value_from_unwrap_outcome() {
    let arc = Arc::new("Hello");
    let value: Value<&str> = Arc::try_unwrap(arc).into();
    assert!(value.is_owned());

    let arc = Arc::new("World");
    let value: Value<&str> = Arc::try_unwrap(arc.clone()).into();
    assert!(value.is_shared());
}

#[test]
fn value_as_ref_reads_held_value() {
    let value = Value::Owned(7u8);
    assert_eq!(*value.as_ref(), 7u8);

    let value: Value<u8> = Value::Shared(Arc::new(9u8));
    assert_eq!(*value.as_ref(), 9u8);
}

#[test]
fn hold_from_unwrap_outcome() {
    let arc = Arc::new("Hello");
    let hold: Hold<&str> = Arc::try_unwrap(arc).into();
    assert!(hold.is_owned());
    assert_eq!(*hold.as_ref(), "Hello");

    let arc = Arc::new("World");
    let hold: Hold<&str> = Arc::try_unwrap(arc.clone()).into();
    assert!(hold.is_shared());
    assert_eq!(*hold.as_ref(), "World");
}

#[test]
fn try_into_snapshot_keeps_contents_both_ways() {
    let swap_map = SwapMap::<&str, i32>::from_pairs(vec![("key1", 42)]).expect("should be Ok");
    let extra = swap_map.snapshot();
    let shared = swap_map.try_into_snapshot();
    assert!(shared.is_shared());
    assert_eq!(shared.as_ref().get(&"key1"), Some(&42));
    drop(extra);

    let swap_map = SwapMap::<&str, i32>::from_pairs(vec![("key1", 42)]).expect("should be Ok");
    let owned = swap_map.try_into_snapshot();
    assert!(owned.is_owned());
    assert_eq!(owned.as_ref().get(&"key1"), Some(&42));
}

#[test]
fn share_map_dup_is_equal_but_independent() {
    let map = ShareMap::<String, u8>::try_from_iter(vec![
        ("key1".to_string(), 1),
        ("key2".to_string(), 2),
    ])
    .expect("should be ok");

    let copy = map.dup_map();
    assert_eq!(map, copy);

    drop(map);
    assert_eq!(copy.get(&"key1".to_string()), Some(&1));
}
