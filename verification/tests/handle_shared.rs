use share_map::Handle;
use share_map::ShareMap;
use share_map::SwapMap;

#[test]
fn tests_deref_matches_value() {
    let value = 42;

    let handle = ShareMap::<_, _>::try_from_iter(vec![("key1", value)])
        .expect("should be Ok")
        .get_handle(&"key1")
        .expect("should be Some");

    assert_eq!(*handle.get(), value);
}

#[test]
fn tests_cloned_value_matches() {
    let value = "hello world";

    let handle = ShareMap::<_, _>::try_from_iter(vec![("key1", value)])
        .expect("should be Ok")
        .get_handle(&"key1")
        .expect("should be Some");

    let cloned_handle = handle.clone();

    assert!(Handle::eq(&cloned_handle, &handle));
    assert_eq!(*cloned_handle.get(), *handle.get());
    assert!(Handle::eq(&cloned_handle, &handle));
}

#[test]
fn tests_cloned_handle_eq() {
    let value = "hello world";

    let handle = ShareMap::<_, _>::try_from_iter(vec![("key1", value)])
        .expect("should be Ok")
        .get_handle(&"key1")
        .expect("should be Some");

    let cloned_handle = handle.clone();

    assert!(Handle::ref_eq(&cloned_handle, &handle));
}

#[test]
fn tests_eq_ne_same_ref() {
    let value = 42;

    let map = ShareMap::<_, _>::try_from_iter(vec![("key1", value)]).expect("should be Ok");

    let handle1 = map.get_handle(&"key1").expect("should be Some");
    let handle2 = map.get_handle(&"key1").expect("should be Some");

    assert!(Handle::eq(&handle1, &handle2));
    assert!(!Handle::ne(&handle1, &handle2));
    assert_eq!(*handle1.get(), *handle2.get());
    assert!(Handle::ref_eq(&handle1, &handle2));
}

#[test]
fn tests_eq_ne_different_ref_same_value() {
    let value = 42;

    let handle1 = ShareMap::<_, _>::try_from_iter(vec![("key1", value)])
        .expect("should be Ok")
        .get_handle(&"key1")
        .expect("should be Some");
    let handle2 = ShareMap::<_, _>::try_from_iter(vec![("key1", value)])
        .expect("should be Ok")
        .get_handle(&"key1")
        .expect("should be Some");

    assert!(Handle::eq(&handle1, &handle2));
    assert!(!Handle::ne(&handle1, &handle2));
    assert_eq!(*handle1.get(), *handle2.get());
    assert!(!Handle::ref_eq(&handle1, &handle2));
}

#[test]
fn tests_ref_eq_ne_same_ref() {
    let value = 42;

    let map = ShareMap::<_, _>::try_from_iter(vec![("key1", value)]).expect("should be Ok");

    let handle1 = map.get_handle(&"key1").expect("should be Some");
    let handle2 = map.get_handle(&"key1").expect("should be Some");

    assert!(Handle::ref_eq(&handle1, &handle2));
    assert!(!Handle::ref_ne(&handle1, &handle2));
}

#[test]
fn tests_ref_eq_different_ref_same_value() {
    let value = 42;

    let handle1 = ShareMap::<_, _>::try_from_iter(vec![("key1", value)])
        .expect("should be Ok")
        .get_handle(&"key1")
        .expect("should be Some");
    let handle2 = ShareMap::<_, _>::try_from_iter(vec![("key1", value)])
        .expect("should be Ok")
        .get_handle(&"key1")
        .expect("should be Some");

    assert!(!Handle::ref_eq(&handle1, &handle2));
    assert!(Handle::ref_ne(&handle1, &handle2));
}

#[test]
fn deref() {
    let mut map: SwapMap<&str, i32> = SwapMap::new();
    map.store(vec![("key1", 42)]).expect("should be Ok");
    let value_ref = map.get(&"key1").expect("key not found");

    assert_eq!(*value_ref.get(), 42);
}
