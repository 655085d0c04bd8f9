use std::collections::BTreeMap;

use share_map::FrozenMap;
use share_map::ShareMap;

#[test]
fn borrow_iter_matches_btreemap() {
    let btree_map = BTreeMap::from([("key1", 42), ("key2", 100)]);
    let map: ShareMap<&str, i32> =
        ShareMap::try_from_iter(btree_map.clone().into_iter().collect()).expect("should be ok");

    let mut swap_vec: Vec<(&str, i32)> = Vec::new();
    let mut iter = map.iter();
    while let Some((k, v)) = iter.next() {
        swap_vec.push((*k, *v));
    }
    let btree_vec: Vec<(&str, i32)> = btree_map.into_iter().collect();

    assert_eq!(swap_vec, btree_vec);
}

#[test]
fn borrow_iter_size_hint_len_fused_trait_are_correct() {
    let map = ShareMap::<_, _>::try_from_iter(vec![(15, 42), (23, 100)]).expect("should be ok");
    let mut iter = map.iter();

    let mut len = 2;
    while len >= 1 {
        assert_eq!(iter.len(), len);
        assert_eq!(iter.size_hint(), (len, Some(len)));

        iter.next();
        len -= 1;
    }

    assert_eq!(iter.next(), None);
    assert_eq!(iter.next(), None); // an exhausted walk keeps answering None
}

#[test]
fn borrow_iter_test_borrow_iter() {
    let snapshot = FrozenMap::<i32, i32>::from_pairs(vec![(15, 42), (23, 100)])
        .expect("should be Ok");
    let mut iter = snapshot.iter();

    let mut pairs: Vec<(i32, i32)> = Vec::new();
    while let Some((k, v)) = iter.next() {
        pairs.push((*k, *v));
    }

    assert_eq!(pairs, vec![(15, 42), (23, 100)]);
}

#[test]
fn borrow_iter_test_borrow_iter_size_hint_len_fused_trait() {
    let snapshot = FrozenMap::<i32, i32>::from_pairs(vec![(15, 42), (23, 100)])
        .expect("should be Ok");
    let mut iter = snapshot.iter();

    let mut len = 2;
    while len >= 1 {
        assert_eq!(iter.len(), len);
        assert_eq!(iter.size_hint(), (len, Some(len)));

        iter.next();
        len -= 1;
    }

    assert_eq!(iter.next(), None);
    assert_eq!(iter.next(), None); // an exhausted walk keeps answering None
}

#[test]
fn test_into_iter() {
    let mut iter = FrozenMap::<i32, i32>::from_pairs(vec![(15, 42), (23, 100)])
        .expect("should be Ok")
        .into_iter();

    let mut pairs: Vec<(i32, i32)> = Vec::new();
    while let Some(p) = iter.next() {
        pairs.push(p);
    }

    assert_eq!(pairs, vec![(15, 42), (23, 100)]);
}

#[test]
fn test_into_iter_size_hint_len_fused_trait() {
    let mut iter = FrozenMap::<i32, i32>::from_pairs(vec![(15, 42), (23, 100)])
        .expect("should be Ok")
        .into_iter();

    let mut len = 2;
    while len >= 1 {
        assert_eq!(iter.len(), len);
        assert_eq!(iter.size_hint(), (len, Some(len)));

        iter.next();
        len -= 1;
    }

    assert_eq!(iter.next(), None);
    assert_eq!(iter.next(), None); // an exhausted walk keeps answering None
}

#[test]
fn iter_is_restartable() {
    let map = ShareMap::<_, _>::try_from_iter(vec![(1, 10), (2, 20)]).expect("should be ok");

    let mut first = map.iter();
    assert_eq!(first.next(), Some((&1, &10)));
    assert_eq!(first.next(), Some((&2, &20)));
    assert_eq!(first.next(), None);

    // a fresh walk starts over from the first pair
    let mut second = map.iter();
    assert_eq!(second.next(), Some((&1, &10)));
}

#[test]
fn iter_test_borrow_iter() {
    let btree_map = BTreeMap::from([("key1", 42), ("key2", 100)]);
    let snapshot = FrozenMap::<&str, i32>::from_pairs(btree_map.clone().into_iter().collect())
        .expect("should be Ok");

    let mut swap_vec: Vec<(&str, i32)> = Vec::new();
    let mut iter = snapshot.iter();
    while let Some((k, v)) = iter.next() {
        swap_vec.push((*k, *v));
    }
    let btree_vec: Vec<(&str, i32)> = btree_map.into_iter().collect();

    assert_eq!(swap_vec, btree_vec);
}

#[test]
fn iter_test_borrow_iter_size_hint_len_fused_trait() {
    let snapshot = FrozenMap::<i32, i32>::from_pairs(vec![(15, 42), (23, 100)])
        .expect("should be Ok");
    let mut iter = snapshot.iter();

    let mut len = 2;
    while len >= 1 {
        assert_eq!(iter.len(), len);
        assert_eq!(iter.size_hint(), (len, Some(len)));

        iter.next();
        len -= 1;
    }

    assert_eq!(iter.next(), None);
    assert_eq!(iter.next(), None); // an exhausted walk keeps answering None
}
