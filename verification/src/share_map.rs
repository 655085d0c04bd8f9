//! An immutable map of shared values with stable handles.
//!
//! A `ShareMap` is a frozen snapshot built once from key-value pairs. Its
//! values live in a reference-counted arena, so `get_handle` can hand out
//! `Handle`s that stay valid after the map itself is gone. Construction is
//! either duplicate-checked (`try_from_iter`) or collapsing (`from_iter`),
//! where the last pair with a key wins.

use std::sync::Arc;
use vstd::prelude::*;

use crate::frozen_map::DuplicateKeyError;
use crate::frozen_map::FrozenMap;
use crate::handle::Handle;
use crate::keys::Dup;
use crate::keys::ViewEq;
use crate::model::collapse;
use crate::model::distinct_keys;
use crate::model::kv_views;
use crate::model::map_of;
use crate::model::map_view_eq;

verus! {

/// An immutable map of shared values, queryable and handing out handles.
#[derive(Debug)]
pub struct ShareMap<K: ViewEq, V> {
    inner: FrozenMap<K, V>,
}

impl<K: ViewEq, V> ShareMap<K, V> {
    /// The map's contents as (key view, value) pairs in insertion order.
    pub closed spec fn pairs(&self) -> Seq<(K::V, V)> {
        self.inner.pairs()
    }

    /// The keys in insertion order.
    pub open spec fn keys_seq(&self) -> Seq<K::V> {
        Seq::new(self.pairs().len(), |i: int| self.pairs()[i].0)
    }

    /// The values in slot order, which is insertion order.
    pub open spec fn values_seq(&self) -> Seq<V> {
        Seq::new(self.pairs().len(), |i: int| self.pairs()[i].1)
    }

    /// Builds a map from the pairs, rejecting any duplicate key.
    pub fn try_from_iter(pairs: Vec<(K, V)>) -> (r: Result<Self, DuplicateKeyError>)
        ensures
            match r {
                Ok(m) => distinct_keys(kv_views(pairs@)) && m.pairs() == kv_views(pairs@),
                Err(_) => !distinct_keys(kv_views(pairs@)),
            },
    {
        match FrozenMap::from_pairs(pairs) {
            Ok(inner) => Ok(ShareMap { inner }),
            Err(e) => Err(e),
        }
    }

    /// Builds a map from the pairs, collapsing duplicate keys: the first
    /// pair with a key decides its position, the last one its value.
    pub fn from_iter(pairs: Vec<(K, V)>) -> (m: Self)
        ensures
            m.pairs() == collapse(kv_views(pairs@)),
            distinct_keys(m.pairs()),
            m@ == map_of(kv_views(pairs@)),
    {
        ShareMap { inner: FrozenMap::from_pairs_collapse(pairs) }
    }

    /// The value stored under the key, if the map holds it.
    pub fn get<'a>(&'a self, key: &K) -> (r: Option<&'a V>)
        ensures
            match r {
                Some(v) => self@.contains_key(key@) && *v == self@[key@],
                None => !self@.contains_key(key@),
            },
    {
        self.inner.get(key)
    }

    /// A stable handle to the value stored under the key, if the map holds
    /// it. The handle shares ownership of the arena and outlives the map.
    pub fn get_handle(&self, key: &K) -> (r: Option<Handle<V>>)
        ensures
            match r {
                Some(h) => self@.contains_key(key@) && h.value() == self@[key@],
                None => !self@.contains_key(key@),
            },
    {
        self.inner.get_handle(key)
    }

    /// Whether the map holds the key.
    pub fn contains_key(&self, key: &K) -> (r: bool)
        ensures
            r <==> self@.contains_key(key@),
    {
        self.inner.contains_key(key)
    }

    /// How many pairs the map holds.
    pub fn len(&self) -> (r: usize)
        ensures
            r == self.pairs().len(),
    {
        self.inner.len()
    }

    /// Whether the map holds nothing.
    pub fn is_empty(&self) -> (r: bool)
        ensures
            r <==> self.pairs().len() == 0,
    {
        self.inner.is_empty()
    }

    /// The key at the given position, in insertion order.
    pub fn key_at(&self, i: usize) -> (r: &K)
        requires
            i < self.pairs().len(),
        ensures
            r@ == self.pairs()[i as int].0,
    {
        self.inner.key_at(i)
    }

    /// The value at the given slot, in insertion order.
    pub fn value_at(&self, i: usize) -> (r: &V)
        requires
            i < self.pairs().len(),
        ensures
            *r == self.pairs()[i as int].1,
    {
        self.inner.value_at(i)
    }

    /// The values in slot order, which is the order the pairs were given in.
    pub fn values(&self) -> (r: &Vec<V>)
        ensures
            r@ == self.values_seq(),
    {
        self.inner.values()
    }

    /// Consumes the map and hands its arena back, values in slot order.
    pub fn into_values(self) -> (r: Arc<Vec<V>>)
        ensures
            r@ == self.values_seq(),
    {
        self.inner.into_values()
    }

    /// The keys in insertion order.
    pub fn keys<'a>(&'a self) -> (r: Vec<&'a K>)
        ensures
            r@.len() == self.keys_seq().len(),
            forall|i: int| 0 <= i < r@.len() ==> (#[trigger] r@[i])@ == self.keys_seq()[i],
    {
        self.inner.keys()
    }

    /// Consumes the map and hands the keys back in insertion order.
    pub fn into_keys(self) -> (r: Vec<K>)
        ensures
            r@.len() == self.keys_seq().len(),
            forall|i: int| 0 <= i < r@.len() ==> (#[trigger] r@[i])@ == self.keys_seq()[i],
    {
        self.inner.into_keys()
    }

    /// A duplicate map: duplicated keys, the same shared arena.
    pub fn dup_map(&self) -> (r: Self) where K: Dup
        ensures
            r.pairs() == self.pairs(),
    {
        ShareMap { inner: self.inner.dup_map() }
    }
}

impl<K: ViewEq + Dup, V> Dup for ShareMap<K, V> {
    /// A duplicate map: duplicated keys, the same shared arena.
    fn dup(&self) -> (r: Self) {
        self.dup_map()
    }
}

impl<K: ViewEq, V> View for ShareMap<K, V> {
    type V = Map<K::V, V>;

    /// The map a `ShareMap` stands for: its pairs folded up.
    open spec fn view(&self) -> Map<K::V, V> {
        map_of(self.pairs())
    }
}

impl<K: ViewEq, V> Default for ShareMap<K, V> {
    /// An empty map.
    fn default() -> (r: Self)
        ensures
            r.pairs() == Seq::<(K::V, V)>::empty(),
    {
        ShareMap { inner: FrozenMap::default() }
    }
}

impl<K: ViewEq, V: ViewEq> PartialEq for ShareMap<K, V> {
    /// Two maps are equal when they hold the same keys and, key by key,
    /// values with equal views.
    fn eq(&self, other: &Self) -> (r: bool) {
        self.inner.map_eq(&other.inner)
    }
}

impl<K: ViewEq, V: ViewEq> vstd::std_specs::cmp::PartialEqSpecImpl for ShareMap<K, V> {
    open spec fn obeys_eq_spec() -> bool {
        true
    }

    open spec fn eq_spec(&self, other: &Self) -> bool {
        map_view_eq(self@, other@)
    }
}

} // verus!
