//! The holder that swaps whole snapshots in and out.
//!
//! A `SwapMap` holds a counted pointer to the current `FrozenMap`. Reads go
//! against that snapshot; `store` and `swap` build a brand-new snapshot from
//! the given pairs and replace the pointer wholesale — a failed build leaves
//! the holder exactly as it was. Snapshots and value references handed out
//! earlier keep reading the contents they were created from, whatever the
//! holder does afterwards.

use std::sync::Arc;
use vstd::prelude::*;

use crate::arc_specs::arc_into_inner;
use crate::arc_specs::arc_try_unwrap;
use crate::frozen_map::DuplicateKeyError;
use crate::frozen_map::FrozenMap;
use crate::keys::Dup;
use crate::keys::ViewEq;
use crate::model::distinct_keys;
use crate::model::kv_views;
use crate::model::map_of;
use crate::value::Value;
use crate::value_ref::ValueRef;

verus! {

/// A holder whose whole contents can be replaced at once.
#[derive(Debug)]
pub struct SwapMap<K: ViewEq, V> {
    current: Arc<FrozenMap<K, V>>,
}

impl<K: ViewEq, V> SwapMap<K, V> {
    /// The snapshot the holder currently points at.
    pub closed spec fn snapshot_spec(&self) -> FrozenMap<K, V> {
        *self.current
    }

    /// The current contents as (key view, value) pairs in insertion order.
    pub open spec fn pairs(&self) -> Seq<(K::V, V)> {
        self.snapshot_spec().pairs()
    }

    /// An empty holder.
    pub fn new() -> (r: Self)
        ensures
            r.pairs() == Seq::<(K::V, V)>::empty(),
    {
        SwapMap { current: Arc::new(FrozenMap::default()) }
    }

    /// Builds a holder from the pairs, rejecting any duplicate key.
    pub fn from_pairs(pairs: Vec<(K, V)>) -> (r: Result<Self, DuplicateKeyError>)
        ensures
            match r {
                Ok(m) => distinct_keys(kv_views(pairs@)) && m.pairs() == kv_views(pairs@),
                Err(_) => !distinct_keys(kv_views(pairs@)),
            },
    {
        match FrozenMap::from_pairs(pairs) {
            Ok(snapshot) => Ok(SwapMap { current: Arc::new(snapshot) }),
            Err(e) => Err(e),
        }
    }

    /// Builds a holder from pairs known to carry no duplicate key, as a map
    /// handed over from elsewhere does.
    pub fn from_map(pairs: Vec<(K, V)>) -> (r: Self)
        requires
            distinct_keys(kv_views(pairs@)),
        ensures
            r.pairs() == kv_views(pairs@),
    {
        match Self::from_pairs(pairs) {
            Ok(m) => m,
            Err(_) => vstd::pervasive::unreached(),
        }
    }

    /// Replaces the whole contents with a snapshot built from the pairs.
    ///
    /// On a duplicate key nothing is replaced: the holder still points at
    /// the snapshot it pointed at before.
    pub fn store(&mut self, pairs: Vec<(K, V)>) -> (r: Result<(), DuplicateKeyError>)
        ensures
            match r {
                Ok(_) => distinct_keys(kv_views(pairs@)) && final(self).pairs() == kv_views(
                    pairs@,
                ),
                Err(_) => !distinct_keys(kv_views(pairs@)) && final(self).snapshot_spec() == old(
                    self,
                ).snapshot_spec(),
            },
    {
        match FrozenMap::from_pairs(pairs) {
            Ok(snapshot) => {
                self.current = Arc::new(snapshot);
                Ok(())
            },
            Err(e) => Err(e),
        }
    }

    /// Replaces the whole contents with a snapshot built from the pairs and
    /// hands the previous snapshot back.
    ///
    /// On a duplicate key nothing is replaced and nothing is handed back:
    /// the holder still points at the snapshot it pointed at before.
    pub fn swap(&mut self, pairs: Vec<(K, V)>) -> (r: Result<
        Arc<FrozenMap<K, V>>,
        DuplicateKeyError,
    >)
        ensures
            match r {
                Ok(prev) => distinct_keys(kv_views(pairs@)) && final(self).pairs() == kv_views(
                    pairs@,
                ) && *prev == old(self).snapshot_spec(),
                Err(_) => !distinct_keys(kv_views(pairs@)) && final(self).snapshot_spec() == old(
                    self,
                ).snapshot_spec(),
            },
    {
        match FrozenMap::from_pairs(pairs) {
            Ok(snapshot) => {
                let mut prev = Arc::new(snapshot);
                core::mem::swap(&mut prev, &mut self.current);
                Ok(prev)
            },
            Err(e) => Err(e),
        }
    }

    /// A counted pointer to the current snapshot. It stays valid and keeps
    /// its contents however the holder is changed or dropped afterwards.
    pub fn snapshot(&self) -> (r: Arc<FrozenMap<K, V>>)
        ensures
            *r == self.snapshot_spec(),
    {
        self.current.clone()
    }

    /// Consumes the holder; returns the snapshot only when nothing else
    /// shares it.
    pub fn into_snapshot(self) -> (r: Option<FrozenMap<K, V>>)
        ensures
            r matches Some(m) ==> m == self.snapshot_spec(),
    {
        let SwapMap { current } = self;
        arc_into_inner(current)
    }

    /// Consumes the holder; returns the snapshot owned when nothing else
    /// shares it, and still shared otherwise. Either way the caller gets
    /// the current contents.
    pub fn try_into_snapshot(self) -> (r: Value<FrozenMap<K, V>>)
        ensures
            r.value() == self.snapshot_spec(),
    {
        let SwapMap { current } = self;
        match arc_try_unwrap(current) {
            Ok(snapshot) => Value::Owned(snapshot),
            Err(shared) => Value::Shared(shared),
        }
    }

    /// Consumes the holder; returns the snapshot owned, duplicating it only
    /// when something else still shares it.
    pub fn into_snapshot_or_clone(self) -> (r: FrozenMap<K, V>) where K: Dup
        ensures
            r.pairs() == self.pairs(),
    {
        let SwapMap { current } = self;
        match arc_try_unwrap(current) {
            Ok(snapshot) => snapshot,
            Err(shared) => {
                let snapshot: &FrozenMap<K, V> = &*shared;
                snapshot.dup_map()
            },
        }
    }

    /// A stable reference to the value stored under the key in the current
    /// snapshot, if it holds the key. The reference keeps reading that
    /// snapshot's value whatever the holder does afterwards.
    pub fn get(&self, key: &K) -> (r: Option<ValueRef<V>>)
        ensures
            match r {
                Some(h) => self@.contains_key(key@) && h.value() == self@[key@],
                None => !self@.contains_key(key@),
            },
    {
        let snapshot: &FrozenMap<K, V> = &*self.current;
        snapshot.get_value_ref(key)
    }

    /// Whether the current snapshot holds the key.
    pub fn contains_key(&self, key: &K) -> (r: bool)
        ensures
            r <==> self@.contains_key(key@),
    {
        let snapshot: &FrozenMap<K, V> = &*self.current;
        snapshot.contains_key(key)
    }

    /// How many pairs the current snapshot holds.
    pub fn len(&self) -> (r: usize)
        ensures
            r == self.pairs().len(),
    {
        let snapshot: &FrozenMap<K, V> = &*self.current;
        snapshot.len()
    }

    /// Whether the current snapshot holds nothing.
    pub fn is_empty(&self) -> (r: bool)
        ensures
            r <==> self.pairs().len() == 0,
    {
        let snapshot: &FrozenMap<K, V> = &*self.current;
        snapshot.is_empty()
    }
}

impl<K: ViewEq, V> View for SwapMap<K, V> {
    type V = Map<K::V, V>;

    /// The map the holder currently stands for.
    open spec fn view(&self) -> Map<K::V, V> {
        map_of(self.pairs())
    }
}

impl<K: ViewEq, V> Default for SwapMap<K, V> {
    /// An empty holder.
    fn default() -> (r: Self)
        ensures
            r.pairs() == Seq::<(K::V, V)>::empty(),
    {
        SwapMap::new()
    }
}

} // verus!
