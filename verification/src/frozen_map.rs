//! The immutable snapshot at the heart of the crate.
//!
//! A `FrozenMap` couples a `KeyIndex` with a reference-counted arena of
//! values. It is built once — either checked, failing on a duplicate key, or
//! collapsing, where the last pair with a key wins — and never changes
//! afterwards. Every key maps to the slot its value occupies in the arena,
//! and slots are handed out in insertion order.

use std::sync::Arc;
use vstd::prelude::*;

use crate::handle::Handle;
use crate::index::KeyIndex;
use crate::keys::Dup;
use crate::keys::ViewEq;
use crate::model::collapse;
use crate::model::distinct_keys;
use crate::model::kv_views;
use crate::model::lemma_collapse;
use crate::model::lemma_map_of_contains;
use crate::model::lemma_map_of_distinct;
use crate::model::lemma_map_of_index;
use crate::model::map_view_eq;
use crate::model::map_of;
use crate::model::upsert;
use crate::value_ref::ValueRef;

verus! {

/// The error a duplicate-checked construction reports: two of the given
/// pairs carried the same key.
#[derive(Debug, Clone, Copy, PartialEq, Eq, Structural)]
pub struct DuplicateKeyError;

impl DuplicateKeyError {
    /// The error's description.
    pub fn message(&self) -> (r: String)
        ensures
            r@ == "duplicate key"@,
    {
        "duplicate key".to_owned()
    }
}

/// An immutable map of values, queryable and safe to share.
#[derive(Debug)]
pub struct FrozenMap<K: ViewEq, V> {
    index: KeyIndex<K>,
    store: Arc<Vec<V>>,
}

impl<K: ViewEq, V> FrozenMap<K, V> {
    /// The map's contents as (key view, value) pairs in insertion order.
    pub closed spec fn pairs(&self) -> Seq<(K::V, V)> {
        Seq::new(self.index.entries_seq().len(), |i: int| (self.index.entries_seq()[i].0, self.store@[i]))
    }

    /// The keys in insertion order.
    pub open spec fn keys_seq(&self) -> Seq<K::V> {
        Seq::new(self.pairs().len(), |i: int| self.pairs()[i].0)
    }

    /// The values in slot order, which is insertion order.
    pub open spec fn values_seq(&self) -> Seq<V> {
        Seq::new(self.pairs().len(), |i: int| self.pairs()[i].1)
    }

    #[verifier::type_invariant]
    spec fn inv(self) -> bool {
        &&& self.index.entries_seq().len() == self.store@.len()
        &&& forall|i: int|
            0 <= i < self.index.entries_seq().len() ==> (#[trigger] self.index.entries_seq()[i]).1
                == i
    }

    /// Ties the key-to-slot map to the pair view of the whole map.
    proof fn lemma_lookup(&self)
        requires
            self.index.entries_seq().len() == self.store@.len(),
            forall|i: int|
                0 <= i < self.index.entries_seq().len() ==> (
                #[trigger] self.index.entries_seq()[i]).1 == i,
            distinct_keys(self.index.entries_seq()),
        ensures
            distinct_keys(self.pairs()),
            forall|kv: K::V| #[trigger] self@.contains_key(kv) <==> self.index.has_key(kv),
            forall|kv: K::V|
                self.index.has_key(kv) ==> 0 <= #[trigger] self.index.slot_map()[kv]
                    < self.pairs().len() && self@[kv] == self.pairs()[self.index.slot_map()[
                    kv
                ] as int].1,
    {
        let es = self.index.entries_seq();
        let ps = self.pairs();
        assert(forall|i: int| 0 <= i < ps.len() ==> (#[trigger] ps[i]).0 == es[i].0);
        assert forall|i: int, j: int|
            0 <= i < j < ps.len() implies (#[trigger] ps[i]).0 != (#[trigger] ps[j]).0 by {
            assert(es[i].0 != es[j].0);
        }
        assert forall|kv: K::V| #[trigger]
            self@.contains_key(kv) <==> self.index.has_key(kv) by {
            lemma_map_of_contains(ps, kv);
            lemma_map_of_contains(es, kv);
            if exists|i: int| 0 <= i < ps.len() && (#[trigger] ps[i]).0 == kv {
                let i = choose|i: int| 0 <= i < ps.len() && (#[trigger] ps[i]).0 == kv;
                assert(es[i].0 == kv);
            }
            if exists|i: int| 0 <= i < es.len() && (#[trigger] es[i]).0 == kv {
                let i = choose|i: int| 0 <= i < es.len() && (#[trigger] es[i]).0 == kv;
                assert(ps[i].0 == kv);
            }
        }
        assert forall|kv: K::V| self.index.has_key(kv) implies 0 <= #[trigger] self.index.slot_map()[kv]
            < self.pairs().len() && self@[kv] == self.pairs()[self.index.slot_map()[kv] as int].1 by {
            lemma_map_of_contains(es, kv);
            let i = choose|i: int| 0 <= i < es.len() && (#[trigger] es[i]).0 == kv;
            assert(forall|j: int| i < j < es.len() ==> (#[trigger] es[j]).0 != es[i].0);
            lemma_map_of_index(es, i);
            assert(self.index.slot_map()[kv] == i);
            assert(ps[i].0 == kv);
            assert(forall|j: int| i < j < ps.len() ==> (#[trigger] ps[j]).0 != ps[i].0);
            lemma_map_of_index(ps, i);
        }
    }

    /// Builds a map from the pairs, rejecting any duplicate key.
    ///
    /// On success every pair is taken verbatim, in order; on failure no map
    /// is produced at all.
    pub fn from_pairs(pairs: Vec<(K, V)>) -> (r: Result<Self, DuplicateKeyError>)
        ensures
            match r {
                Ok(m) => distinct_keys(kv_views(pairs@)) && m.pairs() == kv_views(pairs@),
                Err(_) => !distinct_keys(kv_views(pairs@)),
            },
    {
        let ghost orig: Seq<(K, V)> = pairs@;
        let mut rest = pairs;
        let mut index: KeyIndex<K> = KeyIndex::new();
        let mut store: Vec<V> = Vec::new();
        while rest.len() > 0
            invariant
                orig == pairs@,
                store@.len() + rest@.len() == orig.len(),
                index.entries_seq().len() == store@.len(),
                rest@ == orig.subrange(store@.len() as int, orig.len() as int),
                forall|i: int|
                    0 <= i < store@.len() ==> (#[trigger] index.entries_seq()[i]).0 == (
                    orig[i].0)@ && index.entries_seq()[i].1 == i,
                forall|i: int| 0 <= i < store@.len() ==> #[trigger] store@[i] == orig[i].1,
            decreases rest@.len(),
        {
            let ghost p = store@.len() as int;
            let (key, value) = rest.remove(0);
            proof {
                assert(orig.subrange(p, orig.len() as int)[0] == orig[p]);
                assert(key == orig[p].0);
                assert(rest@ =~= orig.subrange(p + 1, orig.len() as int));
            }
            match index.find(&key) {
                Some(_) => {
                    proof {
                        lemma_map_of_contains(index.entries_seq(), key@);
                        let es = index.entries_seq();
                        let i = choose|i: int| 0 <= i < es.len() && es[i].0 == key@;
                        let s = kv_views(orig);
                        assert(es[i].0 == (orig[i].0)@);
                        assert(s[i].0 == (orig[i].0)@);
                        assert(s[p].0 == (orig[p].0)@);
                        assert(s[i].0 == s[p].0);
                        assert(0 <= i < p < s.len());
                        assert(!distinct_keys(s)) by {
                            if distinct_keys(s) {
                                assert(s[i].0 != s[p].0);
                            }
                        }
                    }
                    return Err(DuplicateKeyError);
                },
                None => {
                    let slot = store.len();
                    index.push(key, slot);
                    store.push(value);
                },
            }
        }
        let m = FrozenMap { index, store: Arc::new(store) };
        proof {
            use_type_invariant(&m.index);
            assert forall|i: int| 0 <= i < kv_views(orig).len() implies #[trigger] m.pairs()[i]
                == kv_views(orig)[i] by {
                assert(kv_views(orig)[i] == ((orig[i].0)@, orig[i].1));
            }
            assert(m.pairs() =~= kv_views(orig));
            assert forall|i: int, j: int|
                0 <= i < j < kv_views(orig).len() implies (#[trigger] kv_views(orig)[i]).0 != (
            #[trigger] kv_views(orig)[j]).0 by {
                assert(m.index.entries_seq()[i].0 != m.index.entries_seq()[j].0);
            }
        }
        Ok(m)
    }

    /// Builds a map from the pairs, collapsing duplicate keys.
    ///
    /// The first pair with a key decides where the key sits; the last pair
    /// with it decides the value — "last write wins".
    pub fn from_pairs_collapse(pairs: Vec<(K, V)>) -> (m: Self)
        ensures
            m.pairs() == collapse(kv_views(pairs@)),
            distinct_keys(m.pairs()),
            m@ == map_of(kv_views(pairs@)),
    {
        let ghost orig: Seq<(K, V)> = pairs@;
        let mut rest = pairs;
        let mut index: KeyIndex<K> = KeyIndex::new();
        let mut store: Vec<V> = Vec::new();
        while rest.len() > 0
            invariant
                orig == pairs@,
                rest@.len() <= orig.len(),
                rest@ == orig.subrange(orig.len() - rest@.len(), orig.len() as int),
                index.entries_seq().len() == store@.len(),
                forall|i: int|
                    0 <= i < store@.len() ==> (#[trigger] index.entries_seq()[i]).1 == i,
                Seq::new(store@.len(), |i: int| (index.entries_seq()[i].0, store@[i])) == collapse(
                    kv_views(orig.subrange(0, orig.len() - rest@.len())),
                ),
            decreases rest@.len(),
        {
            let ghost p = orig.len() - rest@.len();
            let ghost prefix = kv_views(orig.subrange(0, p));
            let ghost built = Seq::new(store@.len(), |i: int| (index.entries_seq()[i].0, store@[i]));
            proof {
                use_type_invariant(&index);
                lemma_collapse(prefix);
            }
            let (key, value) = rest.remove(0);
            proof {
                assert(orig.subrange(p, orig.len() as int)[0] == orig[p]);
                assert(key == orig[p].0);
                assert(rest@ =~= orig.subrange(p + 1, orig.len() as int));
                assert(kv_views(orig.subrange(0, p + 1)).drop_last() =~= prefix);
                assert(kv_views(orig.subrange(0, p + 1)).last() == (key@, value));
                assert(collapse(kv_views(orig.subrange(0, p + 1))) == upsert(
                    collapse(prefix),
                    key@,
                    value,
                ));
            }
            match index.find(&key) {
                Some(slot) => {
                    proof {
                        lemma_map_of_contains(index.entries_seq(), key@);
                        let i = choose|i: int|
                            0 <= i < index.entries_seq().len() && (#[trigger] index.entries_seq()[
                                i
                            ]).0 == key@;
                        assert(forall|j: int|
                            i < j < index.entries_seq().len() ==> (
                            #[trigger] index.entries_seq()[j]).0 != index.entries_seq()[i].0);
                        lemma_map_of_index(index.entries_seq(), i);
                        assert(slot == i);
                        assert(built[slot as int].0 == key@);
                        // the spec-side upsert picks some position with this
                        // key; distinctness pins it to the same slot
                        assert(exists|j: int|
                            0 <= j < built.len() && (#[trigger] built[j]).0 == key@);
                        let j = choose|j: int| 0 <= j < built.len() && (#[trigger] built[j]).0 == key@;
                        assert(index.entries_seq()[j].0 == key@);
                        assert(j == i);
                    }
                    store[slot] = value;
                    proof {
                        assert(Seq::new(store@.len(), |i: int| (index.entries_seq()[i].0, store@[i]))
                            =~= upsert(built, key@, value));
                    }
                },
                None => {
                    proof {
                        lemma_map_of_contains(index.entries_seq(), key@);
                        assert forall|j: int|
                            0 <= j < built.len() implies (#[trigger] built[j]).0 != key@ by {
                            assert(index.entries_seq()[j].0 != key@);
                        }
                    }
                    let slot = store.len();
                    index.push(key, slot);
                    store.push(value);
                    proof {
                        assert(Seq::new(store@.len(), |i: int| (index.entries_seq()[i].0, store@[i]))
                            =~= upsert(built, key@, value));
                    }
                },
            }
            proof {
                assert(orig.subrange(0, orig.len() - rest@.len()) =~= orig.subrange(0, p + 1));
            }
        }
        let m = FrozenMap { index, store: Arc::new(store) };
        proof {
            use_type_invariant(&m.index);
            assert(orig.subrange(0, orig.len() as int) =~= orig);
            assert(m.pairs() =~= collapse(kv_views(orig)));
            lemma_collapse(kv_views(orig));
        }
        m
    }

    /// The value stored under the key, if the map holds it.
    pub fn get<'a>(&'a self, key: &K) -> (r: Option<&'a V>)
        ensures
            match r {
                Some(v) => self@.contains_key(key@) && *v == self@[key@],
                None => !self@.contains_key(key@),
            },
    {
        proof {
            use_type_invariant(&*self);
            use_type_invariant(&self.index);
            self.lemma_lookup();
        }
        match self.index.find(key) {
            Some(slot) => {
                let store: &Vec<V> = &*self.store;
                Some(&store[slot])
            },
            None => None,
        }
    }

    /// A stable reference to the value stored under the key, if the map
    /// holds it. The reference shares ownership of the arena and outlives
    /// the map.
    pub fn get_value_ref(&self, key: &K) -> (r: Option<ValueRef<V>>)
        ensures
            match r {
                Some(h) => self@.contains_key(key@) && h.value() == self@[key@],
                None => !self@.contains_key(key@),
            },
    {
        proof {
            use_type_invariant(&*self);
            use_type_invariant(&self.index);
            self.lemma_lookup();
        }
        match self.index.find(key) {
            Some(slot) => Some(ValueRef::new(self.store.clone(), slot)),
            None => None,
        }
    }

    /// A stable handle to the value stored under the key, if the map holds
    /// it.
    pub(crate) fn get_handle(&self, key: &K) -> (r: Option<Handle<V>>)
        ensures
            match r {
                Some(h) => self@.contains_key(key@) && h.value() == self@[key@],
                None => !self@.contains_key(key@),
            },
    {
        proof {
            use_type_invariant(&*self);
            use_type_invariant(&self.index);
            self.lemma_lookup();
        }
        match self.index.find(key) {
            Some(slot) => Some(Handle::new(self.store.clone(), slot)),
            None => None,
        }
    }

    /// Whether this map and the other hold the same keys with equal values.
    pub fn map_eq(&self, other: &Self) -> (r: bool) where V: ViewEq
        ensures
            r <==> map_view_eq(self@, other@),
    {
        proof {
            use_type_invariant(&*self);
            use_type_invariant(&self.index);
            self.lemma_lookup();
            lemma_map_of_distinct(self.pairs());
        }
        let n = self.len();
        let mut i: usize = 0;
        while i < n
            invariant
                n == self.pairs().len(),
                i <= n,
                distinct_keys(self.pairs()),
                forall|ii: int|
                    0 <= ii < self.pairs().len() ==> self@.contains_key(
                        (#[trigger] self.pairs()[ii]).0,
                    ) && self@[self.pairs()[ii].0] == self.pairs()[ii].1,
                forall|ii: int|
                    0 <= ii < i ==> other@.contains_key((#[trigger] self.pairs()[ii]).0)
                        && (other@[self.pairs()[ii].0])@ == (self.pairs()[ii].1)@,
            decreases n - i,
        {
            let key = self.key_at(i);
            match other.get(key) {
                Some(v) => {
                    let mine = self.value_at(i);
                    if !mine.view_eq(v) {
                        proof {
                            assert(self@[self.pairs()[i as int].0] == self.pairs()[i as int].1);
                            assert(self@.dom().contains(self.pairs()[i as int].0));
                        }
                        return false;
                    }
                },
                None => {
                    proof {
                        assert(self@.dom().contains(self.pairs()[i as int].0));
                        assert(!other@.dom().contains(self.pairs()[i as int].0));
                    }
                    return false;
                },
            }
            i += 1;
        }
        let m = other.len();
        let ghost ops = other.pairs();
        let mut j: usize = 0;
        while j < m
            invariant
                m == other.pairs().len(),
                ops == other.pairs(),
                j <= m,
                distinct_keys(self.pairs()),
                forall|ii: int|
                    0 <= ii < self.pairs().len() ==> self@.contains_key(
                        (#[trigger] self.pairs()[ii]).0,
                    ) && self@[self.pairs()[ii].0] == self.pairs()[ii].1,
                forall|ii: int|
                    0 <= ii < self.pairs().len() ==> other@.contains_key(
                        (#[trigger] self.pairs()[ii]).0,
                    ) && (other@[self.pairs()[ii].0])@ == (self.pairs()[ii].1)@,
                forall|jj: int|
                    0 <= jj < j ==> self@.contains_key((#[trigger] other.pairs()[jj]).0),
            decreases m - j,
        {
            let key = other.key_at(j);
            let hit = self.contains_key(key);
            if !hit {
                proof {
                    lemma_map_of_contains(other.pairs(), other.pairs()[j as int].0);
                    assert(other@.dom().contains(other.pairs()[j as int].0));
                }
                return false;
            }
            j += 1;
        }
        proof {
            assert forall|k: K::V| #[trigger] self@.dom().contains(k) implies other@.dom().contains(
                k,
            ) by {
                lemma_map_of_contains(self.pairs(), k);
                let ii = choose|ii: int|
                    0 <= ii < self.pairs().len() && (#[trigger] self.pairs()[ii]).0 == k;
            }
            assert forall|k: K::V| #[trigger] other@.dom().contains(k) implies self@.dom().contains(
                k,
            ) by {
                lemma_map_of_contains(other.pairs(), k);
                let jj = choose|jj: int|
                    0 <= jj < other.pairs().len() && (#[trigger] other.pairs()[jj]).0 == k;
            }
            assert(self@.dom() =~= other@.dom());
            assert forall|k: K::V| self@.dom().contains(k) implies (#[trigger] self@[k])@ == (
            other@[k])@ by {
                lemma_map_of_contains(self.pairs(), k);
                let ii = choose|ii: int|
                    0 <= ii < self.pairs().len() && (#[trigger] self.pairs()[ii]).0 == k;
                assert(self@[k] == self.pairs()[ii].1);
            }
        }
        true
    }

    /// Whether the map holds the key.
    pub fn contains_key(&self, key: &K) -> (r: bool)
        ensures
            r <==> self@.contains_key(key@),
    {
        proof {
            use_type_invariant(&*self);
            use_type_invariant(&self.index);
            self.lemma_lookup();
        }
        self.index.contains_key(key)
    }

    /// How many pairs the map holds.
    pub fn len(&self) -> (r: usize)
        ensures
            r == self.pairs().len(),
    {
        proof {
            use_type_invariant(&*self);
        }
        self.index.len()
    }

    /// Whether the map holds nothing.
    pub fn is_empty(&self) -> (r: bool)
        ensures
            r <==> self.pairs().len() == 0,
    {
        self.len() == 0
    }

    /// The key at the given position, in insertion order.
    pub fn key_at(&self, i: usize) -> (r: &K)
        requires
            i < self.pairs().len(),
        ensures
            r@ == self.pairs()[i as int].0,
    {
        proof {
            use_type_invariant(&*self);
        }
        self.index.key_at(i)
    }

    /// The value at the given slot, in insertion order.
    pub fn value_at(&self, i: usize) -> (r: &V)
        requires
            i < self.pairs().len(),
        ensures
            *r == self.pairs()[i as int].1,
    {
        proof {
            use_type_invariant(&*self);
        }
        let store: &Vec<V> = &*self.store;
        &store[i]
    }

    /// The values in slot order, which is the order the pairs were given in.
    pub fn values(&self) -> (r: &Vec<V>)
        ensures
            r@ == self.values_seq(),
    {
        proof {
            use_type_invariant(&*self);
            assert(self.store@ =~= self.values_seq());
        }
        &*self.store
    }

    /// Consumes the map and hands its arena back, values in slot order.
    pub fn into_values(self) -> (r: Arc<Vec<V>>)
        ensures
            r@ == self.values_seq(),
    {
        proof {
            use_type_invariant(&self);
            assert(self.store@ =~= self.values_seq());
        }
        let FrozenMap { index: _, store } = self;
        store
    }

    /// The keys in insertion order.
    pub fn keys<'a>(&'a self) -> (r: Vec<&'a K>)
        ensures
            r@.len() == self.keys_seq().len(),
            forall|i: int| 0 <= i < r@.len() ==> (#[trigger] r@[i])@ == self.keys_seq()[i],
    {
        proof {
            use_type_invariant(&*self);
        }
        let n = self.index.len();
        let mut keys: Vec<&'a K> = Vec::new();
        let mut i: usize = 0;
        while i < n
            invariant
                n == self.pairs().len(),
                n == self.index.entries_seq().len(),
                i <= n,
                keys@.len() == i,
                forall|j: int| 0 <= j < i ==> (#[trigger] keys@[j])@ == self.keys_seq()[j],
            decreases n - i,
        {
            keys.push(self.index.key_at(i));
            i += 1;
        }
        keys
    }

    /// Consumes the map and hands the keys back in insertion order.
    pub fn into_keys(self) -> (r: Vec<K>)
        ensures
            r@.len() == self.keys_seq().len(),
            forall|i: int| 0 <= i < r@.len() ==> (#[trigger] r@[i])@ == self.keys_seq()[i],
    {
        proof {
            use_type_invariant(&self);
        }
        let FrozenMap { index, store: _ } = self;
        index.into_keys()
    }

    /// A duplicate map: duplicated keys, the same shared arena.
    pub fn dup_map(&self) -> (r: Self) where K: Dup
        ensures
            r.pairs() == self.pairs(),
    {
        proof {
            use_type_invariant(&*self);
        }
        let r = FrozenMap { index: self.index.dup(), store: self.store.clone() };
        proof {
            assert(r.pairs() =~= self.pairs());
        }
        r
    }
}

impl<K: ViewEq + Dup, V> Dup for FrozenMap<K, V> {
    /// A duplicate snapshot: duplicated keys, the same shared arena.
    fn dup(&self) -> (r: Self) {
        self.dup_map()
    }
}

impl<K: ViewEq, V> View for FrozenMap<K, V> {
    type V = Map<K::V, V>;

    /// The map a `FrozenMap` stands for: its pairs folded up, later pairs
    /// winning — though a well-formed map never holds a key twice.
    open spec fn view(&self) -> Map<K::V, V> {
        map_of(self.pairs())
    }
}

impl<K: ViewEq, V> Default for FrozenMap<K, V> {
    /// An empty map.
    fn default() -> (r: Self)
        ensures
            r.pairs() == Seq::<(K::V, V)>::empty(),
    {
        let r = FrozenMap { index: KeyIndex::new(), store: Arc::new(Vec::new()) };
        proof {
            assert(r.pairs() =~= Seq::<(K::V, V)>::empty());
        }
        r
    }
}

} // verus!
