//! The lookup side of a map: an association from keys to slot numbers.
//!
//! A `KeyIndex` stores `(key, slot)` pairs in insertion order and never holds
//! two pairs with the same key. Point lookup walks the pairs and compares
//! keys with the key's own equality test, so a hit is exactly a key whose
//! view matches.

use vstd::prelude::*;

use crate::keys::Dup;
use crate::keys::ViewEq;
use crate::model::distinct_keys;
use crate::model::lemma_map_of_contains;
use crate::model::lemma_map_of_index;
use crate::model::map_of;

verus! {

/// Maps each key to the slot its value occupies in the arena.
#[derive(Debug)]
pub struct KeyIndex<K: ViewEq> {
    entries: Vec<(K, usize)>,
}

impl<K: ViewEq> KeyIndex<K> {
    /// The (key view, slot) pairs in insertion order.
    pub closed spec fn entries_seq(&self) -> Seq<(K::V, usize)> {
        Seq::new(self.entries@.len(), |i: int| ((self.entries@[i].0)@, self.entries@[i].1))
    }

    /// The key-to-slot map the entries describe.
    pub open spec fn slot_map(&self) -> Map<K::V, usize> {
        map_of(self.entries_seq())
    }

    /// Whether the index holds the key.
    pub open spec fn has_key(&self, k: K::V) -> bool {
        self.slot_map().contains_key(k)
    }

    /// A live index never holds two pairs with the same key.
    #[verifier::type_invariant]
    pub(crate) open spec fn inv(self) -> bool {
        distinct_keys(self.entries_seq())
    }

    /// An empty index.
    pub fn new() -> (r: Self)
        ensures
            r.entries_seq() == Seq::<(K::V, usize)>::empty(),
    {
        let r = KeyIndex { entries: Vec::new() };
        proof {
            assert(r.entries_seq() =~= Seq::<(K::V, usize)>::empty());
        }
        r
    }

    /// How many keys the index holds.
    pub fn len(&self) -> (r: usize)
        ensures
            r == self.entries_seq().len(),
    {
        self.entries.len()
    }

    /// Adds a key the index does not hold yet.
    pub fn push(&mut self, key: K, slot: usize)
        requires
            !old(self).has_key(key@),
        ensures
            final(self).entries_seq() == old(self).entries_seq().push((key@, slot)),
    {
        proof {
            use_type_invariant(&*self);
            lemma_map_of_contains(self.entries_seq(), key@);
        }
        let ghost before = self.entries_seq();
        // the entries are swapped out while they grow, so the invariant holds
        // at every intermediate point even if an allocation were to unwind
        let mut entries: Vec<(K, usize)> = Vec::new();
        core::mem::swap(&mut entries, &mut self.entries);
        proof {
            assert(distinct_keys(self.entries_seq()));
        }
        entries.push((key, slot));
        proof {
            let newseq = Seq::new(entries@.len(), |i: int| ((entries@[i].0)@, entries@[i].1));
            assert(newseq =~= before.push((key@, slot)));
            assert forall|i: int, j: int|
                0 <= i < j < newseq.len() implies (#[trigger] newseq[i]).0 != (
            #[trigger] newseq[j]).0 by {
                if j == newseq.len() - 1 {
                    assert(before[i].0 != key@);
                }
            }
            assert(distinct_keys(newseq));
        }
        self.entries = entries;
        proof {
            assert(self.entries_seq() =~= before.push((key@, slot)));
        }
    }

    /// Looks the key up, returning its slot when the index holds it.
    pub fn find(&self, key: &K) -> (r: Option<usize>)
        ensures
            r == if self.has_key(key@) {
                Some(self.slot_map()[key@])
            } else {
                None::<usize>
            },
    {
        proof {
            use_type_invariant(&*self);
        }
        let n = self.entries.len();
        let mut i: usize = 0;
        while i < n
            invariant
                n == self.entries@.len(),
                i <= n,
                distinct_keys(self.entries_seq()),
                forall|j: int| 0 <= j < i ==> (#[trigger] self.entries_seq()[j]).0 != key@,
            decreases n - i,
        {
            let hit = self.entries[i].0.view_eq(key);
            if hit {
                let slot = self.entries[i].1;
                proof {
                    assert(self.entries_seq()[i as int] == (key@, slot));
                    assert(forall|j: int|
                        i < j < self.entries_seq().len() ==> (#[trigger] self.entries_seq()[j]).0
                            != self.entries_seq()[i as int].0);
                    lemma_map_of_index(self.entries_seq(), i as int);
                }
                return Some(slot);
            }
            i += 1;
        }
        proof {
            lemma_map_of_contains(self.entries_seq(), key@);
        }
        None
    }

    /// Whether the index holds the key.
    pub fn contains_key(&self, key: &K) -> (r: bool)
        ensures
            r <==> self.has_key(key@),
    {
        self.find(key).is_some()
    }

    /// The key stored at the given position.
    pub fn key_at(&self, i: usize) -> (r: &K)
        requires
            i < self.entries_seq().len(),
        ensures
            r@ == self.entries_seq()[i as int].0,
    {
        &self.entries[i].0
    }

    /// The slot stored at the given position.
    pub fn slot_at(&self, i: usize) -> (r: usize)
        requires
            i < self.entries_seq().len(),
        ensures
            r == self.entries_seq()[i as int].1,
    {
        self.entries[i].1
    }

    /// A duplicate index holding duplicates of the keys, same slots.
    pub fn dup(&self) -> (r: Self) where K: Dup
        ensures
            r.entries_seq() == self.entries_seq(),
    {
        proof {
            use_type_invariant(&*self);
        }
        let n = self.entries.len();
        let mut entries: Vec<(K, usize)> = Vec::new();
        let mut i: usize = 0;
        while i < n
            invariant
                n == self.entries@.len(),
                i <= n,
                entries@.len() == i,
                forall|j: int|
                    0 <= j < i ==> ((#[trigger] entries@[j]).0@, entries@[j].1)
                        == self.entries_seq()[j],
            decreases n - i,
        {
            let key = self.entries[i].0.dup();
            let slot = self.entries[i].1;
            entries.push((key, slot));
            i += 1;
        }
        let r = KeyIndex { entries };
        proof {
            assert(r.entries_seq() =~= self.entries_seq());
        }
        r
    }

    /// Consumes the index and hands the keys back in insertion order.
    pub fn into_keys(self) -> (r: Vec<K>)
        ensures
            r@.len() == self.entries_seq().len(),
            forall|i: int| 0 <= i < r@.len() ==> (#[trigger] r@[i])@ == self.entries_seq()[i].0,
    {
        let ghost orig = self.entries_seq();
        let KeyIndex { entries } = self;
        let mut rest = entries;
        let mut keys: Vec<K> = Vec::new();
        while rest.len() > 0
            invariant
                keys@.len() + rest@.len() == orig.len(),
                forall|i: int| 0 <= i < keys@.len() ==> (#[trigger] keys@[i])@ == orig[i].0,
                forall|i: int|
                    0 <= i < rest@.len() ==> ((#[trigger] rest@[i]).0@, rest@[i].1) == orig[
                        keys@.len() + i
                    ],
            decreases rest@.len(),
        {
            let (key, _slot) = rest.remove(0);
            keys.push(key);
        }
        keys
    }
}

} // verus!
