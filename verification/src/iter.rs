//! A borrowing walk over a `ShareMap`'s pairs.
//!
//! The walk hands the pairs out in insertion order, one per step, and ends
//! with `None` once every pair has been seen.

use vstd::prelude::*;

use crate::keys::ViewEq;
use crate::share_map::ShareMap;

verus! {

/// A borrowed iterator over the key-value pairs of a `ShareMap`.
pub struct Iter<'a, K: ViewEq, V> {
    map: &'a ShareMap<K, V>,
    pos: usize,
}

impl<'a, K: ViewEq, V> Iter<'a, K, V> {
    /// The map being walked.
    pub closed spec fn map_spec(&self) -> ShareMap<K, V> {
        *self.map
    }

    /// How many pairs have been handed out so far.
    pub closed spec fn at(&self) -> int {
        self.pos as int
    }

    #[verifier::type_invariant]
    spec fn inv(self) -> bool {
        self.pos <= self.map.pairs().len()
    }

    pub(crate) fn new(map: &'a ShareMap<K, V>) -> (r: Self)
        ensures
            r.map_spec() == *map,
            r.at() == 0,
    {
        Iter { map, pos: 0 }
    }

    /// The next pair in insertion order, or `None` when the walk is done.
    pub fn next(&mut self) -> (r: Option<(&'a K, &'a V)>)
        ensures
            final(self).map_spec() == old(self).map_spec(),
            old(self).at() < old(self).map_spec().pairs().len() ==> final(self).at() == old(
                self,
            ).at() + 1 && (r matches Some(p) && p.0@ == old(self).map_spec().pairs()[old(
                self,
            ).at()].0 && *p.1 == old(self).map_spec().pairs()[old(self).at()].1),
            old(self).at() >= old(self).map_spec().pairs().len() ==> r is None && final(self).at()
                == old(self).at(),
    {
        proof {
            use_type_invariant(&*self);
        }
        let map: &'a ShareMap<K, V> = self.map;
        if self.pos < map.len() {
            let key = map.key_at(self.pos);
            let value = map.value_at(self.pos);
            self.pos = self.pos + 1;
            Some((key, value))
        } else {
            None
        }
    }

    /// How many pairs are still to come.
    pub fn len(&self) -> (r: usize)
        ensures
            r == self.map_spec().pairs().len() - self.at(),
    {
        proof {
            use_type_invariant(&*self);
        }
        let map: &'a ShareMap<K, V> = self.map;
        map.len() - self.pos
    }

    /// The exact bounds on how many pairs are still to come.
    pub fn size_hint(&self) -> (r: (usize, Option<usize>))
        ensures
            r.0 == self.map_spec().pairs().len() - self.at(),
            r.1 matches Some(n) && n == self.map_spec().pairs().len() - self.at(),
    {
        let n = self.len();
        (n, Some(n))
    }
}

impl<K: ViewEq, V> ShareMap<K, V> {
    /// Walks the map's pairs in insertion order.
    pub fn iter<'a>(&'a self) -> (r: Iter<'a, K, V>)
        ensures
            r.map_spec() == *self,
            r.at() == 0,
    {
        Iter::new(self)
    }
}

} // verus!
