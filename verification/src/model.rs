//! The mathematical model of the maps in this crate.
//!
//! A map's contents are modelled as a sequence of `(key view, value)` pairs in
//! insertion order. `map_of` folds such a sequence into a `Map`, with a later
//! pair overriding an earlier one with the same key ("last write wins").
//! `collapse` describes the compacted sequence that the lossy construction
//! path produces: first occurrence decides the position, the last value wins.

use vstd::prelude::*;

verus! {

/// The view of a pair sequence: each key is replaced by its view, values stay.
pub open spec fn kv_views<K: View, V>(s: Seq<(K, V)>) -> Seq<(K::V, V)> {
    s.map(|i: int, p: (K, V)| (p.0@, p.1))
}

/// Whether no two pairs of the sequence carry the same key.
pub open spec fn distinct_keys<KV, V>(s: Seq<(KV, V)>) -> bool {
    forall|i: int, j: int| 0 <= i < j < s.len() ==> #[trigger] s[i].0 != #[trigger] s[j].0
}

/// The map a pair sequence describes; a later pair wins over an earlier one
/// with the same key.
pub open spec fn map_of<KV, V>(s: Seq<(KV, V)>) -> Map<KV, V>
    decreases s.len(),
{
    if s.len() == 0 {
        Map::empty()
    } else {
        map_of(s.drop_last()).insert(s.last().0, s.last().1)
    }
}

/// A key is in `map_of(s)` exactly when some pair of `s` carries it.
pub proof fn lemma_map_of_contains<KV, V>(s: Seq<(KV, V)>, k: KV)
    ensures
        map_of(s).contains_key(k) <==> exists|i: int| 0 <= i < s.len() && s[i].0 == k,
    decreases s.len(),
{
    if s.len() > 0 {
        lemma_map_of_contains(s.drop_last(), k);
        if map_of(s).contains_key(k) {
            if s.last().0 == k {
                assert(s[s.len() - 1].0 == k);
            } else {
                let i = choose|i: int| 0 <= i < s.drop_last().len() && s.drop_last()[i].0 == k;
                assert(s[i].0 == k);
            }
        }
        if exists|i: int| 0 <= i < s.len() && s[i].0 == k {
            let i = choose|i: int| 0 <= i < s.len() && s[i].0 == k;
            if i < s.len() - 1 {
                assert(s.drop_last()[i].0 == k);
            }
        }
    }
}

/// The pair at `i` decides the key's value when no later pair repeats its key.
pub proof fn lemma_map_of_index<KV, V>(s: Seq<(KV, V)>, i: int)
    requires
        0 <= i < s.len(),
        forall|j: int| i < j < s.len() ==> (#[trigger] s[j]).0 != s[i].0,
    ensures
        map_of(s).contains_key(s[i].0),
        map_of(s)[s[i].0] == s[i].1,
    decreases s.len(),
{
    if i == s.len() - 1 {
    } else {
        assert(forall|j: int|
            i < j < s.drop_last().len() ==> (#[trigger] s.drop_last()[j]).0 != s.drop_last()[i].0);
        lemma_map_of_index(s.drop_last(), i);
    }
}

/// With all keys distinct, every pair of the sequence is read back verbatim.
pub proof fn lemma_map_of_distinct<KV, V>(s: Seq<(KV, V)>)
    requires
        distinct_keys(s),
    ensures
        forall|i: int|
            0 <= i < s.len() ==> map_of(s).contains_key((#[trigger] s[i]).0) && map_of(s)[s[i].0]
                == s[i].1,
{
    assert forall|i: int| 0 <= i < s.len() implies map_of(s).contains_key((#[trigger] s[i]).0)
        && map_of(s)[s[i].0] == s[i].1 by {
        lemma_map_of_index(s, i);
    }
}

/// Replacing one pair's value with a distinct-key sequence replaces exactly
/// that key's entry in the map.
pub proof fn lemma_map_of_update<KV, V>(s: Seq<(KV, V)>, i: int, v: V)
    requires
        distinct_keys(s),
        0 <= i < s.len(),
    ensures
        map_of(s.update(i, (s[i].0, v))) == map_of(s).insert(s[i].0, v),
    decreases s.len(),
{
    let t = s.update(i, (s[i].0, v));
    if i == s.len() - 1 {
        assert(t.drop_last() =~= s.drop_last());
        assert(map_of(t) =~= map_of(s).insert(s[i].0, v));
    } else {
        assert(t.drop_last() =~= s.drop_last().update(i, (s[i].0, v)));
        lemma_map_of_update(s.drop_last(), i, v);
        // the last key differs from the updated one, so the two inserts commute
        assert(s.last().0 != s[i].0);
        assert(map_of(t) =~= map_of(s).insert(s[i].0, v));
    }
}

/// Replaces the value where the key already occurs; appends otherwise.
pub open spec fn upsert<KV, V>(s: Seq<(KV, V)>, k: KV, v: V) -> Seq<(KV, V)> {
    if exists|i: int| 0 <= i < s.len() && (#[trigger] s[i]).0 == k {
        let i = choose|i: int| 0 <= i < s.len() && (#[trigger] s[i]).0 == k;
        s.update(i, (k, v))
    } else {
        s.push((k, v))
    }
}

/// The compacted form of a pair sequence: the first occurrence of a key
/// decides its position, the last occurrence decides its value.
pub open spec fn collapse<KV, V>(s: Seq<(KV, V)>) -> Seq<(KV, V)>
    decreases s.len(),
{
    if s.len() == 0 {
        Seq::empty()
    } else {
        upsert(collapse(s.drop_last()), s.last().0, s.last().1)
    }
}

/// Whether two maps hold the same keys, with values equal by view.
pub open spec fn map_view_eq<KV, V: View>(a: Map<KV, V>, b: Map<KV, V>) -> bool {
    &&& a.dom() == b.dom()
    &&& forall|k: KV| a.dom().contains(k) ==> (#[trigger] a[k])@ == b[k]@
}

/// An upsert keeps keys distinct and acts on the map as one insertion.
pub proof fn lemma_upsert<KV, V>(s: Seq<(KV, V)>, k: KV, v: V)
    requires
        distinct_keys(s),
    ensures
        distinct_keys(upsert(s, k, v)),
        map_of(upsert(s, k, v)) == map_of(s).insert(k, v),
{
    if exists|i: int| 0 <= i < s.len() && (#[trigger] s[i]).0 == k {
        let i = choose|i: int| 0 <= i < s.len() && (#[trigger] s[i]).0 == k;
        let t = s.update(i, (k, v));
        assert(forall|j: int| 0 <= j < s.len() ==> (#[trigger] t[j]).0 == s[j].0);
        assert(distinct_keys(t));
        lemma_map_of_update(s, i, v);
    } else {
        let t = s.push((k, v));
        assert(forall|j: int| 0 <= j < s.len() ==> (#[trigger] t[j]).0 == s[j].0);
        assert(distinct_keys(t));
        assert(t.drop_last() =~= s);
    }
}

/// Collapsing keeps the keys distinct and the described map unchanged.
pub proof fn lemma_collapse<KV, V>(s: Seq<(KV, V)>)
    ensures
        distinct_keys(collapse(s)),
        map_of(collapse(s)) == map_of(s),
    decreases s.len(),
{
    if s.len() > 0 {
        lemma_collapse(s.drop_last());
        lemma_upsert(collapse(s.drop_last()), s.last().0, s.last().1);
    }
}

} // verus!
