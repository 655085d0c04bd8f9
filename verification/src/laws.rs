//! The laws the crate's types obey, stated once and proved.
//!
//! Each law is phrased over the same views and spec functions the public
//! contracts use, so it composes with them directly: what a constructor
//! promises about `pairs()` feeds straight into what these lemmas say about
//! the map those pairs describe.

use vstd::prelude::*;

use crate::handle::Handle;
use crate::model::distinct_keys;
use crate::model::lemma_map_of_contains;
use crate::model::lemma_map_of_distinct;
use crate::model::map_of;
use crate::model::map_view_eq;
use crate::value_ref::ValueRef;

verus! {

/// Law: a batch of pairs with pairwise-distinct keys describes the map that
/// holds exactly those keys, each bound to its own value, and no key
/// outside the batch.
///
/// The duplicate-checked constructors succeed exactly on such batches and
/// keep the pairs verbatim, and `get` answers exactly out of the described
/// map — so together a checked build answers every given key with its value
/// and answers nothing for any other key.
pub proof fn lemma_unique_build<KV, V>(s: Seq<(KV, V)>)
    requires
        distinct_keys(s),
    ensures
        forall|i: int|
            0 <= i < s.len() ==> map_of(s).contains_key((#[trigger] s[i]).0) && map_of(s)[s[
                i
            ].0] == s[i].1,
        forall|k: KV|
            #[trigger] map_of(s).contains_key(k) ==> exists|i: int|
                0 <= i < s.len() && (#[trigger] s[i]).0 == k,
{
    lemma_map_of_distinct(s);
    assert forall|k: KV| #[trigger] map_of(s).contains_key(k) implies exists|i: int|
        0 <= i < s.len() && (#[trigger] s[i]).0 == k by {
        lemma_map_of_contains(s, k);
    }
}

/// Law: what a stable reference dereferences to is decided by the arena and
/// the slot it captured when it was created — by nothing else. Replacing
/// the holder's contents or dropping the producing map afterwards cannot
/// reach either, so the reference keeps reading its original value.
pub proof fn lemma_value_ref_stable<T>(a: ValueRef<T>, b: ValueRef<T>)
    requires
        a.store_seq() == b.store_seq(),
        a.slot() == b.slot(),
    ensures
        a.value() == b.value(),
{
}

/// Law: what a stable handle dereferences to is decided by the arena and
/// the slot it captured when it was created — by nothing else. Replacing
/// the holder's contents or dropping the producing map afterwards cannot
/// reach either, so the handle keeps reading its original value.
pub proof fn lemma_handle_stable<T>(a: Handle<T>, b: Handle<T>)
    requires
        a.store_seq() == b.store_seq(),
        a.slot() == b.slot(),
    ensures
        a.value() == b.value(),
{
}

/// Law: two maps of equal content answer every shared key with values of
/// equal view. Handles taken from independently built maps of equal
/// content therefore compare equal under value equality, by the contract of
/// `Handle::eq`.
pub proof fn lemma_equal_content_agree<KV, V: View>(a: Map<KV, V>, b: Map<KV, V>, k: KV)
    requires
        map_view_eq(a, b),
        a.contains_key(k),
    ensures
        b.contains_key(k),
        (a[k])@ == (b[k])@,
{
}

} // verus!
