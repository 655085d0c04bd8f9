//! Contracts for the `std::sync::Arc` ownership operations the crate uses.
//!
//! Whether an `Arc` is the last owner of its allocation depends on the whole
//! program's state, so none of these contracts promise which outcome occurs;
//! they only state that every outcome hands back the value the `Arc` held.

use std::sync::Arc;
use vstd::prelude::*;

verus! {

/// Relies on Arc::try_unwrap: either way the caller gets the held value —
/// directly when this was the last owner, still boxed otherwise.
#[verifier::external_body]
pub(crate) fn arc_try_unwrap<T>(v: Arc<T>) -> (result: Result<T, Arc<T>>)
    ensures
        match result {
            Ok(t) => t == v,
            Err(e) => e == v,
        },
{
    Arc::try_unwrap(v)
}

/// Relies on Arc::into_inner: when a value comes back, it is the held value.
#[verifier::external_body]
pub(crate) fn arc_into_inner<T>(v: Arc<T>) -> (result: Option<T>)
    ensures
        result matches Some(t) ==> t == v,
{
    Arc::into_inner(v)
}

/// Relies on Arc::ptr_eq: two Arcs into the same allocation hold the same
/// value. Nothing is promised when the allocations differ.
#[verifier::external_body]
pub(crate) fn arc_ptr_eq<T>(this: &Arc<T>, other: &Arc<T>) -> (r: bool)
    ensures
        r ==> *this == *other,
{
    Arc::ptr_eq(this, other)
}

} // verus!
