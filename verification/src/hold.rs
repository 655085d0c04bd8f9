//! How a value is held: owned outright or shared.
//!
//! `Hold` is the answer a consuming recovery operation gives when it cannot
//! promise sole ownership: the caller gets the value itself, or a counted
//! pointer to it. Both arms hold the same value.

use std::sync::Arc;
use vstd::prelude::*;

verus! {

/// A value held outright, or shared through a counted pointer.
#[derive(Debug)]
pub enum Hold<T> {
    /// The value is owned by the holder.
    Owned(T),
    /// The value is shared with others.
    Shared(Arc<T>),
}

impl<T> Hold<T> {
    /// The value held, whichever way it is owned.
    pub open spec fn value(self) -> T {
        match self {
            Hold::Owned(t) => t,
            Hold::Shared(a) => *a,
        }
    }

    /// Whether the value is owned outright.
    pub fn is_owned(&self) -> (r: bool)
        ensures
            r <==> self is Owned,
    {
        match self {
            Hold::Owned(_) => true,
            Hold::Shared(_) => false,
        }
    }

    /// Whether the value is shared.
    pub fn is_shared(&self) -> (r: bool)
        ensures
            r <==> self is Shared,
    {
        match self {
            Hold::Owned(_) => false,
            Hold::Shared(_) => true,
        }
    }

    /// A borrow of the held value.
    pub fn as_ref(&self) -> (r: &T)
        ensures
            *r == self.value(),
    {
        match self {
            Hold::Owned(t) => t,
            Hold::Shared(a) => &**a,
        }
    }
}

impl<T> From<Result<T, Arc<T>>> for Hold<T> {
    /// Reads the outcome of an unwrapping attempt: success is sole
    /// ownership, failure a still-shared value.
    fn from(value: Result<T, Arc<T>>) -> (r: Self) {
        match value {
            Ok(t) => Hold::Owned(t),
            Err(a) => Hold::Shared(a),
        }
    }
}

impl<T> vstd::std_specs::convert::FromSpecImpl<Result<T, Arc<T>>> for Hold<T> {
    open spec fn obeys_from_spec() -> bool {
        true
    }

    open spec fn from_spec(value: Result<T, Arc<T>>) -> Self {
        match value {
            Ok(t) => Hold::Owned(t),
            Err(a) => Hold::Shared(a),
        }
    }
}

} // verus!
