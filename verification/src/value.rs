//! Ownership of a recovered value: sole or shared.
//!
//! `Value` records how a value came out of a shared cell: either the caller
//! got it whole, or others still hold a share and the value stays behind a
//! reference-counted pointer. Either way the same value is held, and every
//! operation here preserves it.

use std::sync::Arc;
use vstd::prelude::*;

use crate::arc_specs::arc_into_inner;
use crate::arc_specs::arc_try_unwrap;
use crate::keys::Dup;

verus! {

/// A value that is either wholly owned or shared through a counted pointer.
#[derive(Debug)]
pub enum Value<T> {
    /// The value is wholly owned.
    Owned(T),
    /// The value's ownership is shared.
    Shared(Arc<T>),
}

impl<T> Value<T> {
    /// The value held, whichever way it is owned.
    pub open spec fn value(self) -> T {
        match self {
            Value::Owned(t) => t,
            Value::Shared(a) => *a,
        }
    }

    /// Whether the value is wholly owned.
    pub fn is_owned(&self) -> (r: bool)
        ensures
            r <==> self is Owned,
    {
        match self {
            Value::Owned(_) => true,
            Value::Shared(_) => false,
        }
    }

    /// Whether the value's ownership is shared.
    pub fn is_shared(&self) -> (r: bool)
        ensures
            r <==> self is Shared,
    {
        match self {
            Value::Owned(_) => false,
            Value::Shared(_) => true,
        }
    }

    /// Returns the held value, duplicating it only when others still share
    /// it. An owned value comes back untouched.
    pub fn into_owned_or_clone(value: Value<T>) -> (r: T) where T: Dup
        ensures
            r@ == value.value()@,
            value matches Value::Owned(t) ==> r == t,
    {
        match value {
            Value::Owned(t) => t,
            Value::Shared(a) => match arc_try_unwrap(a) {
                Ok(t) => t,
                Err(shared) => {
                    let t: &T = &*shared;
                    t.dup()
                },
            },
        }
    }

    /// Recovers sole ownership when no one else shares the value; an owned
    /// value stays owned, untouched.
    pub fn try_into_owned(value: Value<T>) -> (r: Value<T>)
        ensures
            r.value() == value.value(),
            value matches Value::Owned(t) ==> r == Value::Owned(t),
    {
        match value {
            Value::Owned(t) => Value::Owned(t),
            Value::Shared(a) => match arc_try_unwrap(a) {
                Ok(t) => Value::Owned(t),
                Err(shared) => Value::Shared(shared),
            },
        }
    }

    /// Returns the held value only when this was the last share of it; an
    /// owned value always comes back.
    pub fn into_owned(value: Value<T>) -> (r: Option<T>)
        ensures
            r matches Some(t) ==> t == value.value(),
            value matches Value::Owned(t) ==> r == Some(t),
    {
        match value {
            Value::Owned(t) => Some(t),
            Value::Shared(a) => arc_into_inner(a),
        }
    }

    /// A borrow of the held value.
    pub fn as_ref(&self) -> (r: &T)
        ensures
            *r == self.value(),
    {
        match self {
            Value::Owned(t) => t,
            Value::Shared(a) => &**a,
        }
    }
}

impl<T> From<Result<T, Arc<T>>> for Value<T> {
    /// Reads the outcome of an unwrapping attempt: success is sole
    /// ownership, failure a still-shared value.
    fn from(value: Result<T, Arc<T>>) -> (r: Self) {
        match value {
            Ok(t) => Value::Owned(t),
            Err(a) => Value::Shared(a),
        }
    }
}

impl<T> vstd::std_specs::convert::FromSpecImpl<Result<T, Arc<T>>> for Value<T> {
    open spec fn obeys_from_spec() -> bool {
        true
    }

    open spec fn from_spec(value: Result<T, Arc<T>>) -> Self {
        match value {
            Ok(t) => Value::Owned(t),
            Err(a) => Value::Shared(a),
        }
    }
}

} // verus!
