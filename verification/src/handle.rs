//! A stable, shareable handle to one value inside a map's arena.
//!
//! A `Handle` pairs shared ownership of the arena with a slot number, exactly
//! like `ValueRef`; it is the handle type the `ShareMap` side of the crate
//! hands out. The slot is checked once, at construction, and stays valid for
//! the handle's whole life, however the producing map is replaced or dropped.

use std::sync::Arc;
use vstd::prelude::*;

use crate::arc_specs::arc_ptr_eq;
use crate::keys::ViewEq;

verus! {

/// A handle to one value in a map's arena, valid for its whole life.
#[derive(Debug)]
pub struct Handle<T> {
    store: Arc<Vec<T>>,
    index: usize,
}

impl<T> Handle<T> {
    /// The arena the handle points into.
    pub closed spec fn store_seq(&self) -> Seq<T> {
        self.store@
    }

    /// The slot the handle points at.
    pub closed spec fn slot(&self) -> int {
        self.index as int
    }

    /// The referenced value.
    pub open spec fn value(&self) -> T {
        self.store_seq()[self.slot()]
    }

    #[verifier::type_invariant]
    spec fn inv(self) -> bool {
        self.index < self.store@.len()
    }

    /// Wraps a slot of the arena; the slot is checked here, once.
    pub(crate) fn new(store: Arc<Vec<T>>, index: usize) -> (r: Self)
        requires
            index < store@.len(),
        ensures
            r.store_seq() == store@,
            r.slot() == index,
    {
        Handle { store, index }
    }

    /// A borrow of the referenced value.
    pub fn get(&self) -> (r: &T)
        ensures
            *r == self.value(),
    {
        proof {
            use_type_invariant(&*self);
        }
        let store: &Vec<T> = &*self.store;
        &store[self.index]
    }

    /// Returns `true` if the two referenced values are equal.
    ///
    /// Two handles into the same arena slot are equal without looking at the
    /// value; otherwise the values themselves are compared.
    pub fn eq(this: &Handle<T>, other: &Handle<T>) -> (r: bool) where T: ViewEq
        ensures
            r <==> this.value()@ == other.value()@,
    {
        if Handle::ref_eq(this, other) {
            true
        } else {
            this.get().view_eq(other.get())
        }
    }

    /// Returns `true` if the two referenced values are not equal.
    pub fn ne(this: &Handle<T>, other: &Handle<T>) -> (r: bool) where T: ViewEq
        ensures
            r <==> this.value()@ != other.value()@,
    {
        !Handle::eq(this, other)
    }

    /// Returns `true` if the two handles share the arena and the slot.
    ///
    /// A `true` answer pins the referenced values down as equal, and two
    /// handles with different slots or different arena contents always
    /// answer `false`; only for distinct arenas of equal contents is the
    /// answer left open.
    pub fn ref_eq(this: &Handle<T>, other: &Handle<T>) -> (r: bool)
        ensures
            r ==> this.store_seq() == other.store_seq() && this.slot() == other.slot()
                && this.value() == other.value(),
            this.slot() != other.slot() ==> !r,
            this.store_seq() != other.store_seq() ==> !r,
    {
        arc_ptr_eq(&this.store, &other.store) && this.index == other.index
    }

    /// Returns `true` if the two handles differ in arena or slot.
    pub fn ref_ne(this: &Handle<T>, other: &Handle<T>) -> (r: bool)
        ensures
            !r ==> this.store_seq() == other.store_seq() && this.slot() == other.slot()
                && this.value() == other.value(),
            this.slot() != other.slot() ==> r,
            this.store_seq() != other.store_seq() ==> r,
    {
        !Handle::ref_eq(this, other)
    }
}

/// Duplicating a handle only bumps the arena's ownership count; the value
/// itself is never copied.
impl<T> Clone for Handle<T> {
    fn clone(&self) -> (r: Self)
        ensures
            r.store_seq() == self.store_seq(),
            r.slot() == self.slot(),
    {
        proof {
            use_type_invariant(self);
        }
        Handle { store: self.store.clone(), index: self.index }
    }
}

} // verus!
