//! Capability traits for the key and value types the maps work with.
//!
//! Contracts throughout the crate are stated over mathematical views, so the
//! executable operations the maps rely on — comparing two keys, duplicating a
//! key — must be tied to those views. The two traits here state exactly that
//! tie, and this module implements them for the common plain types.

use vstd::prelude::*;

verus! {

/// A value that can produce a duplicate with the same mathematical view.
pub trait Dup: View + Sized {
    /// Returns a duplicate of `self` whose view is the same.
    fn dup(&self) -> (r: Self)
        ensures
            r@ == self@,
    ;
}

/// A type whose executable equality test agrees with equality of views.
pub trait ViewEq: View + Sized {
    /// Returns whether `self` and `other` have the same view.
    fn view_eq(&self, other: &Self) -> (r: bool)
        ensures
            r <==> (self@ == other@),
    ;
}

/// Relies on str's `PartialEq`: two string slices are equal exactly when
/// their character sequences are equal.
pub assume_specification[ <str as PartialEq>::eq ](s: &str, other: &str) -> (r: bool)
    ensures
        r == (s@ == other@),
;

impl Dup for u8 {
    fn dup(&self) -> (r: Self) {
        *self
    }
}

impl ViewEq for u8 {
    fn view_eq(&self, other: &Self) -> (r: bool) {
        *self == *other
    }
}

impl Dup for u16 {
    fn dup(&self) -> (r: Self) {
        *self
    }
}

impl ViewEq for u16 {
    fn view_eq(&self, other: &Self) -> (r: bool) {
        *self == *other
    }
}

impl Dup for u32 {
    fn dup(&self) -> (r: Self) {
        *self
    }
}

impl ViewEq for u32 {
    fn view_eq(&self, other: &Self) -> (r: bool) {
        *self == *other
    }
}

impl Dup for u64 {
    fn dup(&self) -> (r: Self) {
        *self
    }
}

impl ViewEq for u64 {
    fn view_eq(&self, other: &Self) -> (r: bool) {
        *self == *other
    }
}

impl Dup for usize {
    fn dup(&self) -> (r: Self) {
        *self
    }
}

impl ViewEq for usize {
    fn view_eq(&self, other: &Self) -> (r: bool) {
        *self == *other
    }
}

impl Dup for i32 {
    fn dup(&self) -> (r: Self) {
        *self
    }
}

impl ViewEq for i32 {
    fn view_eq(&self, other: &Self) -> (r: bool) {
        *self == *other
    }
}

impl Dup for i64 {
    fn dup(&self) -> (r: Self) {
        *self
    }
}

impl ViewEq for i64 {
    fn view_eq(&self, other: &Self) -> (r: bool) {
        *self == *other
    }
}

impl Dup for String {
    fn dup(&self) -> (r: Self) {
        self.clone()
    }
}

impl ViewEq for String {
    fn view_eq(&self, other: &Self) -> (r: bool) {
        <String as PartialEq>::eq(self, other)
    }
}

impl<'a> Dup for &'a str {
    fn dup(&self) -> (r: Self) {
        *self
    }
}

impl<'a> ViewEq for &'a str {
    fn view_eq(&self, other: &Self) -> (r: bool) {
        <str as PartialEq>::eq(*self, *other)
    }
}

} // verus!
