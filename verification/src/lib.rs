//! An immutable, shareable map built around an arena of values.
//!
//! A map is built once from key-value pairs and never changes afterwards.
//! Values live in a reference-counted arena, so lightweight handles into the
//! arena stay valid no matter what happens to the map that produced them.
//! A holder type offers wholesale replacement of the current map while old
//! snapshots and handles keep reading the data they were created from.

mod arc_specs;
mod borrow_iter;
mod frozen_map;
mod handle;
mod hold;
mod index;
mod into_iter;
mod iter;
mod keys;
pub mod laws;
pub mod model;
mod share_map;
mod swap_map;
mod value;
mod value_ref;

pub use borrow_iter::BorrowIter;
pub use frozen_map::DuplicateKeyError;
pub use frozen_map::FrozenMap;
pub use handle::Handle;
pub use hold::Hold;
pub use into_iter::IntoIter;
pub use iter::Iter;
pub use keys::Dup;
pub use keys::ViewEq;
pub use share_map::ShareMap;
pub use swap_map::SwapMap;
pub use value::Value;
pub use value_ref::ValueRef;
