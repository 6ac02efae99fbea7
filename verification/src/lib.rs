//! Equality for boxed values of an interface.
//!
//! A value behind `Box<dyn Interface>` has no native equality: its concrete
//! type is erased. This crate supplies the capability that closes the gap
//! (`DynPartialEq`), the comparison routines that rest on it, and the two
//! source transformations that write the boilerplate: a shim for each
//! concrete type and the capability injection for the interface.

pub mod capability;
pub mod expand;
pub mod literals;
pub mod syntax;

pub use capability::{boxed_eq, boxed_eq_ref, equals_erased, equals_recovered, erase, recover};
pub use capability::{DynPartialEq, ErasedRef, Shim};
pub use expand::{assemble_interface, equality_impls, inject_capability, ExpansionError};
pub use expand::{dyn_partial_eq, dyn_partial_eq_macro_derive, expand_derive};
pub use expand::impl_dyn_partial_eq;
pub use literals::can_read;
