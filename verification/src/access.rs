//! Marker types describing the access capability of a bitfield view.
//!
//! The [`crate::zermio::BitField`] runtime type is parameterized by one of
//! the marker structs below; the [`Readable`] and [`Writable`] bounds gate
//! which operations the view exposes.

use vstd::prelude::*;

verus! {

/// Capability bound for bitfield views that may read the cached value.
pub trait Readable {
}

/// Capability bound for bitfield views that may mutate the cached value.
pub trait Writable {
}

/// Access tag for read-only bitfield views.
pub struct Read {
}

impl Readable for Read {
}

/// Access tag for read-write bitfield views.
pub struct ReadWrite {
}

impl Readable for ReadWrite {
}

impl Writable for ReadWrite {
}

/// Access tag for write-only bitfield views.
pub struct Write {
}

impl Writable for Write {
}

} // verus!
