//! Normalization engine and register-access runtime for memory-mapped
//! hardware description documents.
//!
//! The crate turns parsed hardware description documents (register maps,
//! bitfields, interrupts, addresses) into one canonical intermediate
//! representation — a [`mmio::platform::Platform`] owning devices, registers
//! and bitfields — and provides the generic, access-controlled, cached
//! register/bitfield runtime ([`zermio`]) that generated code relies on.

pub mod access;
pub mod mmio;
pub mod rdljson;
pub mod schema;
pub mod svd;
pub mod text;
pub mod zermio;

use vstd::prelude::*;

verus! {

/// Default data bus width, in bits, assumed for registers whose source
/// document does not constrain them further.
pub const BUS_WIDTH: u32 = 32;

/// The sequence of mathematical values of a sequence of values.
pub open spec fn seq_view<T: View>(s: Seq<T>) -> Seq<T::V> {
    Seq::new(s.len(), |i: int| s[i]@)
}

} // verus!
