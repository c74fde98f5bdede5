//! Canonical intermediate representation of a hardware platform.
//!
//! A [`platform::Platform`] owns [`device::Device`]s, which own
//! [`register::Register`]s, which own [`bitfield::Bitfield`]s; this module
//! also holds the naming helpers shared by the schema adapters.

pub mod bitfield;
pub mod device;
pub mod interrupt;
pub mod permissions;
pub mod platform;
pub mod register;
pub mod report;

use crate::text::{lower_of, remove_all, spec_replace, strip_digits, strip_trailing_digits, to_lower};
use vstd::prelude::*;

verus! {

/// What [`device_type`] returns: the trailing decimal digits removed,
/// then the whole name lowercased.
pub open spec fn spec_device_type(s: Seq<char>) -> Seq<char> {
    lower_of(strip_trailing_digits(s))
}

/// The shared template identifier for a device name: `UART0` and `UART1`
/// both map to the type `uart`.
pub fn device_type(s: &str) -> (r: String)
    ensures
        r@ == spec_device_type(s@),
{
    let stripped = strip_digits(s);
    to_lower(stripped.as_str())
}

/// What [`device_cluster_name`] returns: the cluster base name without
/// its `%s` placeholder, then the index, then the register name with any
/// occurrence of the base name elided so it does not appear twice.
pub open spec fn spec_cluster_name(base: Seq<char>, index: Seq<char>, reg: Seq<char>) -> Seq<
    char,
> {
    let name = spec_replace(base, "%s"@, Seq::<char>::empty());
    name + index + spec_replace(reg, name, Seq::<char>::empty())
}

/// The name of element `index` of an expanded register array or cluster:
/// the index is spliced between the base name and the register's own
/// name, with duplicate-substring removal.
pub fn device_cluster_name(base: &str, index: &str, reg: &str) -> (r: String)
    ensures
        r@ == spec_cluster_name(base@, index@, reg@),
{
    let name = remove_all(base, "%s");
    let stripped = remove_all(reg, name.as_str());
    name.concat(index).concat(stripped.as_str())
}

} // verus!
