//! Plain-value model of a parsed SVD-style hardware description document.
//!
//! The schema adapter consumes this tree as an immutable, already
//! deserialized input; the thin layer around the library converts the
//! parser's own types into these before calling into the adapter.

use vstd::prelude::*;

verus! {

/// Access kind attached to a bitfield by the source document.
#[derive(Debug, Clone, Copy, PartialEq, Eq, Structural)]
pub enum Access {
    ReadOnly,
    ReadWrite,
    ReadWriteOnce,
    WriteOnce,
    WriteOnly,
}

/// One declared bitfield of a register.
#[derive(Debug, Clone)]
pub struct FieldInfo {
    pub name: String,
    pub description: Option<String>,
    /// Offset of the field's least significant bit within the register.
    pub bit_offset: u32,
    /// Width of the field in bits.
    pub bit_width: u32,
    pub access: Option<Access>,
}

/// A bitfield, possibly declared as an array of fields.
#[derive(Debug, Clone)]
pub enum Field {
    Single(FieldInfo),
    Array(FieldInfo, DimElement),
}

/// Repetition description of an array construct.
#[derive(Debug, Clone)]
pub struct DimElement {
    /// Number of elements.
    pub dim: u32,
    /// Address stride between two consecutive elements, in bytes.
    pub dim_increment: u32,
    /// Index labels; `0..dim` as decimal strings when absent.
    pub dim_index: Option<Vec<String>>,
    /// Base name shared by the expanded elements.
    pub dim_name: Option<String>,
}

/// The properties of one register declaration.
#[derive(Debug, Clone)]
pub struct RegisterInfo {
    pub name: String,
    pub description: Option<String>,
    /// Byte offset of the register from the owning peripheral's base.
    pub address_offset: u32,
    pub fields: Option<Vec<Field>>,
}

/// A register, possibly declared as an array of registers.
#[derive(Debug, Clone)]
pub enum Register {
    Single(RegisterInfo),
    Array(RegisterInfo, DimElement),
}

/// The properties of one register cluster.
#[derive(Debug)]
pub struct ClusterInfo {
    pub name: String,
    pub children: Vec<RegisterCluster>,
}

/// A cluster, possibly declared as an array of clusters.
#[derive(Debug)]
pub enum Cluster {
    Single(ClusterInfo),
    Array(ClusterInfo, DimElement),
}

/// One entry of a peripheral's register list.
#[derive(Debug)]
pub enum RegisterCluster {
    Register(Register),
    Cluster(Cluster),
}

/// An interrupt line declared by a peripheral.
#[derive(Debug, Clone)]
pub struct Interrupt {
    pub name: String,
    pub description: Option<String>,
    pub value: u32,
}

/// The properties of one peripheral declaration.
#[derive(Debug)]
pub struct PeripheralInfo {
    pub name: String,
    pub base_address: u64,
    /// Name of the peripheral this one derives its registers from.
    pub derived_from: Option<String>,
    pub interrupt: Vec<Interrupt>,
    pub registers: Option<Vec<RegisterCluster>>,
}

/// A peripheral, possibly declared as an array of peripherals.
#[derive(Debug)]
pub enum Peripheral {
    Single(PeripheralInfo),
    Array(PeripheralInfo, DimElement),
}

/// A whole parsed hardware description document.
#[derive(Debug)]
pub struct Device {
    pub name: String,
    /// Bus width of the platform, in bits.
    pub width: u32,
    pub peripherals: Vec<Peripheral>,
}

} // verus!
