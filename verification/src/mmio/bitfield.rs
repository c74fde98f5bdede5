//! The bitfield entity of the intermediate representation.

use crate::mmio::permissions::{spec_access_permissions, Permissions};
use crate::mmio::report::FatalError;
use crate::svd;
use crate::BUS_WIDTH;
use vstd::prelude::*;

verus! {

/// One bitfield of a register: a named, access-controlled bit range.
#[derive(Debug, Clone)]
pub struct Bitfield {
    pub name: String,
    /// Human-readable description; defaults to the name.
    pub desc: String,
    /// Width of the field in bits.
    pub bit_size: u32,
    /// Offset of the field's least significant bit within the register.
    pub offset: u32,
    pub permissions: Permissions,
}

/// The mathematical value of a [`Bitfield`].
pub ghost struct BitfieldView {
    pub name: Seq<char>,
    pub desc: Seq<char>,
    pub bit_size: u32,
    pub offset: u32,
    pub permissions: Permissions,
}

impl View for Bitfield {
    type V = BitfieldView;

    open spec fn view(&self) -> BitfieldView {
        BitfieldView {
            name: self.name@,
            desc: self.desc@,
            bit_size: self.bit_size,
            offset: self.offset,
            permissions: self.permissions,
        }
    }
}

/// The synthetic full-width `value` field given to a register that
/// declares no fields of its own.
pub open spec fn spec_value_field(width: u32) -> BitfieldView {
    BitfieldView {
        name: "value"@,
        desc: "value"@,
        bit_size: width,
        offset: 0,
        permissions: Permissions::ReadWrite,
    }
}

/// The bitfield a declared source field converts to.
pub open spec fn spec_bitfield_of_field(f: svd::FieldInfo) -> BitfieldView {
    BitfieldView {
        name: f.name@,
        desc: match f.description {
            Some(d) => d@,
            None => f.name@,
        },
        bit_size: f.bit_width,
        offset: f.bit_offset,
        permissions: spec_access_permissions(f.access),
    }
}

impl Bitfield {
    pub fn new(name: String, desc: String, bit_size: u32, offset: u32, permissions: Permissions) -> (r:
        Self)
        ensures
            r@ == (BitfieldView { name: name@, desc: desc@, bit_size, offset, permissions }),
    {
        Self { name, desc, bit_size, offset, permissions }
    }

    /// Converts one declared source field.
    pub fn from_field_info(f: &svd::FieldInfo) -> (r: Self)
        ensures
            r@ == spec_bitfield_of_field(*f),
    {
        let desc = match &f.description {
            Some(d) => d.clone(),
            None => f.name.clone(),
        };
        Self {
            name: f.name.clone(),
            desc,
            bit_size: f.bit_width,
            offset: f.bit_offset,
            permissions: Permissions::from_access(f.access),
        }
    }

    /// Converts a source field; a field array cannot be represented.
    pub fn try_from_field(f: &svd::Field) -> (r: Option<Self>)
        ensures
            (*f) matches svd::Field::Single(info) ==> (r matches Some(b) && b@
                == spec_bitfield_of_field(info)),
            (*f) matches svd::Field::Array(_, _) ==> r is None,
    {
        match f {
            svd::Field::Single(info) => Some(Self::from_field_info(info)),
            svd::Field::Array(_, _) => None,
        }
    }

    /// Converts one field of the secondary schema: the bit range
    /// `lsb..=msb` becomes offset and width, and the capability flags
    /// become the access kind. A field that is neither readable nor
    /// writable is a fatal input error.
    pub fn from_register_field(f: &crate::rdljson::RegisterField) -> (r: Result<Self, FatalError>)
        requires
            f.lsb <= f.msb,
            f.msb - f.lsb < u32::MAX,
        ensures
            f.sw_writable || f.sw_readable ==> (r matches Ok(b) && b@ == (BitfieldView {
                name: f.name@,
                desc: f.desc@,
                bit_size: (f.msb - f.lsb + 1) as u32,
                offset: f.lsb,
                permissions: (if f.sw_writable && f.sw_readable {
                    Permissions::ReadWrite
                } else if f.sw_writable {
                    Permissions::Write
                } else {
                    Permissions::Read
                }),
            })),
            !f.sw_writable && !f.sw_readable ==> (r matches Err(FatalError::NoAccess {
                field: name,
            }) && name@ == f.name@),
    {
        let permissions = match Permissions::from_flags(f.sw_writable, f.sw_readable, f.name.as_str(
        )) {
            Ok(p) => p,
            Err(e) => {
                return Err(e);
            },
        };
        Ok(
            Self {
                name: f.name.clone(),
                desc: f.desc.clone(),
                bit_size: f.msb - f.lsb + 1,
                offset: f.lsb,
                permissions,
            },
        )
    }

    /// The synthetic `value` field spanning `width` bits.
    pub fn default_for_width(width: u32) -> (r: Self)
        ensures
            r@ == spec_value_field(width),
    {
        Self::new(
            String::from_str("value"),
            String::from_str("value"),
            width,
            0,
            Permissions::ReadWrite,
        )
    }
}

impl Default for Bitfield {
    /// The synthetic `value` field for the default bus width.
    fn default() -> (r: Self)
        ensures
            r@ == spec_value_field(BUS_WIDTH),
    {
        Bitfield::default_for_width(BUS_WIDTH)
    }
}

} // verus!
