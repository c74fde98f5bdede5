//! Error and warning values surfaced by the schema adapters.
//!
//! Fatal errors abort a whole conversion run; warnings accumulate on the
//! side while the offending register or device is skipped.

use vstd::prelude::*;

verus! {

/// Fatal, whole-run-aborting adapter errors.
///
/// Every variant identifies the offending construct as far as the source
/// document provides that context.
#[derive(Debug, Clone)]
pub enum FatalError {
    /// An access token outside the recognized set was found in the source.
    UnknownAccessToken(String),
    /// A bitfield of a source document may both deny reads and deny
    /// writes; no canonical access kind represents that.
    NoAccess { field: String },
    /// A bitfield array was declared inside a register.
    FieldArray { register: String },
    /// A cluster was nested inside another cluster; silently losing a
    /// nesting level would corrupt addresses, so the whole run aborts.
    NestedCluster { cluster: String },
    /// A register array or cluster carried an empty index list.
    EmptyDimIndex { register: String },
    /// Expanding an array overflowed the 32-bit offset space.
    OffsetOverflow { register: String },
    /// A numeric literal in the source could not be parsed.
    MalformedNumber(String),
    /// A bit-range literal in the source could not be parsed.
    MalformedBitRange(String),
}

/// The mathematical value of a [`FatalError`].
pub ghost enum FatalErrorView {
    UnknownAccessToken(Seq<char>),
    NoAccess { field: Seq<char> },
    FieldArray { register: Seq<char> },
    NestedCluster { cluster: Seq<char> },
    EmptyDimIndex { register: Seq<char> },
    OffsetOverflow { register: Seq<char> },
    MalformedNumber(Seq<char>),
    MalformedBitRange(Seq<char>),
}

impl View for FatalError {
    type V = FatalErrorView;

    open spec fn view(&self) -> FatalErrorView {
        match *self {
            FatalError::UnknownAccessToken(ref t) => FatalErrorView::UnknownAccessToken(t@),
            FatalError::NoAccess { ref field } => FatalErrorView::NoAccess { field: field@ },
            FatalError::FieldArray { ref register } => FatalErrorView::FieldArray {
                register: register@,
            },
            FatalError::NestedCluster { ref cluster } => FatalErrorView::NestedCluster {
                cluster: cluster@,
            },
            FatalError::EmptyDimIndex { ref register } => FatalErrorView::EmptyDimIndex {
                register: register@,
            },
            FatalError::OffsetOverflow { ref register } => FatalErrorView::OffsetOverflow {
                register: register@,
            },
            FatalError::MalformedNumber(ref t) => FatalErrorView::MalformedNumber(t@),
            FatalError::MalformedBitRange(ref t) => FatalErrorView::MalformedBitRange(t@),
        }
    }
}

/// Why a register or device was skipped rather than converted.
#[derive(Debug, Clone, Copy, PartialEq, Eq, Structural)]
pub enum SkipReason {
    /// A peripheral array cannot be represented in the target model.
    PeripheralArray,
    /// A register cluster outside the supported array form cannot be
    /// represented in the target model.
    UnsupportedCluster,
}

/// A recoverable issue: the named device (or one register of it) was
/// skipped and processing continued.
#[derive(Debug, Clone)]
pub struct Warning {
    /// Name of the device on which the issue was found.
    pub device: String,
    pub reason: SkipReason,
}

/// The mathematical value of a [`Warning`].
pub ghost struct WarningView {
    pub device: Seq<char>,
    pub reason: SkipReason,
}

impl View for Warning {
    type V = WarningView;

    open spec fn view(&self) -> WarningView {
        WarningView { device: self.device@, reason: self.reason }
    }
}

impl DeepView for Warning {
    type V = WarningView;

    open spec fn deep_view(&self) -> WarningView {
        self@
    }
}

impl Warning {
    /// The user-visible text of this warning.
    pub fn message(&self) -> (r: String)
        ensures
            r@ == "Warning: "@ + (match self.reason {
                SkipReason::PeripheralArray => "Peripheral array not supported"@,
                SkipReason::UnsupportedCluster => "Register cluster not supported"@,
            }) + " in "@ + self.device@ + ", skipping."@,
    {
        let text: &str = match self.reason {
            SkipReason::PeripheralArray => "Peripheral array not supported",
            SkipReason::UnsupportedCluster => "Register cluster not supported",
        };
        String::from_str("Warning: ").concat(text).concat(" in ").concat(
            self.device.as_str(),
        ).concat(", skipping.")
    }
}

} // verus!
