//! Canonical access-kind enumeration for registers and bitfields.

use crate::mmio::report::FatalError;
use crate::svd;
use crate::text::str_eq;
use vstd::prelude::*;

verus! {

/// Canonical access kind of a register or bitfield.
#[derive(Debug, Clone, Copy, PartialEq, Eq, Structural)]
pub enum Permissions {
    ReadWrite,
    ReadWriteOnce,
    Read,
    Write,
    WriteOnce,
}

/// What [`Permissions::is_readable`] returns.
pub open spec fn is_readable_spec(p: Permissions) -> bool {
    p == Permissions::ReadWrite || p == Permissions::Read || p == Permissions::ReadWriteOnce
}

/// What [`Permissions::is_writable`] returns.
pub open spec fn is_writable_spec(p: Permissions) -> bool {
    p == Permissions::ReadWrite || p == Permissions::WriteOnce || p == Permissions::Write || p
        == Permissions::ReadWriteOnce
}

/// The canonical access kind for a source access kind; absent access
/// defaults to read-write.
pub open spec fn spec_access_permissions(a: Option<svd::Access>) -> Permissions {
    match a {
        None => Permissions::ReadWrite,
        Some(svd::Access::ReadOnly) => Permissions::Read,
        Some(svd::Access::ReadWrite) => Permissions::ReadWrite,
        Some(svd::Access::ReadWriteOnce) => Permissions::ReadWriteOnce,
        Some(svd::Access::WriteOnce) => Permissions::WriteOnce,
        Some(svd::Access::WriteOnly) => Permissions::Write,
    }
}

impl Permissions {
    /// True exactly for the access kinds that allow reading.
    pub fn is_readable(self) -> (r: bool)
        ensures
            r == is_readable_spec(self),
    {
        self == Self::ReadWrite || self == Self::Read || self == Self::ReadWriteOnce
    }

    /// True exactly for the access kinds that allow writing.
    pub fn is_writable(self) -> (r: bool)
        ensures
            r == is_writable_spec(self),
    {
        self == Self::ReadWrite || self == Self::WriteOnce || self == Self::Write || self
            == Self::ReadWriteOnce
    }

    /// Builds an access kind from a source document's textual token.
    ///
    /// Any token outside the recognized set is a fatal input error.
    pub fn from_source_token(s: &str) -> (r: Result<Permissions, FatalError>)
        ensures
            s@ == "read-only"@ ==> r == Ok::<Permissions, FatalError>(Permissions::Read),
            s@ == "write-only"@ ==> r == Ok::<Permissions, FatalError>(Permissions::Write),
            s@ == "read-write"@ ==> r == Ok::<Permissions, FatalError>(Permissions::ReadWrite),
            s@ != "read-only"@ && s@ != "write-only"@ && s@ != "read-write"@ ==> (r matches Err(
                FatalError::UnknownAccessToken(t),
            ) && t@ == s@),
    {
        proof {
            reveal_strlit("read-only");
            reveal_strlit("write-only");
            reveal_strlit("read-write");
            assert("read-only"@.len() == 9);
            assert("write-only"@.len() == 10);
            assert("read-write"@.len() == 10);
            assert("write-only"@[0] == 'w');
            assert("read-write"@[5] == 'w');
        }
        if str_eq(s, "read-only") {
            Ok(Permissions::Read)
        } else if str_eq(s, "write-only") {
            Ok(Permissions::Write)
        } else if str_eq(s, "read-write") {
            Ok(Permissions::ReadWrite)
        } else {
            Err(FatalError::UnknownAccessToken(s.to_owned()))
        }
    }

    /// Builds an access kind from the source's own enumerated access kind.
    pub fn from_access(a: Option<svd::Access>) -> (r: Permissions)
        ensures
            r == spec_access_permissions(a),
    {
        match a {
            None => Permissions::ReadWrite,
            Some(svd::Access::ReadOnly) => Permissions::Read,
            Some(svd::Access::ReadWrite) => Permissions::ReadWrite,
            Some(svd::Access::ReadWriteOnce) => Permissions::ReadWriteOnce,
            Some(svd::Access::WriteOnce) => Permissions::WriteOnce,
            Some(svd::Access::WriteOnly) => Permissions::Write,
        }
    }

    /// Builds an access kind from a pair of capability flags, as the
    /// secondary schema declares them. A field that is neither readable
    /// nor writable is a fatal input error; `field` names it.
    pub fn from_flags(sw_writable: bool, sw_readable: bool, field: &str) -> (r: Result<
        Permissions,
        FatalError,
    >)
        ensures
            !sw_writable && sw_readable ==> r == Ok::<Permissions, FatalError>(Permissions::Read),
            sw_writable && sw_readable ==> r == Ok::<Permissions, FatalError>(
                Permissions::ReadWrite,
            ),
            sw_writable && !sw_readable ==> r == Ok::<Permissions, FatalError>(Permissions::Write),
            !sw_writable && !sw_readable ==> (r matches Err(FatalError::NoAccess { field: f })
                && f@ == field@),
    {
        match (sw_writable, sw_readable) {
            (false, true) => Ok(Permissions::Read),
            (true, true) => Ok(Permissions::ReadWrite),
            (true, false) => Ok(Permissions::Write),
            (false, false) => Err(FatalError::NoAccess { field: field.to_owned() }),
        }
    }
}

impl Default for Permissions {
    /// The access kind assumed when a source document gives none.
    fn default() -> (r: Self)
        ensures
            r == Permissions::ReadWrite,
    {
        Permissions::ReadWrite
    }
}

/// The readability and writability predicates partition the five access
/// kinds: `Read` is readable only, `Write` and `WriteOnce` are writable
/// only, and `ReadWrite` and `ReadWriteOnce` are both.
pub proof fn lemma_permissions_partition()
    ensures
        forall|p: Permissions| is_readable_spec(p) || is_writable_spec(p),
        forall|p: Permissions| is_readable_spec(p) && !is_writable_spec(p) <==> p == Permissions::Read,
        forall|p: Permissions|
            is_writable_spec(p) && !is_readable_spec(p) <==> (p == Permissions::Write || p
                == Permissions::WriteOnce),
        forall|p: Permissions|
            is_readable_spec(p) && is_writable_spec(p) <==> (p == Permissions::ReadWrite || p
                == Permissions::ReadWriteOnce),
{
}

} // verus!
