//! The register contracts: a type standing for a value held in an
//! addressable device register.

use crate::byte_array::{FromByteArray, ToByteArray};
use crate::id::Id;
use vstd::prelude::*;

verus! {

/// The core trait for all types that represent readable or writable register
/// values.
///
/// A register type is tied to one identifier value, fixed per type:
/// `spec_id` names that constant, and `id` returns it at run time.
pub trait Register {
    /// The type used to represent the register's ID: any [`Id`] type, which
    /// covers `u8`, `u16`, `u32`, `u64` and `u128`.
    type IdType: Id;

    /// The register's canonical identifier.
    ///
    /// Implementations used from verified code give this a body naming
    /// their constant; the default leaves the identifier unspecified, so
    /// unverified implementations need not mention it.
    open spec fn spec_id() -> Self::IdType {
        vstd::pervasive::arbitrary()
    }

    /// Returns the register's canonical identifier.
    fn id() -> (r: Self::IdType)
        ensures
            r == Self::spec_id(),
    ;
}

/// A register whose value can be retrieved by a bus read.
///
/// The identifier used on the wire when reading defaults to the canonical
/// [`Register`] identifier; a type whose hardware uses a distinct read opcode
/// overrides `spec_readable_id` together with `readable_id`.
pub trait ReadableRegister: Register + FromByteArray {
    /// The identifier used on the wire when reading this register.
    /// Defaults to the canonical identifier.
    open spec fn spec_readable_id() -> Self::IdType {
        Self::spec_id()
    }

    /// Returns the identifier used on the wire when reading this register.
    fn readable_id() -> (r: Self::IdType)
        ensures
            r == Self::spec_readable_id(),
    ;
}

/// A register whose value can be written by a bus write.
///
/// The identifier used on the wire when writing defaults to the canonical
/// [`Register`] identifier; a type whose hardware uses a distinct write
/// opcode overrides `spec_writeable_id` together with `writeable_id`.
pub trait WritableRegister: Register + ToByteArray {
    /// The identifier used on the wire when writing this register.
    /// Defaults to the canonical identifier.
    open spec fn spec_writeable_id() -> Self::IdType {
        Self::spec_id()
    }

    /// Returns the identifier used on the wire when writing this register.
    fn writeable_id() -> (r: Self::IdType)
        ensures
            r == Self::spec_writeable_id(),
    ;
}

} // verus!
