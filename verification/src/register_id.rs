//! The identifier contract under its register-specific name.

use crate::id::Id;
use vstd::prelude::*;

verus! {

/// An identifier type acceptable as a register ID: the fixed-width unsigned
/// integers of [`Id`].
pub trait RegisterId: Id {
}

impl RegisterId for u8 {
}

impl RegisterId for u16 {
}

impl RegisterId for u32 {
}

impl RegisterId for u64 {
}

impl RegisterId for u128 {
}

} // verus!
