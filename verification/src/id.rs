//! Identifier types usable as register or command IDs.

use crate::byte_array::ToByteArray;
use vstd::prelude::*;

verus! {

/// An unsigned integer type of a fixed width usable as a register or command
/// identifier.
///
/// Identifier serialization is infallible by contract: every implementation
/// proves that `to_bytes` cannot fail, so the transaction functions can put
/// an identifier on the wire without an error path.
pub trait Id: ToByteArray {
    /// Identifier serialization never fails.
    proof fn to_bytes_infallible(self)
        ensures
            self.spec_to_bytes() is Ok,
    ;
}

/// The wire bytes of an identifier: what its infallible serialization
/// produces.
pub open spec fn id_bytes<I: Id>(id: I) -> Seq<u8> {
    id.spec_to_bytes()->Ok_0
}

impl Id for u8 {
    proof fn to_bytes_infallible(self) {
    }
}

impl Id for u16 {
    proof fn to_bytes_infallible(self) {
    }
}

impl Id for u32 {
    proof fn to_bytes_infallible(self) {
    }
}

impl Id for u64 {
    proof fn to_bytes_infallible(self) {
    }
}

impl Id for u128 {
    proof fn to_bytes_infallible(self) {
    }
}

} // verus!
