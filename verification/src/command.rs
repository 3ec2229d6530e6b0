//! The command contract: a type standing for an invokable device operation
//! with parameter and response payloads.

use crate::byte_array::{FromByteArray, ToByteArray};
use crate::id::Id;
use vstd::prelude::*;

verus! {

/// The core trait for all types that represent an invokable command.
///
/// A command carries two payload types: the parameters sent along with the
/// invocation and the response read back. Where either side carries no data,
/// [`NoParameters`] can be used.
pub trait Command: Sized {
    /// The type used to represent the command's ID: any [`Id`] type, which
    /// covers `u8`, `u16`, `u32`, `u64` and `u128`.
    type IdType: Id;

    /// The parameters included as part of the command invocation.
    type CommandParameters: ToByteArray;

    /// The parameters expected as the response to the command.
    type ResponseParameters: FromByteArray;

    /// The command's identifier.
    ///
    /// Implementations used from verified code give this a body naming
    /// their constant; the default leaves the identifier unspecified, so
    /// unverified implementations need not mention it.
    open spec fn spec_id() -> Self::IdType {
        vstd::pervasive::arbitrary()
    }

    /// Returns the command's identifier.
    fn id() -> (r: Self::IdType)
        ensures
            r == Self::spec_id(),
    ;

    /// The parameter payload carried by this command value.
    ///
    /// Implementations used from verified code give this a body; the
    /// default leaves it unspecified, so unverified implementations need
    /// not mention it.
    open spec fn spec_invoking_parameters(self) -> Self::CommandParameters {
        vstd::pervasive::arbitrary()
    }

    /// Consumes the command and returns its parameter payload.
    fn invoking_parameters(self) -> (r: Self::CommandParameters)
        ensures
            r == self.spec_invoking_parameters(),
    ;
}

/// A utility type for a [`Command`] that passes no parameters, or one that
/// returns no response data. It serializes to, and deserializes from, the
/// empty byte string.
#[derive(Debug, Clone, Copy, Hash, PartialEq, Eq, PartialOrd)]
pub struct NoParameters {}

impl Default for NoParameters {
    /// Returns the one `NoParameters` value.
    fn default() -> (r: Self)
        ensures
            r == (NoParameters {  }),
    {
        NoParameters {  }
    }
}

impl FromByteArray for NoParameters {
    type Error = ();

    open spec fn spec_byte_count() -> usize {
        0
    }

    open spec fn spec_from_bytes(bytes: Seq<u8>) -> Result<Self, Self::Error> {
        Ok(NoParameters {  })
    }

    fn byte_count() -> usize {
        0
    }

    fn from_bytes(bytes: Vec<u8>) -> (r: Result<Self, Self::Error>) {
        Ok(NoParameters {  })
    }
}

impl ToByteArray for NoParameters {
    type Error = ();

    open spec fn spec_byte_count() -> usize {
        0
    }

    open spec fn spec_to_bytes(self) -> Result<Seq<u8>, Self::Error> {
        Ok(Seq::empty())
    }

    fn byte_count() -> usize {
        0
    }

    fn to_bytes(self) -> (r: Result<Vec<u8>, Self::Error>) {
        let v: Vec<u8> = Vec::new();
        proof {
            assert(v@ =~= Seq::<u8>::empty());
        }
        Ok(v)
    }
}

/// A utility type for a [`Command`] that passes a run of `N` zero bytes as
/// its parameters.
#[derive(Debug, Clone, Copy, Hash, PartialEq, Eq, PartialOrd)]
pub struct Zeros<const N: usize> {}

impl<const N: usize> Default for Zeros<N> {
    /// Returns the one `Zeros` value.
    fn default() -> (r: Self)
        ensures
            r == (Zeros::<N> {  }),
    {
        Zeros {  }
    }
}

impl<const N: usize> ToByteArray for Zeros<N> {
    type Error = ();

    open spec fn spec_byte_count() -> usize {
        N
    }

    open spec fn spec_to_bytes(self) -> Result<Seq<u8>, Self::Error> {
        Ok(Seq::new(N as nat, |i: int| 0u8))
    }

    fn byte_count() -> usize {
        N
    }

    fn to_bytes(self) -> (r: Result<Vec<u8>, Self::Error>) {
        let mut v: Vec<u8> = Vec::new();
        let mut i: usize = 0;
        while i < N
            invariant
                i <= N,
                v@ =~= Seq::new(i as nat, |j: int| 0u8),
            decreases N - i,
        {
            v.push(0u8);
            i = i + 1;
        }
        proof {
            assert(v@ =~= Seq::new(N as nat, |j: int| 0u8));
        }
        Ok(v)
    }
}

/// Law: a [`NoParameters`] value serializes to the zero-length payload, and
/// the zero-length payload deserializes to it, so the type is acceptable as
/// both a command-parameter type and a response type.
pub proof fn lemma_no_parameters_empty_payload()
    ensures
        <NoParameters as ToByteArray>::spec_byte_count() == 0,
        <NoParameters as ToByteArray>::spec_to_bytes(NoParameters {  }) == Ok::<Seq<u8>, ()>(
            Seq::<u8>::empty(),
        ),
        <NoParameters as FromByteArray>::spec_byte_count() == 0,
        <NoParameters as FromByteArray>::spec_from_bytes(Seq::<u8>::empty()) == Ok::<
            NoParameters,
            (),
        >(NoParameters {  }),
{
}

} // verus!
