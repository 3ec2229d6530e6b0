//! Error types for register interface operations.
//!
//! Each operation has a specific error type preserving the underlying cause
//! — the bus driver's error or the payload type's (de)serialization error —
//! and the reduced [`Error`] keeps only the failure category for callers
//! that do not need the cause.

use vstd::prelude::*;

verus! {

/// Error that can occur when reading from a register: generic over the bus
/// error type `B` and the deserialization error type `D`.
#[derive(Clone, Copy, Debug)]
pub enum ReadRegisterError<B, D> {
    /// An error occurred while communicating over the bus.
    BusError(B),
    /// An error occurred while deserializing the received data.
    DeserializationError(D),
}

/// Error that can occur when writing to a register: generic over the bus
/// error type `B` and the serialization error type `S`.
#[derive(Clone, Copy, Debug)]
pub enum WriteRegisterError<B, S> {
    /// An error occurred while communicating over the bus.
    BusError(B),
    /// An error occurred while serializing the data to be sent.
    SerializationError(S),
}

/// Error that can occur when executing a command: generic over the bus error
/// type `B`, the serialization error type `S` and the deserialization error
/// type `D`.
#[derive(Clone, Copy, Debug)]
pub enum CommandError<B, S, D> {
    /// An error occurred while communicating over the bus.
    BusError(B),
    /// An error occurred while serializing the command parameters.
    SerializationError(S),
    /// An error occurred while deserializing the command response.
    DeserializationError(D),
}

/// A simplified error that keeps only the category of the failure,
/// convertible from each of the specific error types.
#[derive(Clone, Copy, Debug, PartialEq, Eq, Structural)]
pub enum Error {
    /// An error occurred while communicating over the bus.
    BusError,
    /// An error occurred during data serialization.
    SerializationError,
    /// An error occurred during data deserialization.
    DeserializationError,
}

impl<B, D> From<ReadRegisterError<B, D>> for Error {
    /// Reduces a read error to its category.
    fn from(value: ReadRegisterError<B, D>) -> (r: Self) {
        match value {
            ReadRegisterError::BusError(_) => Error::BusError,
            ReadRegisterError::DeserializationError(_) => Error::DeserializationError,
        }
    }
}

impl<B, D> vstd::std_specs::convert::FromSpecImpl<ReadRegisterError<B, D>> for Error {
    open spec fn obeys_from_spec() -> bool {
        true
    }

    open spec fn from_spec(value: ReadRegisterError<B, D>) -> Self {
        match value {
            ReadRegisterError::BusError(_) => Error::BusError,
            ReadRegisterError::DeserializationError(_) => Error::DeserializationError,
        }
    }
}

impl<B, S> From<WriteRegisterError<B, S>> for Error {
    /// Reduces a write error to its category.
    fn from(value: WriteRegisterError<B, S>) -> (r: Self) {
        match value {
            WriteRegisterError::BusError(_) => Error::BusError,
            WriteRegisterError::SerializationError(_) => Error::SerializationError,
        }
    }
}

impl<B, S> vstd::std_specs::convert::FromSpecImpl<WriteRegisterError<B, S>> for Error {
    open spec fn obeys_from_spec() -> bool {
        true
    }

    open spec fn from_spec(value: WriteRegisterError<B, S>) -> Self {
        match value {
            WriteRegisterError::BusError(_) => Error::BusError,
            WriteRegisterError::SerializationError(_) => Error::SerializationError,
        }
    }
}

impl<B, S, D> From<CommandError<B, S, D>> for Error {
    /// Reduces a command error to its category.
    fn from(value: CommandError<B, S, D>) -> (r: Self) {
        match value {
            CommandError::BusError(_) => Error::BusError,
            CommandError::SerializationError(_) => Error::SerializationError,
            CommandError::DeserializationError(_) => Error::DeserializationError,
        }
    }
}

impl<B, S, D> vstd::std_specs::convert::FromSpecImpl<CommandError<B, S, D>> for Error {
    open spec fn obeys_from_spec() -> bool {
        true
    }

    open spec fn from_spec(value: CommandError<B, S, D>) -> Self {
        match value {
            CommandError::BusError(_) => Error::BusError,
            CommandError::SerializationError(_) => Error::SerializationError,
            CommandError::DeserializationError(_) => Error::DeserializationError,
        }
    }
}

} // verus!
