//! Utility types and verified transaction functions for interfacing with
//! register-based devices over I2C or SPI buses.
//!
//! A peripheral register is modelled by a type implementing [`Register`],
//! which fixes the register's numeric identifier. Registers whose value can
//! be read implement [`ReadableRegister`] and a deserialization contract
//! ([`FromByteArray`]); registers that can be written implement
//! [`WritableRegister`] and a serialization contract ([`ToByteArray`]).
//! Invokable device commands, with parameter and response payloads, implement
//! [`Command`].
//!
//! The [`i2c`] and [`spi`] modules provide the transaction functions: each
//! serializes identifiers and payloads, issues exactly one atomic bus
//! transaction through a [`bus`] device handle, and deserializes the
//! response. Their contracts pin down the exact byte sequences placed on the
//! bus and the fail-fast ordering of serialization before any bus access.

pub mod bus;
pub mod byte_array;
pub mod command;
pub mod errors;
pub mod i2c;
pub mod id;
pub mod mock;
pub mod register;
pub mod register_id;
pub mod spi;

pub use byte_array::{ByteArray, FromByteArray, ToByteArray};
pub use command::{Command, NoParameters, Zeros};
pub use i2c::{read_i2c_register, write_i2c_register};
pub use register::{ReadableRegister, Register, WritableRegister};
