//! Transaction functions for registers and commands on a SPI bus.
//!
//! The operations mirror those of [`crate::i2c`], without a device address:
//! SPI addressing is implicit in chip select, outside this library. Each
//! function serializes what must go on the wire before touching the bus,
//! issues exactly one atomic transaction through a [`SpiDevice`] handle,
//! and deserializes the response where there is one.

use crate::bus::{
    committed_one, lemma_two_writes_read_run, lemma_two_writes_run, lemma_write_read_run,
    BusEvent, BusOp, SpiDevice, SpiTransaction,
};
use crate::byte_array::{FromByteArray, ToByteArray};
use crate::command::Command;
use crate::errors::{CommandError, ReadRegisterError, WriteRegisterError};
use crate::id::{id_bytes, Id};
use crate::register::{ReadableRegister, WritableRegister};
use vstd::pervasive::unreached;
use vstd::prelude::*;

verus! {

/// Whether `t` is the transaction a read of register `R` commits: one write
/// of the register's read identifier, then one read of a payload of `R`'s
/// wire length.
pub open spec fn is_register_read<R: ReadableRegister>(t: SpiTransaction) -> bool {
    &&& t.ops.len() == 2
    &&& t.ops[0] == BusEvent::Write(id_bytes(R::spec_readable_id()))
    &&& t.ops[1] is Read
    &&& (t.ops[1]->Read_0).len() == R::spec_byte_count()
}

/// The payload bytes a committed read-style transaction returned: the
/// contents of its final read operation.
pub open spec fn returned_data(t: SpiTransaction) -> Seq<u8> {
    t.ops.last()->Read_0
}

/// Whether `t` is the transaction a write of register `R` commits: one
/// write of the register's write identifier, then one write of the payload
/// `payload`.
pub open spec fn is_register_write<R: WritableRegister>(
    t: SpiTransaction,
    payload: Seq<u8>,
) -> bool {
    t.ops == seq![BusEvent::Write(id_bytes(R::spec_writeable_id())), BusEvent::Write(payload)]
}

/// Whether `t` is the transaction an invocation of command `C` commits: a
/// write of the command's identifier, a write of the parameter payload
/// `params`, then one read of the response type's wire length.
pub open spec fn is_command_invocation<C: Command>(t: SpiTransaction, params: Seq<u8>) -> bool {
    &&& t.ops.len() == 3
    &&& t.ops[0] == BusEvent::Write(id_bytes(C::spec_id()))
    &&& t.ops[1] == BusEvent::Write(params)
    &&& t.ops[2] is Read
    &&& (t.ops[2]->Read_0).len() == <C::ResponseParameters as FromByteArray>::spec_byte_count()
}

/// Read a register value from a SPI device.
///
/// Serializes the register's read identifier, issues one atomic
/// transaction writing the identifier bytes and reading the payload bytes,
/// and deserializes those into the register type. On a bus failure nothing
/// is committed and no deserialization is attempted; a deserialization
/// failure comes only after the transaction has committed.
pub fn read_register<D, R>(device: &mut D) -> (r: Result<
    R,
    ReadRegisterError<D::BusError, R::Error>,
>) where D: SpiDevice, R: ReadableRegister
    ensures
        match r {
            Ok(value) => {
                &&& committed_one(old(device).history(), final(device).history())
                &&& is_register_read::<R>(final(device).history().last())
                &&& R::spec_from_bytes(returned_data(final(device).history().last())) == Ok::<
                    R,
                    R::Error,
                >(value)
            },
            Err(ReadRegisterError::BusError(_)) => final(device).history() == old(
                device,
            ).history(),
            Err(ReadRegisterError::DeserializationError(e)) => {
                &&& committed_one(old(device).history(), final(device).history())
                &&& is_register_read::<R>(final(device).history().last())
                &&& R::spec_from_bytes(returned_data(final(device).history().last())) == Err::<
                    R,
                    R::Error,
                >(e)
            },
        },
{
    let id = R::readable_id();
    proof {
        id.to_bytes_infallible();
    }
    let id_buf = match id.to_bytes() {
        Ok(b) => b,
        Err(_) => unreached(),
    };
    let count = <R as FromByteArray>::byte_count();
    let mut ops: Vec<BusOp> = Vec::new();
    ops.push(BusOp::Write(id_buf));
    ops.push(BusOp::Read(count));
    match device.transaction(&ops) {
        Ok(mut reads) => {
            proof {
                assert(ops@[0] == BusOp::Write(id_buf) && ops@[1] == BusOp::Read(count));
                lemma_write_read_run(ops@, reads.deep_view());
                assert(final(device).history().drop_last() =~= old(device).history());
                assert(reads.deep_view()[0] == reads@[0]@);
                assert(reads@.len() == 1);
            }
            let data = reads.remove(0);
            match R::from_bytes(data) {
                Ok(value) => Ok(value),
                Err(e) => Err(ReadRegisterError::DeserializationError(e)),
            }
        },
        Err(e) => Err(ReadRegisterError::BusError(e)),
    }
}

/// Write a register value to a SPI device.
///
/// Serializes the payload first — a serialization failure is returned
/// before any bus access — then serializes the register's write identifier
/// and issues one atomic transaction writing the identifier bytes and the
/// payload bytes back to back.
pub fn write_register<D, R>(device: &mut D, register: R) -> (r: Result<
    (),
    WriteRegisterError<D::BusError, R::Error>,
>) where D: SpiDevice, R: WritableRegister
    ensures
        match r {
            Ok(_) => {
                &&& register.spec_to_bytes() is Ok
                &&& committed_one(old(device).history(), final(device).history())
                &&& is_register_write::<R>(
                    final(device).history().last(),
                    register.spec_to_bytes()->Ok_0,
                )
            },
            Err(WriteRegisterError::SerializationError(e)) => {
                &&& register.spec_to_bytes() == Err::<Seq<u8>, R::Error>(e)
                &&& final(device).history() == old(device).history()
            },
            Err(WriteRegisterError::BusError(_)) => {
                &&& register.spec_to_bytes() is Ok
                &&& final(device).history() == old(device).history()
            },
        },
{
    let payload = match register.to_bytes() {
        Ok(b) => b,
        Err(e) => {
            return Err(WriteRegisterError::SerializationError(e));
        },
    };
    let id = R::writeable_id();
    proof {
        id.to_bytes_infallible();
    }
    let id_buf = match id.to_bytes() {
        Ok(b) => b,
        Err(_) => unreached(),
    };
    let ghost id_seq = id_buf@;
    let ghost payload_seq = payload@;
    let mut ops: Vec<BusOp> = Vec::new();
    ops.push(BusOp::Write(id_buf));
    ops.push(BusOp::Write(payload));
    match device.transaction(&ops) {
        Ok(reads) => {
            proof {
                assert(ops@[0] == BusOp::Write(id_buf) && ops@[1] == BusOp::Write(payload));
                lemma_two_writes_run(ops@, reads.deep_view());
                assert(final(device).history().drop_last() =~= old(device).history());
                assert(final(device).history().last().ops =~= seq![
                    BusEvent::Write(id_seq),
                    BusEvent::Write(payload_seq),
                ]);
            }
            Ok(())
        },
        Err(e) => Err(WriteRegisterError::BusError(e)),
    }
}

/// Invoke a command on a SPI device and receive its response.
///
/// Serializes the command's parameters first — a serialization failure is
/// returned before any bus access — then serializes the command identifier
/// and issues one atomic transaction writing the identifier bytes and the
/// parameter bytes and reading the response bytes, which are deserialized
/// into the response type. On a bus failure nothing is committed and no
/// deserialization is attempted.
pub fn invoke_command<D, C>(device: &mut D, cmd: C) -> (r: Result<
    C::ResponseParameters,
    CommandError<
        D::BusError,
        <C::CommandParameters as ToByteArray>::Error,
        <C::ResponseParameters as FromByteArray>::Error,
    >,
>) where D: SpiDevice, C: Command
    ensures
        match r {
            Ok(resp) => {
                &&& cmd.spec_invoking_parameters().spec_to_bytes() is Ok
                &&& committed_one(old(device).history(), final(device).history())
                &&& is_command_invocation::<C>(
                    final(device).history().last(),
                    cmd.spec_invoking_parameters().spec_to_bytes()->Ok_0,
                )
                &&& <C::ResponseParameters as FromByteArray>::spec_from_bytes(
                    returned_data(final(device).history().last()),
                ) == Ok::<C::ResponseParameters, <C::ResponseParameters as FromByteArray>::Error>(
                    resp,
                )
            },
            Err(CommandError::SerializationError(e)) => {
                &&& cmd.spec_invoking_parameters().spec_to_bytes() == Err::<
                    Seq<u8>,
                    <C::CommandParameters as ToByteArray>::Error,
                >(e)
                &&& final(device).history() == old(device).history()
            },
            Err(CommandError::BusError(_)) => {
                &&& cmd.spec_invoking_parameters().spec_to_bytes() is Ok
                &&& final(device).history() == old(device).history()
            },
            Err(CommandError::DeserializationError(e)) => {
                &&& cmd.spec_invoking_parameters().spec_to_bytes() is Ok
                &&& committed_one(old(device).history(), final(device).history())
                &&& is_command_invocation::<C>(
                    final(device).history().last(),
                    cmd.spec_invoking_parameters().spec_to_bytes()->Ok_0,
                )
                &&& <C::ResponseParameters as FromByteArray>::spec_from_bytes(
                    returned_data(final(device).history().last()),
                ) == Err::<C::ResponseParameters, <C::ResponseParameters as FromByteArray>::Error>(
                    e,
                )
            },
        },
{
    let params = match cmd.invoking_parameters().to_bytes() {
        Ok(b) => b,
        Err(e) => {
            return Err(CommandError::SerializationError(e));
        },
    };
    let id = C::id();
    proof {
        id.to_bytes_infallible();
    }
    let id_buf = match id.to_bytes() {
        Ok(b) => b,
        Err(_) => unreached(),
    };
    let count = <C::ResponseParameters as FromByteArray>::byte_count();
    let mut ops: Vec<BusOp> = Vec::new();
    ops.push(BusOp::Write(id_buf));
    ops.push(BusOp::Write(params));
    ops.push(BusOp::Read(count));
    match device.transaction(&ops) {
        Ok(mut reads) => {
            proof {
                assert(ops@[0] == BusOp::Write(id_buf) && ops@[1] == BusOp::Write(params)
                    && ops@[2] == BusOp::Read(count));
                lemma_two_writes_read_run(ops@, reads.deep_view());
                assert(final(device).history().drop_last() =~= old(device).history());
                assert(reads.deep_view()[0] == reads@[0]@);
                assert(reads@.len() == 1);
            }
            let data = reads.remove(0);
            match <C::ResponseParameters as FromByteArray>::from_bytes(data) {
                Ok(resp) => Ok(resp),
                Err(e) => Err(CommandError::DeserializationError(e)),
            }
        },
        Err(e) => Err(CommandError::BusError(e)),
    }
}

} // verus!
