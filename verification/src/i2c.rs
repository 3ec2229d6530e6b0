//! Transaction functions for registers and commands on an I2C bus.
//!
//! Each function serializes what must go on the wire before touching the
//! bus, issues exactly one atomic transaction through an [`I2cDevice`]
//! handle, and deserializes the response where there is one. The contracts
//! state, over the handle's committed-transaction history, the exact byte
//! sequences placed on the bus, the fail-fast ordering — a serialization
//! error leaves the history untouched — and how the returned value relates
//! to the bytes that came back.

use crate::bus::{
    committed_one, lemma_two_writes_read_run, lemma_two_writes_run, BusEvent, BusOp, I2cDevice,
    I2cTransaction,
};
use crate::byte_array::{FromByteArray, ToByteArray};
use crate::command::Command;
use crate::errors::{CommandError, ReadRegisterError, WriteRegisterError};
use crate::id::{id_bytes, Id};
use crate::register::{ReadableRegister, WritableRegister};
use vstd::pervasive::unreached;
use vstd::prelude::*;

verus! {

/// Whether `t` is the transaction a read of register `R` commits: one write
/// of the register's read identifier, then one read of a payload of `R`'s
/// wire length, at address `addr`.
pub open spec fn is_register_read<R: ReadableRegister, A>(t: I2cTransaction<A>, addr: A) -> bool {
    &&& t.addr == addr
    &&& t.ops.len() == 2
    &&& t.ops[0] == BusEvent::Write(id_bytes(R::spec_readable_id()))
    &&& t.ops[1] is Read
    &&& (t.ops[1]->Read_0).len() == R::spec_byte_count()
}

/// The payload bytes a committed read-style transaction returned: the
/// contents of its final read operation.
pub open spec fn returned_data<A>(t: I2cTransaction<A>) -> Seq<u8> {
    t.ops.last()->Read_0
}

/// Whether `t` is the transaction a write of register `R` commits: one
/// write of the register's write identifier, then one write of the payload
/// `payload`, at address `addr`.
pub open spec fn is_register_write<R: WritableRegister, A>(
    t: I2cTransaction<A>,
    addr: A,
    payload: Seq<u8>,
) -> bool {
    &&& t.addr == addr
    &&& t.ops == seq![BusEvent::Write(id_bytes(R::spec_writeable_id())), BusEvent::Write(payload)]
}

/// Whether `t` is the transaction an invocation of command `C` commits: a
/// write of the command's identifier, a write of the parameter payload
/// `params`, then one read of the response type's wire length, at address
/// `addr`.
pub open spec fn is_command_invocation<C: Command, A>(
    t: I2cTransaction<A>,
    addr: A,
    params: Seq<u8>,
) -> bool {
    &&& t.addr == addr
    &&& t.ops.len() == 3
    &&& t.ops[0] == BusEvent::Write(id_bytes(C::spec_id()))
    &&& t.ops[1] == BusEvent::Write(params)
    &&& t.ops[2] is Read
    &&& (t.ops[2]->Read_0).len() == <C::ResponseParameters as FromByteArray>::spec_byte_count()
}

/// Read a register value from an I2C device.
///
/// Serializes the register's read identifier, issues one atomic
/// write-then-read transaction, and deserializes the bytes read into the
/// register type. On a bus failure nothing is committed and no
/// deserialization is attempted; a deserialization failure comes only after
/// the transaction has committed.
pub fn read_register<D, R>(device: &mut D, device_addr: D::Address) -> (r: Result<
    R,
    ReadRegisterError<D::BusError, R::Error>,
>) where D: I2cDevice, R: ReadableRegister
    ensures
        match r {
            Ok(value) => {
                &&& committed_one(old(device).history(), final(device).history())
                &&& is_register_read::<R, D::Address>(final(device).history().last(), device_addr)
                &&& R::spec_from_bytes(returned_data(final(device).history().last())) == Ok::<
                    R,
                    R::Error,
                >(value)
            },
            Err(ReadRegisterError::BusError(_)) => final(device).history() == old(
                device,
            ).history(),
            Err(ReadRegisterError::DeserializationError(e)) => {
                &&& committed_one(old(device).history(), final(device).history())
                &&& is_register_read::<R, D::Address>(final(device).history().last(), device_addr)
                &&& R::spec_from_bytes(returned_data(final(device).history().last())) == Err::<
                    R,
                    R::Error,
                >(e)
            },
        },
{
    let id = R::readable_id();
    proof {
        id.to_bytes_infallible();
    }
    let id_buf = match id.to_bytes() {
        Ok(b) => b,
        Err(_) => unreached(),
    };
    let count = <R as FromByteArray>::byte_count();
    match device.write_read(device_addr, &id_buf, count) {
        Ok(data) => {
            proof {
                assert(final(device).history().drop_last() =~= old(device).history());
            }
            match R::from_bytes(data) {
                Ok(value) => Ok(value),
                Err(e) => Err(ReadRegisterError::DeserializationError(e)),
            }
        },
        Err(e) => Err(ReadRegisterError::BusError(e)),
    }
}

/// Write a register value to an I2C device.
///
/// Serializes the payload first — a serialization failure is returned
/// before any bus access — then serializes the register's write identifier
/// and issues one atomic transaction writing the identifier bytes and the
/// payload bytes back to back.
pub fn write_register<D, R>(device: &mut D, device_addr: D::Address, register: R) -> (r: Result<
    (),
    WriteRegisterError<D::BusError, R::Error>,
>) where D: I2cDevice, R: WritableRegister
    ensures
        match r {
            Ok(_) => {
                &&& register.spec_to_bytes() is Ok
                &&& committed_one(old(device).history(), final(device).history())
                &&& is_register_write::<R, D::Address>(
                    final(device).history().last(),
                    device_addr,
                    register.spec_to_bytes()->Ok_0,
                )
            },
            Err(WriteRegisterError::SerializationError(e)) => {
                &&& register.spec_to_bytes() == Err::<Seq<u8>, R::Error>(e)
                &&& final(device).history() == old(device).history()
            },
            Err(WriteRegisterError::BusError(_)) => {
                &&& register.spec_to_bytes() is Ok
                &&& final(device).history() == old(device).history()
            },
        },
{
    let payload = match register.to_bytes() {
        Ok(b) => b,
        Err(e) => {
            return Err(WriteRegisterError::SerializationError(e));
        },
    };
    let id = R::writeable_id();
    proof {
        id.to_bytes_infallible();
    }
    let id_buf = match id.to_bytes() {
        Ok(b) => b,
        Err(_) => unreached(),
    };
    let ghost id_seq = id_buf@;
    let ghost payload_seq = payload@;
    let mut ops: Vec<BusOp> = Vec::new();
    ops.push(BusOp::Write(id_buf));
    ops.push(BusOp::Write(payload));
    match device.transaction(device_addr, &ops) {
        Ok(reads) => {
            proof {
                assert(ops@[0] == BusOp::Write(id_buf) && ops@[1] == BusOp::Write(payload));
                lemma_two_writes_run(ops@, reads.deep_view());
                assert(final(device).history().drop_last() =~= old(device).history());
                assert(final(device).history().last().ops =~= seq![
                    BusEvent::Write(id_seq),
                    BusEvent::Write(payload_seq),
                ]);
            }
            Ok(())
        },
        Err(e) => Err(WriteRegisterError::BusError(e)),
    }
}

/// Invoke a command on an I2C device and receive its response.
///
/// Serializes the command's parameters first — a serialization failure is
/// returned before any bus access — then serializes the command identifier
/// and issues one atomic transaction writing the identifier bytes and the
/// parameter bytes and reading the response bytes, which are deserialized
/// into the response type. On a bus failure nothing is committed and no
/// deserialization is attempted.
pub fn invoke_command<D, C>(device: &mut D, device_addr: D::Address, cmd: C) -> (r: Result<
    C::ResponseParameters,
    CommandError<
        D::BusError,
        <C::CommandParameters as ToByteArray>::Error,
        <C::ResponseParameters as FromByteArray>::Error,
    >,
>) where D: I2cDevice, C: Command
    ensures
        match r {
            Ok(resp) => {
                &&& cmd.spec_invoking_parameters().spec_to_bytes() is Ok
                &&& committed_one(old(device).history(), final(device).history())
                &&& is_command_invocation::<C, D::Address>(
                    final(device).history().last(),
                    device_addr,
                    cmd.spec_invoking_parameters().spec_to_bytes()->Ok_0,
                )
                &&& <C::ResponseParameters as FromByteArray>::spec_from_bytes(
                    returned_data(final(device).history().last()),
                ) == Ok::<C::ResponseParameters, <C::ResponseParameters as FromByteArray>::Error>(
                    resp,
                )
            },
            Err(CommandError::SerializationError(e)) => {
                &&& cmd.spec_invoking_parameters().spec_to_bytes() == Err::<
                    Seq<u8>,
                    <C::CommandParameters as ToByteArray>::Error,
                >(e)
                &&& final(device).history() == old(device).history()
            },
            Err(CommandError::BusError(_)) => {
                &&& cmd.spec_invoking_parameters().spec_to_bytes() is Ok
                &&& final(device).history() == old(device).history()
            },
            Err(CommandError::DeserializationError(e)) => {
                &&& cmd.spec_invoking_parameters().spec_to_bytes() is Ok
                &&& committed_one(old(device).history(), final(device).history())
                &&& is_command_invocation::<C, D::Address>(
                    final(device).history().last(),
                    device_addr,
                    cmd.spec_invoking_parameters().spec_to_bytes()->Ok_0,
                )
                &&& <C::ResponseParameters as FromByteArray>::spec_from_bytes(
                    returned_data(final(device).history().last()),
                ) == Err::<C::ResponseParameters, <C::ResponseParameters as FromByteArray>::Error>(
                    e,
                )
            },
        },
{
    let params = match cmd.invoking_parameters().to_bytes() {
        Ok(b) => b,
        Err(e) => {
            return Err(CommandError::SerializationError(e));
        },
    };
    let id = C::id();
    proof {
        id.to_bytes_infallible();
    }
    let id_buf = match id.to_bytes() {
        Ok(b) => b,
        Err(_) => unreached(),
    };
    let count = <C::ResponseParameters as FromByteArray>::byte_count();
    let mut ops: Vec<BusOp> = Vec::new();
    ops.push(BusOp::Write(id_buf));
    ops.push(BusOp::Write(params));
    ops.push(BusOp::Read(count));
    match device.transaction(device_addr, &ops) {
        Ok(mut reads) => {
            proof {
                assert(ops@[0] == BusOp::Write(id_buf) && ops@[1] == BusOp::Write(params)
                    && ops@[2] == BusOp::Read(count));
                lemma_two_writes_read_run(ops@, reads.deep_view());
                assert(final(device).history().drop_last() =~= old(device).history());
                assert(reads.deep_view()[0] == reads@[0]@);
                assert(reads@.len() == 1);
            }
            let data = reads.remove(0);
            match <C::ResponseParameters as FromByteArray>::from_bytes(data) {
                Ok(resp) => Ok(resp),
                Err(e) => Err(CommandError::DeserializationError(e)),
            }
        },
        Err(e) => Err(CommandError::BusError(e)),
    }
}

/// Reads register `R` from the I2C device at `device_addr`: the flat-form
/// name for [`read_register`], with the same contract.
pub fn read_i2c_register<D, R>(device: &mut D, device_addr: D::Address) -> (r: Result<
    R,
    ReadRegisterError<D::BusError, R::Error>,
>) where D: I2cDevice, R: ReadableRegister
    ensures
        match r {
            Ok(value) => {
                &&& committed_one(old(device).history(), final(device).history())
                &&& is_register_read::<R, D::Address>(final(device).history().last(), device_addr)
                &&& R::spec_from_bytes(returned_data(final(device).history().last())) == Ok::<
                    R,
                    R::Error,
                >(value)
            },
            Err(ReadRegisterError::BusError(_)) => final(device).history() == old(
                device,
            ).history(),
            Err(ReadRegisterError::DeserializationError(e)) => {
                &&& committed_one(old(device).history(), final(device).history())
                &&& is_register_read::<R, D::Address>(final(device).history().last(), device_addr)
                &&& R::spec_from_bytes(returned_data(final(device).history().last())) == Err::<
                    R,
                    R::Error,
                >(e)
            },
        },
{
    read_register::<D, R>(device, device_addr)
}

/// Writes `reg` to register `R` on the I2C device at `device_addr`: the
/// flat-form name for [`write_register`], with the same contract.
pub fn write_i2c_register<D, R>(device: &mut D, device_addr: D::Address, reg: R) -> (r: Result<
    (),
    WriteRegisterError<D::BusError, R::Error>,
>) where D: I2cDevice, R: WritableRegister
    ensures
        match r {
            Ok(_) => {
                &&& reg.spec_to_bytes() is Ok
                &&& committed_one(old(device).history(), final(device).history())
                &&& is_register_write::<R, D::Address>(
                    final(device).history().last(),
                    device_addr,
                    reg.spec_to_bytes()->Ok_0,
                )
            },
            Err(WriteRegisterError::SerializationError(e)) => {
                &&& reg.spec_to_bytes() == Err::<Seq<u8>, R::Error>(e)
                &&& final(device).history() == old(device).history()
            },
            Err(WriteRegisterError::BusError(_)) => {
                &&& reg.spec_to_bytes() is Ok
                &&& final(device).history() == old(device).history()
            },
        },
{
    write_register::<D, R>(device, device_addr, reg)
}

} // verus!
