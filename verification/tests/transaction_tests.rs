use regiface::bus::{BusOp, I2cDevice};
use regiface::errors::{CommandError, Error, ReadRegisterError, WriteRegisterError};
use regiface::mock::{MockI2cDevice, MockSpiDevice, RecordedOp};
use regiface::{
    i2c, spi, Command, FromByteArray, NoParameters, ReadableRegister, Register, ToByteArray,
    WritableRegister,
};

/// A register holding a big-endian 16-bit value at id 0x2A.
#[derive(Debug, PartialEq)]
struct WordRegister {
    raw: u16,
}

impl Register for WordRegister {
    type IdType = u8;

    fn id() -> u8 {
        0x2A
    }
}

impl FromByteArray for WordRegister {
    type Error = ();

    fn byte_count() -> usize {
        2
    }

    fn from_bytes(bytes: Vec<u8>) -> Result<Self, ()> {
        Ok(WordRegister {
            raw: ((bytes[0] as u16) << 8) | bytes[1] as u16,
        })
    }
}

impl ReadableRegister for WordRegister {
    fn readable_id() -> u8 {
        Self::id()
    }
}

/// A one-byte configuration register at id 0x2A.
struct ConfigRegister {
    value: u8,
}

impl Register for ConfigRegister {
    type IdType = u8;

    fn id() -> u8 {
        0x2A
    }
}

impl ToByteArray for ConfigRegister {
    type Error = ();

    fn byte_count() -> usize {
        1
    }

    fn to_bytes(self) -> Result<Vec<u8>, ()> {
        Ok(vec![self.value])
    }
}

impl WritableRegister for ConfigRegister {
    fn writeable_id() -> u8 {
        Self::id()
    }
}

/// A register whose serialization always fails.
struct BrokenRegister {}

impl Register for BrokenRegister {
    type IdType = u8;

    fn id() -> u8 {
        0x2A
    }
}

impl ToByteArray for BrokenRegister {
    type Error = ();

    fn byte_count() -> usize {
        1
    }

    fn to_bytes(self) -> Result<Vec<u8>, ()> {
        Err(())
    }
}

impl WritableRegister for BrokenRegister {
    fn writeable_id() -> u8 {
        Self::id()
    }
}

/// A self-test command at id 0xF0 with no parameters and a one-byte status
/// response.
struct SelfTestCommand {}

#[derive(Debug, PartialEq)]
struct SelfTestStatus {
    code: u8,
}

impl FromByteArray for SelfTestStatus {
    type Error = ();

    fn byte_count() -> usize {
        1
    }

    fn from_bytes(bytes: Vec<u8>) -> Result<Self, ()> {
        Ok(SelfTestStatus { code: bytes[0] })
    }
}

impl Command for SelfTestCommand {
    type IdType = u8;
    type CommandParameters = NoParameters;
    type ResponseParameters = SelfTestStatus;

    fn id() -> u8 {
        0xF0
    }

    fn invoking_parameters(self) -> NoParameters {
        NoParameters::default()
    }
}

#[test]
fn i2c_read_issues_write_then_read() {
    let mut device = MockI2cDevice::new();
    device.push_response(vec![0x01, 0x02]);
    let value: WordRegister = i2c::read_register(&mut device, 0x48u8).unwrap();
    assert_eq!(value.raw, 0x0102);
    assert_eq!(device.log.len(), 1);
    assert_eq!(device.log[0].addr, 0x48);
    assert_eq!(
        device.log[0].ops,
        vec![
            RecordedOp::Write(vec![0x2A]),
            RecordedOp::Read(vec![0x01, 0x02])
        ]
    );
}

#[test]
fn i2c_write_issues_one_transaction_of_two_writes() {
    let mut device = MockI2cDevice::new();
    i2c::write_register(&mut device, 0x48u8, ConfigRegister { value: 0x07 }).unwrap();
    assert_eq!(device.log.len(), 1);
    assert_eq!(device.log[0].addr, 0x48);
    assert_eq!(
        device.log[0].ops,
        vec![RecordedOp::Write(vec![0x2A]), RecordedOp::Write(vec![0x07])]
    );
}

#[test]
fn i2c_serialization_failure_touches_no_bus() {
    let mut device = MockI2cDevice::new();
    let result = i2c::write_register(&mut device, 0x48u8, BrokenRegister {});
    assert!(matches!(
        result,
        Err(WriteRegisterError::SerializationError(()))
    ));
    assert_eq!(device.log.len(), 0);
}

#[test]
fn i2c_bus_failure_short_circuits_read() {
    let mut device = MockI2cDevice::new();
    device.push_response(vec![0x01, 0x02]);
    device.set_fail();
    let result: Result<WordRegister, _> = i2c::read_register(&mut device, 0x48u8);
    assert!(matches!(result, Err(ReadRegisterError::BusError(_))));
    assert_eq!(device.log.len(), 0);
}

#[test]
fn i2c_invoke_command_issues_id_parameters_and_read() {
    let mut device = MockI2cDevice::new();
    device.push_response(vec![0x55]);
    let status = i2c::invoke_command(&mut device, 0x48u8, SelfTestCommand {}).unwrap();
    assert_eq!(status, SelfTestStatus { code: 0x55 });
    assert_eq!(device.log.len(), 1);
    assert_eq!(
        device.log[0].ops,
        vec![
            RecordedOp::Write(vec![0xF0]),
            RecordedOp::Write(vec![]),
            RecordedOp::Read(vec![0x55])
        ]
    );
}

#[test]
fn i2c_invoke_command_bus_failure_short_circuits() {
    let mut device = MockI2cDevice::new();
    device.set_fail();
    let result = i2c::invoke_command(&mut device, 0x48u8, SelfTestCommand {});
    assert!(matches!(result, Err(CommandError::BusError(_))));
    assert_eq!(device.log.len(), 0);
}

#[test]
fn i2c_flat_forms_behave_like_module_forms() {
    let mut device = MockI2cDevice::new();
    device.push_response(vec![0xAB, 0xCD]);
    let value: WordRegister = regiface::read_i2c_register(&mut device, 0x10u8).unwrap();
    assert_eq!(value.raw, 0xABCD);
    regiface::write_i2c_register(&mut device, 0x10u8, ConfigRegister { value: 1 }).unwrap();
    assert_eq!(device.log.len(), 2);
    assert_eq!(
        device.log[1].ops,
        vec![RecordedOp::Write(vec![0x2A]), RecordedOp::Write(vec![0x01])]
    );
}

#[test]
fn i2c_response_length_mismatch_is_bus_error() {
    let mut device = MockI2cDevice::new();
    device.push_response(vec![0x01]);
    let result: Result<WordRegister, _> = i2c::read_register(&mut device, 0x48u8);
    assert!(matches!(result, Err(ReadRegisterError::BusError(_))));
    assert_eq!(device.log.len(), 0);
}

#[test]
fn spi_read_issues_write_then_read() {
    let mut device = MockSpiDevice::new();
    device.push_response(vec![0x01, 0x02]);
    let value: WordRegister = spi::read_register(&mut device).unwrap();
    assert_eq!(value.raw, 0x0102);
    assert_eq!(device.log.len(), 1);
    assert_eq!(
        device.log[0].ops,
        vec![
            RecordedOp::Write(vec![0x2A]),
            RecordedOp::Read(vec![0x01, 0x02])
        ]
    );
}

#[test]
fn spi_write_issues_one_transaction_of_two_writes() {
    let mut device = MockSpiDevice::new();
    spi::write_register(&mut device, ConfigRegister { value: 0x07 }).unwrap();
    assert_eq!(device.log.len(), 1);
    assert_eq!(
        device.log[0].ops,
        vec![RecordedOp::Write(vec![0x2A]), RecordedOp::Write(vec![0x07])]
    );
}

#[test]
fn spi_serialization_failure_touches_no_bus() {
    let mut device = MockSpiDevice::new();
    let result = spi::write_register(&mut device, BrokenRegister {});
    assert!(matches!(
        result,
        Err(WriteRegisterError::SerializationError(()))
    ));
    assert_eq!(device.log.len(), 0);
}

#[test]
fn spi_invoke_command_issues_id_parameters_and_read() {
    let mut device = MockSpiDevice::new();
    device.push_response(vec![0x55]);
    let status = spi::invoke_command(&mut device, SelfTestCommand {}).unwrap();
    assert_eq!(status, SelfTestStatus { code: 0x55 });
    assert_eq!(device.log.len(), 1);
    assert_eq!(
        device.log[0].ops,
        vec![
            RecordedOp::Write(vec![0xF0]),
            RecordedOp::Write(vec![]),
            RecordedOp::Read(vec![0x55])
        ]
    );
}

#[test]
fn mock_transaction_records_requested_ops() {
    let mut device = MockI2cDevice::new();
    device.push_response(vec![0x0A, 0x0B, 0x0C]);
    let reads = device
        .transaction(
            0x20u8,
            &vec![BusOp::Write(vec![1, 2]), BusOp::Read(3), BusOp::Write(vec![])],
        )
        .unwrap();
    assert_eq!(reads, vec![vec![0x0A, 0x0B, 0x0C]]);
    assert_eq!(
        device.log[0].ops,
        vec![
            RecordedOp::Write(vec![1, 2]),
            RecordedOp::Read(vec![0x0A, 0x0B, 0x0C]),
            RecordedOp::Write(vec![])
        ]
    );
}

#[test]
fn error_reduction_keeps_the_category() {
    let read: ReadRegisterError<u8, u8> = ReadRegisterError::BusError(1);
    assert_eq!(Error::from(read), Error::BusError);
    let read: ReadRegisterError<u8, u8> = ReadRegisterError::DeserializationError(1);
    assert_eq!(Error::from(read), Error::DeserializationError);
    let write: WriteRegisterError<u8, u8> = WriteRegisterError::SerializationError(1);
    assert_eq!(Error::from(write), Error::SerializationError);
    let write: WriteRegisterError<u8, u8> = WriteRegisterError::BusError(1);
    assert_eq!(Error::from(write), Error::BusError);
    let cmd: CommandError<u8, u8, u8> = CommandError::DeserializationError(1);
    assert_eq!(Error::from(cmd), Error::DeserializationError);
    let cmd: CommandError<u8, u8, u8> = CommandError::SerializationError(1);
    assert_eq!(Error::from(cmd), Error::SerializationError);
    let cmd: CommandError<u8, u8, u8> = CommandError::BusError(1);
    assert_eq!(Error::from(cmd), Error::BusError);
}

/// A register whose deserialization always fails.
#[derive(Debug)]
struct RejectingRegister {}

impl Register for RejectingRegister {
    type IdType = u8;

    fn id() -> u8 {
        0x2A
    }
}

impl FromByteArray for RejectingRegister {
    type Error = u8;

    fn byte_count() -> usize {
        1
    }

    fn from_bytes(bytes: Vec<u8>) -> Result<Self, u8> {
        Err(bytes[0])
    }
}

impl ReadableRegister for RejectingRegister {
    fn readable_id() -> u8 {
        Self::id()
    }
}

#[test]
fn i2c_deserialization_failure_comes_after_the_transaction() {
    let mut device = MockI2cDevice::new();
    device.push_response(vec![0x99]);
    let result: Result<RejectingRegister, _> = i2c::read_register(&mut device, 0x48u8);
    assert!(matches!(
        result,
        Err(ReadRegisterError::DeserializationError(0x99))
    ));
    assert_eq!(device.log.len(), 1);
    assert_eq!(
        device.log[0].ops,
        vec![RecordedOp::Write(vec![0x2A]), RecordedOp::Read(vec![0x99])]
    );
}
