use regiface::i2c;
use regiface::mock::{MockI2cDevice, RecordedOp};
use regiface::{FromByteArray, ReadableRegister, Register, ToByteArray, WritableRegister};

/// A register whose hardware uses a distinct read opcode: the canonical id
/// with a flag bit set. The write path keeps the default.
struct FlaggedRegister {
    value: u8,
}

impl Register for FlaggedRegister {
    type IdType = u8;

    fn id() -> u8 {
        0x07
    }
}

impl FromByteArray for FlaggedRegister {
    type Error = ();

    fn byte_count() -> usize {
        1
    }

    fn from_bytes(bytes: Vec<u8>) -> Result<Self, ()> {
        Ok(FlaggedRegister { value: bytes[0] })
    }
}

impl ToByteArray for FlaggedRegister {
    type Error = ();

    fn byte_count() -> usize {
        1
    }

    fn to_bytes(self) -> Result<Vec<u8>, ()> {
        Ok(vec![self.value])
    }
}

impl ReadableRegister for FlaggedRegister {
    fn readable_id() -> u8 {
        Self::id() | 0x40
    }
}

impl WritableRegister for FlaggedRegister {
    fn writeable_id() -> u8 {
        Self::id()
    }
}

#[test]
fn overriding_readable_id_leaves_writeable_id_alone() {
    assert_eq!(FlaggedRegister::id(), 0x07);
    assert_eq!(FlaggedRegister::readable_id(), 0x47);
    assert_eq!(FlaggedRegister::writeable_id(), 0x07);
}

#[test]
fn effective_ids_reach_the_wire() {
    let mut device = MockI2cDevice::new();
    device.push_response(vec![0x09]);
    let _: FlaggedRegister = i2c::read_register(&mut device, 0x50u8).unwrap();
    assert_eq!(device.log[0].ops[0], RecordedOp::Write(vec![0x47]));
    i2c::write_register(&mut device, 0x50u8, FlaggedRegister { value: 3 }).unwrap();
    assert_eq!(device.log[1].ops[0], RecordedOp::Write(vec![0x07]));
}

/// A register keeping both defaults: each effective id is the canonical id.
struct PlainRegister {
    value: u8,
}

impl Register for PlainRegister {
    type IdType = u16;

    fn id() -> u16 {
        0x0102
    }
}

impl FromByteArray for PlainRegister {
    type Error = ();

    fn byte_count() -> usize {
        1
    }

    fn from_bytes(bytes: Vec<u8>) -> Result<Self, ()> {
        Ok(PlainRegister { value: bytes[0] })
    }
}

impl ToByteArray for PlainRegister {
    type Error = ();

    fn byte_count() -> usize {
        1
    }

    fn to_bytes(self) -> Result<Vec<u8>, ()> {
        Ok(vec![self.value])
    }
}

impl ReadableRegister for PlainRegister {
    fn readable_id() -> u16 {
        Self::id()
    }
}

impl WritableRegister for PlainRegister {
    fn writeable_id() -> u16 {
        Self::id()
    }
}

#[test]
fn default_effective_ids_equal_the_canonical_id() {
    assert_eq!(PlainRegister::readable_id(), PlainRegister::id());
    assert_eq!(PlainRegister::writeable_id(), PlainRegister::id());
}

#[test]
fn wide_register_id_is_sent_big_endian() {
    let mut device = MockI2cDevice::new();
    device.push_response(vec![0x09]);
    let _: PlainRegister = i2c::read_register(&mut device, 0x50u8).unwrap();
    assert_eq!(device.log[0].ops[0], RecordedOp::Write(vec![0x01, 0x02]));
}
