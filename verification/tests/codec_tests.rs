use regiface::byte_array::{be_decode, be_encode, ByteArray, FromByteArray, ToByteArray};
use regiface::{NoParameters, Zeros};

#[test]
fn u8_round_trip() {
    let bytes = 0xABu8.to_bytes().unwrap();
    assert_eq!(bytes, vec![0xAB]);
    assert_eq!(<u8 as FromByteArray>::from_bytes(bytes).unwrap(), 0xABu8);
    assert_eq!(<u8 as ToByteArray>::byte_count(), 1);
    assert_eq!(<u8 as FromByteArray>::byte_count(), 1);
}

#[test]
fn u16_round_trip_big_endian() {
    let bytes = 0x1234u16.to_bytes().unwrap();
    assert_eq!(bytes, vec![0x12, 0x34]);
    assert_eq!(<u16 as FromByteArray>::from_bytes(bytes).unwrap(), 0x1234u16);
}

#[test]
fn u32_round_trip_big_endian() {
    let bytes = 0xDEAD_BEEFu32.to_bytes().unwrap();
    assert_eq!(bytes, vec![0xDE, 0xAD, 0xBE, 0xEF]);
    assert_eq!(
        <u32 as FromByteArray>::from_bytes(bytes).unwrap(),
        0xDEAD_BEEFu32
    );
}

#[test]
fn u64_round_trip_big_endian() {
    let bytes = 0x0102_0304_0506_0708u64.to_bytes().unwrap();
    assert_eq!(bytes, vec![0x01, 0x02, 0x03, 0x04, 0x05, 0x06, 0x07, 0x08]);
    assert_eq!(
        <u64 as FromByteArray>::from_bytes(bytes).unwrap(),
        0x0102_0304_0506_0708u64
    );
}

#[test]
fn u128_round_trip_big_endian() {
    let value = 0x0011_2233_4455_6677_8899_AABB_CCDD_EEFFu128;
    let bytes = value.to_bytes().unwrap();
    assert_eq!(
        bytes,
        vec![
            0x00, 0x11, 0x22, 0x33, 0x44, 0x55, 0x66, 0x77, 0x88, 0x99, 0xAA, 0xBB, 0xCC, 0xDD,
            0xEE, 0xFF
        ]
    );
    assert_eq!(<u128 as FromByteArray>::from_bytes(bytes).unwrap(), value);
    assert_eq!(<u128 as ToByteArray>::byte_count(), 16);
}

#[test]
fn u128_max_round_trip() {
    let bytes = u128::MAX.to_bytes().unwrap();
    assert_eq!(bytes, vec![0xFF; 16]);
    assert_eq!(<u128 as FromByteArray>::from_bytes(bytes).unwrap(), u128::MAX);
}

#[test]
fn be_encode_decode_agree() {
    let bytes = be_encode(0x00C0FFEE, 5);
    assert_eq!(bytes, vec![0x00, 0x00, 0xC0, 0xFF, 0xEE]);
    assert_eq!(be_decode(&bytes), 0x00C0FFEE);
    assert_eq!(be_decode(&[]), 0);
    assert_eq!(be_encode(0, 0), Vec::<u8>::new());
}

#[test]
fn no_parameters_is_empty_payload() {
    let sent = NoParameters::default().to_bytes().unwrap();
    assert_eq!(sent, Vec::<u8>::new());
    assert_eq!(<NoParameters as ToByteArray>::byte_count(), 0);
    assert_eq!(<NoParameters as FromByteArray>::byte_count(), 0);
    let received = <NoParameters as FromByteArray>::from_bytes(Vec::new()).unwrap();
    assert_eq!(received, NoParameters::default());
}

#[test]
fn zeros_payload_is_all_zero() {
    let bytes = Zeros::<4>::default().to_bytes().unwrap();
    assert_eq!(bytes, vec![0, 0, 0, 0]);
    assert_eq!(<Zeros<4> as ToByteArray>::byte_count(), 4);
    let none = Zeros::<0>::default().to_bytes().unwrap();
    assert_eq!(none, Vec::<u8>::new());
}

#[test]
fn byte_array_zeroed_and_viewable() {
    let mut buf = <[u8; 4] as ByteArray>::new();
    assert_eq!(buf, [0u8; 4]);
    assert_eq!(ByteArray::as_view(&buf), &[0u8, 0, 0, 0]);
    let view = ByteArray::as_mutable_view(&mut buf);
    view[2] = 9;
    assert_eq!(buf, [0u8, 0, 9, 0]);
}
