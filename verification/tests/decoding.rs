//! The primitive decoders: width dispatch on buffer length, byte order,
//! checked conversion into the caller's type, and the error messages.

use rshark::BigEndian;
use rshark::Error;
use rshark::LittleEndian;
use rshark::signed;
use rshark::unsigned;

fn invalid_data_message<T: std::fmt::Debug>(r: Result<T, Error>) -> String {
    match r {
        Err(Error::InvalidData(m)) => m,
        other => panic!("expected InvalidData, got {:?}", other),
    }
}

#[test]
fn unsigned_u16_big_endian() {
    let r = unsigned::<u16, BigEndian>(&[0x01, 0x02]);
    assert!(matches!(r, Ok(258)));
}

#[test]
fn unsigned_u16_little_endian() {
    let r = unsigned::<u16, LittleEndian>(&[0x01, 0x02]);
    assert!(matches!(r, Ok(0x0201)));
}

#[test]
fn unsigned_u32_little_endian() {
    let r = unsigned::<u32, LittleEndian>(&[0x78, 0x56, 0x34, 0x12]);
    assert!(matches!(r, Ok(0x1234_5678)));
}

#[test]
fn unsigned_u64_big_endian() {
    let r = unsigned::<u64, BigEndian>(&[0x01, 0x02, 0x03, 0x04, 0x05, 0x06, 0x07, 0x08]);
    assert!(matches!(r, Ok(0x0102_0304_0506_0708)));
}

#[test]
fn unsigned_single_byte_ignores_order() {
    assert!(matches!(unsigned::<u16, BigEndian>(&[0x01]), Ok(1)));
    assert!(matches!(unsigned::<u16, LittleEndian>(&[0x01]), Ok(1)));
}

#[test]
fn unsigned_invalid_size_zero() {
    let m = invalid_data_message(unsigned::<u32, BigEndian>(&[]));
    assert_eq!(m, "Invalid integer size (0 B)");
}

#[test]
fn unsigned_invalid_size_three() {
    let m = invalid_data_message(unsigned::<u32, BigEndian>(&[1, 2, 3]));
    assert_eq!(m, "Invalid integer size (3 B)");
}

#[test]
fn signed_invalid_size_five() {
    let m = invalid_data_message(signed::<i64, BigEndian>(&[0, 0, 0, 0, 0]));
    assert_eq!(m, "Invalid integer size (5 B)");
}

#[test]
fn unsigned_conversion_failure_names_size() {
    let m = invalid_data_message(unsigned::<u8, BigEndian>(&[0x01, 0x02]));
    assert_eq!(m, "Failed to convert integer (2 B)");
}

#[test]
fn unsigned_high_byte_does_not_fit_i8() {
    let m = invalid_data_message(unsigned::<i8, BigEndian>(&[0xFF]));
    assert_eq!(m, "Failed to convert integer (1 B)");
}

#[test]
fn signed_one_byte_twos_complement() {
    assert!(matches!(signed::<i8, BigEndian>(&[0xFF]), Ok(-1)));
    assert!(matches!(signed::<i64, BigEndian>(&[0x80]), Ok(-128)));
    assert!(matches!(signed::<i8, LittleEndian>(&[0x7F]), Ok(127)));
}

#[test]
fn signed_two_bytes_both_orders() {
    assert!(matches!(signed::<i16, BigEndian>(&[0x80, 0x00]), Ok(i16::MIN)));
    assert!(matches!(signed::<i16, LittleEndian>(&[0x00, 0x80]), Ok(i16::MIN)));
    assert!(matches!(signed::<i16, BigEndian>(&[0xFF, 0xFF]), Ok(-1)));
}

#[test]
fn signed_four_bytes_positive() {
    assert!(matches!(signed::<i32, BigEndian>(&[0x00, 0x00, 0x01, 0x02]), Ok(258)));
}

#[test]
fn signed_eight_bytes_minimum() {
    let r = signed::<i64, BigEndian>(&[0x80, 0, 0, 0, 0, 0, 0, 0]);
    assert!(matches!(r, Ok(i64::MIN)));
}

#[test]
fn signed_conversion_failure_names_size() {
    let m = invalid_data_message(signed::<i8, BigEndian>(&[0x01, 0x00]));
    assert_eq!(m, "Failed to convert integer (2 B)");
}
