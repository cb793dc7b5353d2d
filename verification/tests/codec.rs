//! Primitive and composite codec behaviour over the plain buffers.

use instructor::{
    Buffer, BufferExt, BufferMut, BufferMutExt, ByteReader, DoubleEndedBufferMut, Error,
};
use instructor::unpack::read_rest;

#[test]
fn u16_little_endian_roundtrip() {
    let mut out: Vec<u8> = Vec::new();
    out.write_le(0x1234u16);
    assert_eq!(out, vec![0x34, 0x12]);
    let mut r = ByteReader::new(out);
    let v: u16 = r.read_le().unwrap();
    assert_eq!(v, 0x1234);
    assert_eq!(r.remaining(), 0);
}

#[test]
fn u16_big_endian_roundtrip() {
    let mut out: Vec<u8> = Vec::new();
    out.write_be(0x1234u16);
    assert_eq!(out, vec![0x12, 0x34]);
    let mut r = ByteReader::new(out);
    let v: u16 = r.read_be().unwrap();
    assert_eq!(v, 0x1234);
}

#[test]
fn u32_u64_u128_roundtrips() {
    let mut out: Vec<u8> = Vec::new();
    out.write_le(0x0102_0304u32);
    out.write_be(0x0102_0304u32);
    out.write_le(0x0102_0304_0506_0708u64);
    out.write_be(0x0102_0304_0506_0708u64);
    out.write_le(0x0102_0304_0506_0708_090a_0b0c_0d0e_0f10u128);
    out.write_be(0x0102_0304_0506_0708_090a_0b0c_0d0e_0f10u128);
    assert_eq!(out.len(), 4 + 4 + 8 + 8 + 16 + 16);
    assert_eq!(&out[0..4], &[0x04, 0x03, 0x02, 0x01]);
    assert_eq!(&out[4..8], &[0x01, 0x02, 0x03, 0x04]);
    let mut r = ByteReader::new(out);
    assert_eq!(r.read_le::<u32>().unwrap(), 0x0102_0304);
    assert_eq!(r.read_be::<u32>().unwrap(), 0x0102_0304);
    assert_eq!(r.read_le::<u64>().unwrap(), 0x0102_0304_0506_0708);
    assert_eq!(r.read_be::<u64>().unwrap(), 0x0102_0304_0506_0708);
    assert_eq!(
        r.read_le::<u128>().unwrap(),
        0x0102_0304_0506_0708_090a_0b0c_0d0e_0f10
    );
    assert_eq!(
        r.read_be::<u128>().unwrap(),
        0x0102_0304_0506_0708_090a_0b0c_0d0e_0f10
    );
    assert!(r.finish().is_ok());
}

#[test]
fn signed_roundtrips() {
    let mut out: Vec<u8> = Vec::new();
    out.write_le(-2i8);
    out.write_le(-2i16);
    out.write_be(-2i32);
    out.write_le(-2i64);
    out.write_be(-2i128);
    let mut r = ByteReader::new(out);
    assert_eq!(r.read_le::<i8>().unwrap(), -2);
    assert_eq!(r.read_le::<i16>().unwrap(), -2);
    assert_eq!(r.read_be::<i32>().unwrap(), -2);
    assert_eq!(r.read_le::<i64>().unwrap(), -2);
    assert_eq!(r.read_be::<i128>().unwrap(), -2);
}

#[test]
fn bounds_too_short_and_exact() {
    // fewer than size_of bytes: TooShort
    let mut r = ByteReader::new(vec![0x01, 0x02, 0x03]);
    assert_eq!(r.read_le::<u32>(), Err(Error::TooShort));
    // exactly size_of bytes: succeeds and leaves zero remaining
    let mut r2 = ByteReader::new(vec![0x01, 0x02, 0x03, 0x04]);
    assert_eq!(r2.read_le::<u32>().unwrap(), 0x0403_0201);
    assert_eq!(r2.remaining(), 0);
}

#[test]
fn bool_decode_is_permissive() {
    let mut r = ByteReader::new(vec![0x00, 0x01, 0x02]);
    assert_eq!(r.read_le::<bool>().unwrap(), false);
    assert_eq!(r.read_le::<bool>().unwrap(), true);
    // any nonzero byte decodes to true; nothing is rejected
    assert_eq!(r.read_le::<bool>().unwrap(), true);
    let mut out: Vec<u8> = Vec::new();
    out.write_be(true);
    out.write_be(false);
    assert_eq!(out, vec![1, 0]);
}

#[test]
fn unit_and_tuples() {
    let mut out: Vec<u8> = Vec::new();
    out.write_le(());
    assert_eq!(out.len(), 0);
    out.write_le((0x01u8, 0x0203u16));
    assert_eq!(out, vec![0x01, 0x03, 0x02]);
    let mut r = ByteReader::new(out);
    let () = r.read_le::<()>().unwrap();
    let (a, b): (u8, u16) = r.read_le().unwrap();
    assert_eq!((a, b), (0x01, 0x0203));
    let mut out3: Vec<u8> = Vec::new();
    out3.write_be((1u8, 2u8, 3u8));
    out3.write_be((4u8, 5u8, 6u8, 7u8));
    let mut r3 = ByteReader::new(out3);
    assert_eq!(r3.read_be::<(u8, u8, u8)>().unwrap(), (1, 2, 3));
    assert_eq!(r3.read_be::<(u8, u8, u8, u8)>().unwrap(), (4, 5, 6, 7));
}

#[test]
fn vec_encode_and_read_rest() {
    let items: Vec<u16> = vec![0x0102, 0x0304];
    let mut out: Vec<u8> = Vec::new();
    out.write_le_ref(&items);
    assert_eq!(out, vec![0x02, 0x01, 0x04, 0x03]);
    let mut r = ByteReader::new(out);
    r.skip(1).unwrap();
    let rest = read_rest(&mut r);
    assert_eq!(rest, vec![0x01, 0x04, 0x03]);
    assert!(r.finish().is_ok());
}

#[test]
fn finish_rejects_trailing_bytes() {
    let mut r = ByteReader::new(vec![0xaa]);
    assert_eq!(r.finish(), Err(Error::TooLong));
    r.skip(1).unwrap();
    assert!(r.finish().is_ok());
    assert_eq!(r.skip(1), Err(Error::TooShort));
}

#[test]
fn write_front_prepends() {
    let mut out: Vec<u8> = Vec::new();
    out.write_le(0x0102u16);
    out.write_front::<u8, instructor::BigEndian>(0xff);
    assert_eq!(out, vec![0xff, 0x02, 0x01]);
}

#[test]
fn explicit_strategy_and_native_order() {
    let mut out: Vec<u8> = Vec::new();
    out.write::<u16, instructor::BigEndian>(0x0102);
    out.write_ne(0x0304u16);
    out.write_ne_ref(&0x0506u16);
    let mut r = ByteReader::new(out);
    assert_eq!(r.read::<u16, instructor::BigEndian>().unwrap(), 0x0102);
    // the native order resolves to the host's in-memory representation
    assert_eq!(r.read_ne::<u16>().unwrap(), 0x0304);
    assert_eq!(r.read_ne::<u16>().unwrap(), 0x0506);
}

#[test]
fn error_messages() {
    assert_eq!(Error::TooShort.message(), "Packet too short");
    assert_eq!(Error::TooLong.message(), "Packet too long");
    assert_eq!(Error::InvalidValue.message(), "Invalid value");
    assert_eq!(Error::UnexpectedLength.message(), "Unexpected length");
}
