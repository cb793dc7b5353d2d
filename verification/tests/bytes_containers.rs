//! The `bytes` crate's containers used as buffers.

use bytes::{Bytes, BytesMut};
use instructor::schema::{decode_record, Endian, Field, FieldKind, IntWidth, Schema};
use instructor::{Buffer, BufferExt, BufferMutExt, Error, Limit};

#[test]
fn bytes_reads_and_advances() {
    let mut b = Bytes::from(vec![0x34, 0x12, 0x99]);
    assert_eq!(b.remaining(), 3);
    let v: u16 = b.read_le().unwrap();
    assert_eq!(v, 0x1234);
    assert_eq!(b.remaining(), 1);
    assert_eq!(b.read_le::<u16>(), Err(Error::TooShort));
    assert_eq!(b.read_be::<u8>().unwrap(), 0x99);
    assert!(b.finish().is_ok());
}

#[test]
fn bytes_skip_drops_front() {
    let mut b = Bytes::from(vec![1, 2, 3, 4]);
    b.skip(2).unwrap();
    assert_eq!(b.read_be::<u16>().unwrap(), 0x0304);
    assert_eq!(Buffer::skip(&mut b, 1), Err(Error::TooShort));
}

#[test]
fn bytes_mut_collects_writes() {
    let mut m = BytesMut::new();
    m.write_le(0x1234u16);
    m.write_be(0x5678u16);
    assert_eq!(&m[..], &[0x34, 0x12, 0x56, 0x78]);
}

#[test]
fn bytes_payload_written_verbatim() {
    let payload = Bytes::from(vec![1, 2, 3]);
    let mut out: Vec<u8> = Vec::new();
    out.write_le_ref(&payload);
    out.write_be(payload);
    assert_eq!(out, vec![1, 2, 3, 1, 2, 3]);
}

#[test]
fn record_from_bytes_buffer() {
    let schema = Schema {
        endian: Endian::Big,
        fields: vec![
            Field { kind: FieldKind::UInt(IntWidth::W16), bits: None, register: None },
            Field {
                kind: FieldKind::Length { width: IntWidth::W8, offset: 0 },
                bits: None,
                register: None,
            },
        ],
    };
    let mut b = Bytes::from(vec![0xBE, 0xEF, 0x01, 0xAA]);
    let vals = decode_record(&schema, &mut b).unwrap();
    assert_eq!(vals, vec![0xBEEF, 1]);
    assert_eq!(b.remaining(), 1);
}

#[test]
fn limit_over_bytes() {
    let inner = Bytes::from(vec![7, 8, 9]);
    let mut lim = Limit::new(inner, 2);
    assert_eq!(lim.read_be::<u16>().unwrap(), 0x0708);
    assert_eq!(lim.read_be::<u8>(), Err(Error::TooShort));
    let mut back = lim.into_inner();
    assert_eq!(back.remaining(), 1);
}
