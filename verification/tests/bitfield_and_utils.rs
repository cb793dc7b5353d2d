//! Bitfield registers, the length-validation type, the bounded view and
//! the 24-bit integer.

use instructor::{
    u24, BitBuffer, BitStorage, Buffer, BufferExt, BufferMutExt, ByteReader, ByteSize, Error,
    Instruct, Length, Limit, LittleEndian, MapIndex,
};

#[test]
fn bitfield_pack_two_nibbles() {
    // one-byte register, fields at bits [0,4) and [4,8): 0x5 and 0xA
    // assemble to 0xA5
    let mut bb = BitBuffer::<u8>::empty();
    bb.set_range(0, 4);
    bb.extend_from_slice(&[0x5]);
    bb.set_range(4, 8);
    bb.extend_from_slice(&[0xA]);
    let mut out: Vec<u8> = Vec::new();
    Instruct::<LittleEndian>::write_to_buffer(&bb, &mut out);
    assert_eq!(out, vec![0xA5]);
}

#[test]
fn bitfield_unpack_two_nibbles() {
    let mut r = ByteReader::new(vec![0xA5, 0x77]);
    let mut bb = BitBuffer::<u8>::new::<LittleEndian, _>(&mut r).unwrap();
    assert_eq!(bb.remaining(), 1);
    bb.set_range(0, 4);
    let mut low = vec![0u8];
    bb.try_copy_to_slice(&mut low).unwrap();
    assert_eq!(low, vec![0x5]);
    bb.set_range(4, 8);
    let mut high = vec![0u8];
    bb.try_copy_to_slice(&mut high).unwrap();
    assert_eq!(high, vec![0xA]);
    // a window is only as wide as its register
    let mut wide = vec![0u8, 0u8];
    assert_eq!(bb.try_copy_to_slice(&mut wide), Err(Error::TooShort));
}

#[test]
fn bitfield_sixteen_bit_register() {
    let mut bb = BitBuffer::<u16>::empty();
    bb.set_range(0, 12);
    bb.extend_from_slice(&[0x8, 0x00]);
    bb.set_range(12, 14);
    bb.extend_from_slice(&[0x2]);
    let mut out: Vec<u8> = Vec::new();
    Instruct::<LittleEndian>::write_to_buffer(&bb, &mut out);
    // register value 0x2800: handle 0x800 in [0,12), flag 2 in [12,14)
    assert_eq!(out, vec![0x00, 0x28]);
}

#[test]
fn bitstorage_extract_insert() {
    let reg: u16 = 0xA5F0;
    let window = reg.extract(4, 12);
    assert_eq!(window, vec![0x00, 0x5F]);
    let mut reg2: u16 = 0;
    reg2.insert(4, 12, &[0x00, 0x5F]);
    assert_eq!(reg2, 0x05F0);
    let mut reg3: u128 = 0;
    reg3.insert(120, 128, &vec![0xABu8; 16]);
    let top = reg3.extract(120, 128);
    assert_eq!(top[15], 0xAB);
    assert_eq!(top[0], 0x00);
}

#[test]
fn length_validates_remaining() {
    // declared count matches the two bytes behind it
    let mut r = ByteReader::new(vec![0x02, 0x00, 0xaa, 0xbb]);
    let len: Length<u16, 0> = r.read_le().unwrap();
    assert_eq!(len.0, 2);
    // any other remaining count is UnexpectedLength
    let mut r2 = ByteReader::new(vec![0x02, 0x00, 0xaa, 0xbb, 0xcc]);
    assert_eq!(
        r2.read_le::<Length<u16, 0>>(),
        Err(Error::UnexpectedLength)
    );
}

#[test]
fn length_with_static_offset() {
    // offset models header bytes counted beyond the declared length
    let mut r = ByteReader::new(vec![0x01, 0x00, 0xaa, 0xbb, 0xcc]);
    let len: Length<u16, 2> = r.read_le().unwrap();
    assert_eq!(len.0, 1);
    let built = Length::<u16, 2>::with_offset(3).unwrap();
    assert_eq!(built.0, 1);
    assert_eq!(Length::<u16, 2>::with_offset(1).unwrap().0, 0);
}

#[test]
fn length_new_rejects_overflow() {
    assert_eq!(Length::<u8, 0>::new(300), Err(Error::InvalidValue));
    assert_eq!(Length::<u8, 0>::new(255).unwrap().0, 255);
    let l = Length::<u32, 0>::new(70_000).unwrap();
    let mut out: Vec<u8> = Vec::new();
    out.write_le(l);
    assert_eq!(out, vec![0x70, 0x11, 0x01, 0x00]);
}

#[test]
fn limit_caps_consumption() {
    let inner = ByteReader::new(vec![1, 2, 3, 4, 5]);
    let mut lim = Limit::new(inner, 3);
    assert_eq!(lim.remaining(), 3);
    let v: u16 = lim.read_le().unwrap();
    assert_eq!(v, 0x0201);
    assert_eq!(lim.remaining(), 1);
    // beyond the budget fails even though the inner buffer has bytes
    assert_eq!(lim.read_le::<u16>(), Err(Error::TooShort));
    assert_eq!(lim.read_le::<u8>().unwrap(), 3);
    let mut inner_back = lim.into_inner();
    assert_eq!(inner_back.remaining(), 2);
}

#[test]
fn limit_is_bounded_by_inner() {
    let inner = ByteReader::new(vec![9]);
    let mut lim = Limit::new(inner, 100);
    assert_eq!(lim.remaining(), 1);
    assert_eq!(lim.skip(2), Err(Error::TooShort));
    lim.skip(1).unwrap();
    assert_eq!(lim.remaining(), 0);
}

#[test]
fn u24_codec_and_conversions() {
    let v = u24::new(0x0A0B0C);
    let mut out: Vec<u8> = Vec::new();
    out.write_le(v);
    out.write_be(v);
    assert_eq!(out, vec![0x0C, 0x0B, 0x0A, 0x0A, 0x0B, 0x0C]);
    let mut r = ByteReader::new(out);
    assert_eq!(r.read_le::<u24>().unwrap(), v);
    assert_eq!(r.read_be::<u24>().unwrap(), v);
    assert_eq!(u24::from(0x12u8).0, 0x12);
    assert_eq!(u24::from(0x1234u16).0, 0x1234);
    assert_eq!(u32::from(v), 0x0A0B0C);
    assert_eq!(u24::max().0, 0xFF_FFFF);
    assert_eq!(u24::min().0, 0);
}

#[test]
fn u24_as_bitfield_register() {
    let mut bb = BitBuffer::<u24>::empty();
    bb.set_range(0, 12);
    bb.extend_from_slice(&[0x3, 0x45]);
    bb.set_range(12, 24);
    bb.extend_from_slice(&[0x6, 0x78]);
    let mut out: Vec<u8> = Vec::new();
    Instruct::<LittleEndian>::write_to_buffer(&bb, &mut out);
    // register value 0x678345, little-endian on the wire
    assert_eq!(out, vec![0x45, 0x83, 0x67]);
}

#[test]
fn map_index_selects_value_bytes() {
    assert_eq!(<instructor::LittleEndian as MapIndex>::map_index(3, 4), (0, 3));
    assert_eq!(<instructor::BigEndian as MapIndex>::map_index(3, 4), (1, 4));
}

#[test]
fn byte_size_of_vec() {
    let v: Vec<u8> = vec![1, 2, 3];
    assert_eq!(v.byte_size(), 3);
}
