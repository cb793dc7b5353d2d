//! Byte-order strategies.
//!
//! `LittleEndian` and `BigEndian` are the two concrete strategies; the
//! `Endian` trait supplies, for every fixed-width unsigned wire type, the
//! pure conversion between the value and its byte encoding.  Conversion is
//! a bijection on fixed-width bit patterns, stated by the round-trip
//! lemmas at the end of this module.

use vstd::prelude::*;

verus! {

/// Least-significant byte first.
pub struct LittleEndian;

/// Most-significant byte first.
pub struct BigEndian;

// The value held by a little-endian byte sequence, per width.

pub open spec fn u16_le_val(b: Seq<u8>) -> u16
    recommends
        b.len() == 2,
{
    (b[0] as u16) | (b[1] as u16) << 8
}

pub open spec fn u16_be_val(b: Seq<u8>) -> u16
    recommends
        b.len() == 2,
{
    (b[0] as u16) << 8 | (b[1] as u16)
}

pub open spec fn u32_le_val(b: Seq<u8>) -> u32
    recommends
        b.len() == 4,
{
    (b[0] as u32) | (b[1] as u32) << 8 | (b[2] as u32) << 16 | (b[3] as u32) << 24
}

pub open spec fn u32_be_val(b: Seq<u8>) -> u32
    recommends
        b.len() == 4,
{
    (b[0] as u32) << 24 | (b[1] as u32) << 16 | (b[2] as u32) << 8 | (b[3] as u32)
}

pub open spec fn u24_le_val(b: Seq<u8>) -> u32
    recommends
        b.len() == 3,
{
    (b[0] as u32) | (b[1] as u32) << 8 | (b[2] as u32) << 16
}

pub open spec fn u24_be_val(b: Seq<u8>) -> u32
    recommends
        b.len() == 3,
{
    (b[0] as u32) << 16 | (b[1] as u32) << 8 | (b[2] as u32)
}

pub open spec fn u64_le_val(b: Seq<u8>) -> u64
    recommends
        b.len() == 8,
{
    (b[0] as u64) | (b[1] as u64) << 8 | (b[2] as u64) << 16 | (b[3] as u64) << 24
        | (b[4] as u64) << 32 | (b[5] as u64) << 40 | (b[6] as u64) << 48 | (b[7] as u64) << 56
}

pub open spec fn u64_be_val(b: Seq<u8>) -> u64
    recommends
        b.len() == 8,
{
    (b[0] as u64) << 56 | (b[1] as u64) << 48 | (b[2] as u64) << 40 | (b[3] as u64) << 32
        | (b[4] as u64) << 24 | (b[5] as u64) << 16 | (b[6] as u64) << 8 | (b[7] as u64)
}

pub open spec fn u128_le_val(b: Seq<u8>) -> u128
    recommends
        b.len() == 16,
{
    (u64_le_val(b.take(8)) as u128) | (u64_le_val(b.skip(8)) as u128) << 64
}

pub open spec fn u128_be_val(b: Seq<u8>) -> u128
    recommends
        b.len() == 16,
{
    (u64_be_val(b.take(8)) as u128) << 64 | (u64_be_val(b.skip(8)) as u128)
}

// The byte encoding of a value, per width.

pub open spec fn u16_le_bytes(v: u16) -> Seq<u8> {
    seq![(v & 0xff) as u8, ((v >> 8) & 0xff) as u8]
}

pub open spec fn u16_be_bytes(v: u16) -> Seq<u8> {
    seq![((v >> 8) & 0xff) as u8, (v & 0xff) as u8]
}

pub open spec fn u32_le_bytes(v: u32) -> Seq<u8> {
    seq![
        (v & 0xff) as u8,
        ((v >> 8) & 0xff) as u8,
        ((v >> 16) & 0xff) as u8,
        ((v >> 24) & 0xff) as u8,
    ]
}

pub open spec fn u32_be_bytes(v: u32) -> Seq<u8> {
    seq![
        ((v >> 24) & 0xff) as u8,
        ((v >> 16) & 0xff) as u8,
        ((v >> 8) & 0xff) as u8,
        (v & 0xff) as u8,
    ]
}

pub open spec fn u24_le_bytes(v: u32) -> Seq<u8>
    recommends
        v < 0x100_0000,
{
    seq![(v & 0xff) as u8, ((v >> 8) & 0xff) as u8, ((v >> 16) & 0xff) as u8]
}

pub open spec fn u24_be_bytes(v: u32) -> Seq<u8>
    recommends
        v < 0x100_0000,
{
    seq![((v >> 16) & 0xff) as u8, ((v >> 8) & 0xff) as u8, (v & 0xff) as u8]
}

pub open spec fn u64_le_bytes(v: u64) -> Seq<u8> {
    seq![
        (v & 0xff) as u8,
        ((v >> 8) & 0xff) as u8,
        ((v >> 16) & 0xff) as u8,
        ((v >> 24) & 0xff) as u8,
        ((v >> 32) & 0xff) as u8,
        ((v >> 40) & 0xff) as u8,
        ((v >> 48) & 0xff) as u8,
        ((v >> 56) & 0xff) as u8,
    ]
}

pub open spec fn u64_be_bytes(v: u64) -> Seq<u8> {
    seq![
        ((v >> 56) & 0xff) as u8,
        ((v >> 48) & 0xff) as u8,
        ((v >> 40) & 0xff) as u8,
        ((v >> 32) & 0xff) as u8,
        ((v >> 24) & 0xff) as u8,
        ((v >> 16) & 0xff) as u8,
        ((v >> 8) & 0xff) as u8,
        (v & 0xff) as u8,
    ]
}

pub open spec fn u128_le_bytes(v: u128) -> Seq<u8> {
    u64_le_bytes((v & 0xffff_ffff_ffff_ffff) as u64) + u64_le_bytes(((v >> 64) & 0xffff_ffff_ffff_ffff) as u64)
}

pub open spec fn u128_be_bytes(v: u128) -> Seq<u8> {
    u64_be_bytes(((v >> 64) & 0xffff_ffff_ffff_ffff) as u64) + u64_be_bytes((v & 0xffff_ffff_ffff_ffff) as u64)
}

// The per-width bit-level facts behind the round-trip laws, each proved
// once for both byte orders.

proof fn u16_round_prop(v: u16)
    by (bit_vector)
    ensures
        ((v & 0xff) as u8 as u16) | (((v >> 8) & 0xff) as u8 as u16) << 8 == v,
        (((v >> 8) & 0xff) as u8 as u16) << 8 | ((v & 0xff) as u8 as u16) == v,
{
}

proof fn u16_bytes_prop(b0: u8, b1: u8, xle: u16, xbe: u16)
    by (bit_vector)
    ensures
        xle == (b0 as u16) | (b1 as u16) << 8 ==> (xle & 0xff) as u8 == b0 && ((xle >> 8)
            & 0xff) as u8 == b1,
        xbe == (b0 as u16) << 8 | (b1 as u16) ==> ((xbe >> 8) & 0xff) as u8 == b0 && (xbe
            & 0xff) as u8 == b1,
{
}

proof fn u24_val_range(b0: u8, b1: u8, b2: u8)
    by (bit_vector)
    ensures
        (b0 as u32) | (b1 as u32) << 8 | (b2 as u32) << 16 < 0x100_0000u32,
        (b0 as u32) << 16 | (b1 as u32) << 8 | (b2 as u32) < 0x100_0000u32,
{
}

proof fn u24_round_prop(v: u32)
    by (bit_vector)
    ensures
        v < 0x100_0000 ==> ((v & 0xff) as u8 as u32) | (((v >> 8) & 0xff) as u8 as u32) << 8 | (((v
            >> 16) & 0xff) as u8 as u32) << 16 == v,
        v < 0x100_0000 ==> (((v >> 16) & 0xff) as u8 as u32) << 16 | (((v >> 8)
            & 0xff) as u8 as u32) << 8 | ((v & 0xff) as u8 as u32) == v,
{
}

proof fn u24_bytes_prop(b0: u8, b1: u8, b2: u8, xle: u32, xbe: u32)
    by (bit_vector)
    ensures
        xle == (b0 as u32) | (b1 as u32) << 8 | (b2 as u32) << 16 ==> (xle & 0xff) as u8 == b0 && ((
        xle >> 8) & 0xff) as u8 == b1 && ((xle >> 16) & 0xff) as u8 == b2,
        xbe == (b0 as u32) << 16 | (b1 as u32) << 8 | (b2 as u32) ==> ((xbe >> 16)
            & 0xff) as u8 == b0 && ((xbe >> 8) & 0xff) as u8 == b1 && (xbe & 0xff) as u8 == b2,
{
}

proof fn u32_round_prop(v: u32)
    by (bit_vector)
    ensures
        ((v & 0xff) as u8 as u32) | (((v >> 8) & 0xff) as u8 as u32) << 8 | (((v >> 16)
            & 0xff) as u8 as u32) << 16 | (((v >> 24) & 0xff) as u8 as u32) << 24 == v,
        (((v >> 24) & 0xff) as u8 as u32) << 24 | (((v >> 16) & 0xff) as u8 as u32) << 16 | (((v
            >> 8) & 0xff) as u8 as u32) << 8 | ((v & 0xff) as u8 as u32) == v,
{
}

proof fn u32_bytes_prop(b0: u8, b1: u8, b2: u8, b3: u8, xle: u32, xbe: u32)
    by (bit_vector)
    ensures
        xle == (b0 as u32) | (b1 as u32) << 8 | (b2 as u32) << 16 | (b3 as u32) << 24 ==> (xle
            & 0xff) as u8 == b0 && ((xle >> 8) & 0xff) as u8 == b1 && ((xle >> 16)
            & 0xff) as u8 == b2 && ((xle >> 24) & 0xff) as u8 == b3,
        xbe == (b0 as u32) << 24 | (b1 as u32) << 16 | (b2 as u32) << 8 | (b3 as u32) ==> ((xbe
            >> 24) & 0xff) as u8 == b0 && ((xbe >> 16) & 0xff) as u8 == b1 && ((xbe >> 8)
            & 0xff) as u8 == b2 && (xbe & 0xff) as u8 == b3,
{
}

proof fn u64_round_prop(v: u64)
    by (bit_vector)
    ensures
        ((v & 0xff) as u8 as u64) | (((v >> 8) & 0xff) as u8 as u64) << 8 | (((v >> 16)
            & 0xff) as u8 as u64) << 16 | (((v >> 24) & 0xff) as u8 as u64) << 24 | (((v >> 32)
            & 0xff) as u8 as u64) << 32 | (((v >> 40) & 0xff) as u8 as u64) << 40 | (((v >> 48)
            & 0xff) as u8 as u64) << 48 | (((v >> 56) & 0xff) as u8 as u64) << 56 == v,
        (((v >> 56) & 0xff) as u8 as u64) << 56 | (((v >> 48) & 0xff) as u8 as u64) << 48 | (((v
            >> 40) & 0xff) as u8 as u64) << 40 | (((v >> 32) & 0xff) as u8 as u64) << 32 | (((v
            >> 24) & 0xff) as u8 as u64) << 24 | (((v >> 16) & 0xff) as u8 as u64) << 16 | (((v
            >> 8) & 0xff) as u8 as u64) << 8 | ((v & 0xff) as u8 as u64) == v,
{
}

proof fn u64_bytes_prop(
    b0: u8,
    b1: u8,
    b2: u8,
    b3: u8,
    b4: u8,
    b5: u8,
    b6: u8,
    b7: u8,
    xle: u64,
    xbe: u64,
)
    by (bit_vector)
    ensures
        xle == (b0 as u64) | (b1 as u64) << 8 | (b2 as u64) << 16 | (b3 as u64) << 24 | (b4
            as u64) << 32 | (b5 as u64) << 40 | (b6 as u64) << 48 | (b7 as u64) << 56 ==> (xle
            & 0xff) as u8 == b0 && ((xle >> 8) & 0xff) as u8 == b1 && ((xle >> 16)
            & 0xff) as u8 == b2 && ((xle >> 24) & 0xff) as u8 == b3 && ((xle >> 32)
            & 0xff) as u8 == b4 && ((xle >> 40) & 0xff) as u8 == b5 && ((xle >> 48)
            & 0xff) as u8 == b6 && ((xle >> 56) & 0xff) as u8 == b7,
        xbe == (b0 as u64) << 56 | (b1 as u64) << 48 | (b2 as u64) << 40 | (b3 as u64) << 32 | (b4
            as u64) << 24 | (b5 as u64) << 16 | (b6 as u64) << 8 | (b7 as u64) ==> ((xbe >> 56)
            & 0xff) as u8 == b0 && ((xbe >> 48) & 0xff) as u8 == b1 && ((xbe >> 40)
            & 0xff) as u8 == b2 && ((xbe >> 32) & 0xff) as u8 == b3 && ((xbe >> 24)
            & 0xff) as u8 == b4 && ((xbe >> 16) & 0xff) as u8 == b5 && ((xbe >> 8)
            & 0xff) as u8 == b6 && (xbe & 0xff) as u8 == b7,
{
}

// Round-trip laws: for each width and byte order, decoding the encoding
// of a value yields the value back, and encoding the decoding of a byte
// pattern yields the bytes back.  Conversion is therefore a bijection on
// fixed-width bit patterns.

/// Law: a `u16` survives the little-endian byte round trip.
pub proof fn lemma_u16_le_round(v: u16)
    ensures
        u16_le_val(u16_le_bytes(v)) == v,
        u16_le_bytes(v).len() == 2,
{
    u16_round_prop(v);
}

/// Law: a `u16` survives the big-endian byte round trip.
pub proof fn lemma_u16_be_round(v: u16)
    ensures
        u16_be_val(u16_be_bytes(v)) == v,
        u16_be_bytes(v).len() == 2,
{
    u16_round_prop(v);
}

/// Law: two little-endian bytes survive the value round trip.
pub proof fn lemma_u16_le_bytes_round(b: Seq<u8>)
    requires
        b.len() == 2,
    ensures
        u16_le_bytes(u16_le_val(b)) =~= b,
{
    u16_bytes_prop(b[0], b[1], u16_le_val(b), u16_be_val(b));
}

/// Law: two big-endian bytes survive the value round trip.
pub proof fn lemma_u16_be_bytes_round(b: Seq<u8>)
    requires
        b.len() == 2,
    ensures
        u16_be_bytes(u16_be_val(b)) =~= b,
{
    u16_bytes_prop(b[0], b[1], u16_le_val(b), u16_be_val(b));
}

/// Law: a 24-bit value survives the little-endian byte round trip.
pub proof fn lemma_u24_le_round(v: u32)
    requires
        v < 0x100_0000,
    ensures
        u24_le_val(u24_le_bytes(v)) == v,
        u24_le_bytes(v).len() == 3,
{
    u24_round_prop(v);
}

/// Law: a 24-bit value survives the big-endian byte round trip.
pub proof fn lemma_u24_be_round(v: u32)
    requires
        v < 0x100_0000,
    ensures
        u24_be_val(u24_be_bytes(v)) == v,
        u24_be_bytes(v).len() == 3,
{
    u24_round_prop(v);
}

/// Law: three little-endian bytes survive the value round trip.
pub proof fn lemma_u24_le_bytes_round(b: Seq<u8>)
    requires
        b.len() == 3,
    ensures
        u24_le_bytes(u24_le_val(b)) =~= b,
{
    u24_bytes_prop(b[0], b[1], b[2], u24_le_val(b), u24_be_val(b));
}

/// Law: three big-endian bytes survive the value round trip.
pub proof fn lemma_u24_be_bytes_round(b: Seq<u8>)
    requires
        b.len() == 3,
    ensures
        u24_be_bytes(u24_be_val(b)) =~= b,
{
    u24_bytes_prop(b[0], b[1], b[2], u24_le_val(b), u24_be_val(b));
}

/// Law: a `u32` survives the little-endian byte round trip.
pub proof fn lemma_u32_le_round(v: u32)
    ensures
        u32_le_val(u32_le_bytes(v)) == v,
        u32_le_bytes(v).len() == 4,
{
    u32_round_prop(v);
}

/// Law: a `u32` survives the big-endian byte round trip.
pub proof fn lemma_u32_be_round(v: u32)
    ensures
        u32_be_val(u32_be_bytes(v)) == v,
        u32_be_bytes(v).len() == 4,
{
    u32_round_prop(v);
}

/// Law: four little-endian bytes survive the value round trip.
pub proof fn lemma_u32_le_bytes_round(b: Seq<u8>)
    requires
        b.len() == 4,
    ensures
        u32_le_bytes(u32_le_val(b)) =~= b,
{
    u32_bytes_prop(b[0], b[1], b[2], b[3], u32_le_val(b), u32_be_val(b));
}

/// Law: four big-endian bytes survive the value round trip.
pub proof fn lemma_u32_be_bytes_round(b: Seq<u8>)
    requires
        b.len() == 4,
    ensures
        u32_be_bytes(u32_be_val(b)) =~= b,
{
    u32_bytes_prop(b[0], b[1], b[2], b[3], u32_le_val(b), u32_be_val(b));
}

/// Law: a `u64` survives the little-endian byte round trip.
pub proof fn lemma_u64_le_round(v: u64)
    ensures
        u64_le_val(u64_le_bytes(v)) == v,
        u64_le_bytes(v).len() == 8,
{
    u64_round_prop(v);
}

/// Law: a `u64` survives the big-endian byte round trip.
pub proof fn lemma_u64_be_round(v: u64)
    ensures
        u64_be_val(u64_be_bytes(v)) == v,
        u64_be_bytes(v).len() == 8,
{
    u64_round_prop(v);
}

/// Law: eight little-endian bytes survive the value round trip.
pub proof fn lemma_u64_le_bytes_round(b: Seq<u8>)
    requires
        b.len() == 8,
    ensures
        u64_le_bytes(u64_le_val(b)) =~= b,
{
    u64_bytes_prop(b[0], b[1], b[2], b[3], b[4], b[5], b[6], b[7], u64_le_val(b), u64_be_val(b));
}

/// Law: eight big-endian bytes survive the value round trip.
pub proof fn lemma_u64_be_bytes_round(b: Seq<u8>)
    requires
        b.len() == 8,
    ensures
        u64_be_bytes(u64_be_val(b)) =~= b,
{
    u64_bytes_prop(b[0], b[1], b[2], b[3], b[4], b[5], b[6], b[7], u64_le_val(b), u64_be_val(b));
}

/// Law: a `u128` survives the little-endian byte round trip.
pub proof fn lemma_u128_le_round(v: u128)
    ensures
        u128_le_val(u128_le_bytes(v)) == v,
        u128_le_bytes(v).len() == 16,
{
    let lo = (v & 0xffff_ffff_ffff_ffff) as u64;
    let hi = ((v >> 64) & 0xffff_ffff_ffff_ffff) as u64;
    lemma_u64_le_round(lo);
    lemma_u64_le_round(hi);
    assert(u128_le_bytes(v).take(8) =~= u64_le_bytes(lo));
    assert(u128_le_bytes(v).skip(8) =~= u64_le_bytes(hi));
    assert((lo as u128) | (hi as u128) << 64 == v ==> u128_le_val(u128_le_bytes(v)) == v);
    assert(((v & 0xffff_ffff_ffff_ffff) as u64 as u128) | (((v >> 64)
        & 0xffff_ffff_ffff_ffff) as u64 as u128) << 64 == v) by (bit_vector);
}

/// Law: a `u128` survives the big-endian byte round trip.
pub proof fn lemma_u128_be_round(v: u128)
    ensures
        u128_be_val(u128_be_bytes(v)) == v,
        u128_be_bytes(v).len() == 16,
{
    let lo = (v & 0xffff_ffff_ffff_ffff) as u64;
    let hi = ((v >> 64) & 0xffff_ffff_ffff_ffff) as u64;
    lemma_u64_be_round(lo);
    lemma_u64_be_round(hi);
    assert(u128_be_bytes(v).take(8) =~= u64_be_bytes(hi));
    assert(u128_be_bytes(v).skip(8) =~= u64_be_bytes(lo));
    assert((hi as u128) << 64 | (lo as u128) == v ==> u128_be_val(u128_be_bytes(v)) == v);
    assert((((v >> 64) & 0xffff_ffff_ffff_ffff) as u64 as u128) << 64 | ((v
        & 0xffff_ffff_ffff_ffff) as u64 as u128) == v) by (bit_vector);
}

/// Law: sixteen little-endian bytes survive the value round trip.
pub proof fn lemma_u128_le_bytes_round(b: Seq<u8>)
    requires
        b.len() == 16,
    ensures
        u128_le_bytes(u128_le_val(b)) =~= b,
{
    let lo = u64_le_val(b.take(8));
    let hi = u64_le_val(b.skip(8));
    let x = u128_le_val(b);
    assert(x == (lo as u128) | (hi as u128) << 64 ==> (x & 0xffff_ffff_ffff_ffff) as u64 == lo
        && ((x >> 64) & 0xffff_ffff_ffff_ffff) as u64 == hi) by (bit_vector);
    lemma_u64_le_bytes_round(b.take(8));
    lemma_u64_le_bytes_round(b.skip(8));
    assert(u128_le_bytes(x) =~= b.take(8) + b.skip(8));
    assert(b.take(8) + b.skip(8) =~= b);
}

/// Law: sixteen big-endian bytes survive the value round trip.
pub proof fn lemma_u128_be_bytes_round(b: Seq<u8>)
    requires
        b.len() == 16,
    ensures
        u128_be_bytes(u128_be_val(b)) =~= b,
{
    let hi = u64_be_val(b.take(8));
    let lo = u64_be_val(b.skip(8));
    let x = u128_be_val(b);
    assert(x == (hi as u128) << 64 | (lo as u128) ==> ((x >> 64) & 0xffff_ffff_ffff_ffff) as u64
        == hi && (x & 0xffff_ffff_ffff_ffff) as u64 == lo) by (bit_vector);
    lemma_u64_be_bytes_round(b.take(8));
    lemma_u64_be_bytes_round(b.skip(8));
    assert(u128_be_bytes(x) =~= b.take(8) + b.skip(8));
    assert(b.take(8) + b.skip(8) =~= b);
}

// Strategy-indexed forms: the value of wire bytes, and the wire bytes of
// a value, under the byte order selected by `E`.

pub open spec fn endian_u16_val<E: Endian>(b: Seq<u8>) -> u16 {
    if E::is_little() {
        u16_le_val(b)
    } else {
        u16_be_val(b)
    }
}

pub open spec fn endian_u24_val<E: Endian>(b: Seq<u8>) -> u32 {
    if E::is_little() {
        u24_le_val(b)
    } else {
        u24_be_val(b)
    }
}

pub open spec fn endian_u32_val<E: Endian>(b: Seq<u8>) -> u32 {
    if E::is_little() {
        u32_le_val(b)
    } else {
        u32_be_val(b)
    }
}

pub open spec fn endian_u64_val<E: Endian>(b: Seq<u8>) -> u64 {
    if E::is_little() {
        u64_le_val(b)
    } else {
        u64_be_val(b)
    }
}

pub open spec fn endian_u128_val<E: Endian>(b: Seq<u8>) -> u128 {
    if E::is_little() {
        u128_le_val(b)
    } else {
        u128_be_val(b)
    }
}

pub open spec fn endian_u16_bytes<E: Endian>(v: u16) -> Seq<u8> {
    if E::is_little() {
        u16_le_bytes(v)
    } else {
        u16_be_bytes(v)
    }
}

pub open spec fn endian_u24_bytes<E: Endian>(v: u32) -> Seq<u8> {
    if E::is_little() {
        u24_le_bytes(v)
    } else {
        u24_be_bytes(v)
    }
}

pub open spec fn endian_u32_bytes<E: Endian>(v: u32) -> Seq<u8> {
    if E::is_little() {
        u32_le_bytes(v)
    } else {
        u32_be_bytes(v)
    }
}

pub open spec fn endian_u64_bytes<E: Endian>(v: u64) -> Seq<u8> {
    if E::is_little() {
        u64_le_bytes(v)
    } else {
        u64_be_bytes(v)
    }
}

pub open spec fn endian_u128_bytes<E: Endian>(v: u128) -> Seq<u8> {
    if E::is_little() {
        u128_le_bytes(v)
    } else {
        u128_be_bytes(v)
    }
}

/// Round trip under either strategy, 16-bit.
pub proof fn lemma_endian_u16_round<E: Endian>(v: u16)
    ensures
        endian_u16_val::<E>(endian_u16_bytes::<E>(v)) == v,
        endian_u16_bytes::<E>(v).len() == 2,
{
    if E::is_little() {
        lemma_u16_le_round(v);
    } else {
        lemma_u16_be_round(v);
    }
}

/// Round trip under either strategy, 24-bit.
pub proof fn lemma_endian_u24_round<E: Endian>(v: u32)
    requires
        v < 0x100_0000,
    ensures
        endian_u24_val::<E>(endian_u24_bytes::<E>(v)) == v,
        endian_u24_bytes::<E>(v).len() == 3,
{
    if E::is_little() {
        lemma_u24_le_round(v);
    } else {
        lemma_u24_be_round(v);
    }
}

/// Round trip under either strategy, 32-bit.
pub proof fn lemma_endian_u32_round<E: Endian>(v: u32)
    ensures
        endian_u32_val::<E>(endian_u32_bytes::<E>(v)) == v,
        endian_u32_bytes::<E>(v).len() == 4,
{
    if E::is_little() {
        lemma_u32_le_round(v);
    } else {
        lemma_u32_be_round(v);
    }
}

/// Round trip under either strategy, 64-bit.
pub proof fn lemma_endian_u64_round<E: Endian>(v: u64)
    ensures
        endian_u64_val::<E>(endian_u64_bytes::<E>(v)) == v,
        endian_u64_bytes::<E>(v).len() == 8,
{
    if E::is_little() {
        lemma_u64_le_round(v);
    } else {
        lemma_u64_be_round(v);
    }
}

/// Round trip under either strategy, 128-bit.
pub proof fn lemma_endian_u128_round<E: Endian>(v: u128)
    ensures
        endian_u128_val::<E>(endian_u128_bytes::<E>(v)) == v,
        endian_u128_bytes::<E>(v).len() == 16,
{
    if E::is_little() {
        lemma_u128_le_round(v);
    } else {
        lemma_u128_be_round(v);
    }
}

/// Byte-pattern round trip under either strategy, 16-bit.
pub proof fn lemma_endian_u16_bytes_round<E: Endian>(b: Seq<u8>)
    requires
        b.len() == 2,
    ensures
        endian_u16_bytes::<E>(endian_u16_val::<E>(b)) =~= b,
{
    if E::is_little() {
        lemma_u16_le_bytes_round(b);
    } else {
        lemma_u16_be_bytes_round(b);
    }
}

/// Byte-pattern round trip under either strategy, 24-bit.
pub proof fn lemma_endian_u24_bytes_round<E: Endian>(b: Seq<u8>)
    requires
        b.len() == 3,
    ensures
        endian_u24_bytes::<E>(endian_u24_val::<E>(b)) =~= b,
{
    if E::is_little() {
        lemma_u24_le_bytes_round(b);
    } else {
        lemma_u24_be_bytes_round(b);
    }
}

/// Byte-pattern round trip under either strategy, 32-bit.
pub proof fn lemma_endian_u32_bytes_round<E: Endian>(b: Seq<u8>)
    requires
        b.len() == 4,
    ensures
        endian_u32_bytes::<E>(endian_u32_val::<E>(b)) =~= b,
{
    if E::is_little() {
        lemma_u32_le_bytes_round(b);
    } else {
        lemma_u32_be_bytes_round(b);
    }
}

/// Byte-pattern round trip under either strategy, 64-bit.
pub proof fn lemma_endian_u64_bytes_round<E: Endian>(b: Seq<u8>)
    requires
        b.len() == 8,
    ensures
        endian_u64_bytes::<E>(endian_u64_val::<E>(b)) =~= b,
{
    if E::is_little() {
        lemma_u64_le_bytes_round(b);
    } else {
        lemma_u64_be_bytes_round(b);
    }
}

/// Byte-pattern round trip under either strategy, 128-bit.
pub proof fn lemma_endian_u128_bytes_round<E: Endian>(b: Seq<u8>)
    requires
        b.len() == 16,
    ensures
        endian_u128_bytes::<E>(endian_u128_val::<E>(b)) =~= b,
{
    if E::is_little() {
        lemma_u128_le_bytes_round(b);
    } else {
        lemma_u128_be_bytes_round(b);
    }
}

/// A byte-order strategy: for each fixed-width unsigned wire type, the
/// conversion from the exact number of wire bytes to the value and back.
///
/// `is_little` is the spec-level tag that tells the two strategies apart;
/// each method's contract is stated against it, so monomorphic callers see
/// the concrete byte order with no runtime branching.
pub trait Endian: Sized {
    spec fn is_little() -> bool;

    fn read_u8(bytes: &Vec<u8>) -> (r: u8)
        requires
            bytes@.len() == 1,
        ensures
            r == bytes@[0],
    ;

    fn read_u16(bytes: &Vec<u8>) -> (r: u16)
        requires
            bytes@.len() == 2,
        ensures
            r == if Self::is_little() { u16_le_val(bytes@) } else { u16_be_val(bytes@) },
    ;

    fn read_u24(bytes: &Vec<u8>) -> (r: u32)
        requires
            bytes@.len() == 3,
        ensures
            r == if Self::is_little() { u24_le_val(bytes@) } else { u24_be_val(bytes@) },
            r < 0x100_0000,
    ;

    fn read_u32(bytes: &Vec<u8>) -> (r: u32)
        requires
            bytes@.len() == 4,
        ensures
            r == if Self::is_little() { u32_le_val(bytes@) } else { u32_be_val(bytes@) },
    ;

    fn read_u64(bytes: &Vec<u8>) -> (r: u64)
        requires
            bytes@.len() == 8,
        ensures
            r == if Self::is_little() { u64_le_val(bytes@) } else { u64_be_val(bytes@) },
    ;

    fn read_u128(bytes: &Vec<u8>) -> (r: u128)
        requires
            bytes@.len() == 16,
        ensures
            r == if Self::is_little() { u128_le_val(bytes@) } else { u128_be_val(bytes@) },
    ;

    fn write_u8(v: u8) -> (r: Vec<u8>)
        ensures
            r@ =~= seq![v],
    ;

    fn write_u16(v: u16) -> (r: Vec<u8>)
        ensures
            r@ =~= if Self::is_little() { u16_le_bytes(v) } else { u16_be_bytes(v) },
    ;

    fn write_u24(v: u32) -> (r: Vec<u8>)
        requires
            v < 0x100_0000,
        ensures
            r@ =~= if Self::is_little() { u24_le_bytes(v) } else { u24_be_bytes(v) },
    ;

    fn write_u32(v: u32) -> (r: Vec<u8>)
        ensures
            r@ =~= if Self::is_little() { u32_le_bytes(v) } else { u32_be_bytes(v) },
    ;

    fn write_u64(v: u64) -> (r: Vec<u8>)
        ensures
            r@ =~= if Self::is_little() { u64_le_bytes(v) } else { u64_be_bytes(v) },
    ;

    fn write_u128(v: u128) -> (r: Vec<u8>)
        ensures
            r@ =~= if Self::is_little() { u128_le_bytes(v) } else { u128_be_bytes(v) },
    ;
}

impl Endian for LittleEndian {
    open spec fn is_little() -> bool {
        true
    }

    fn read_u8(bytes: &Vec<u8>) -> u8 {
        bytes[0]
    }

    fn read_u16(bytes: &Vec<u8>) -> u16 {
        (bytes[0] as u16) | (bytes[1] as u16) << 8
    }

    fn read_u24(bytes: &Vec<u8>) -> (r: u32) {
        let r = (bytes[0] as u32) | (bytes[1] as u32) << 8 | (bytes[2] as u32) << 16;
        proof {
            u24_val_range(bytes@[0], bytes@[1], bytes@[2]);
        }
        r
    }

    fn read_u32(bytes: &Vec<u8>) -> u32 {
        (bytes[0] as u32) | (bytes[1] as u32) << 8 | (bytes[2] as u32) << 16
            | (bytes[3] as u32) << 24
    }

    fn read_u64(bytes: &Vec<u8>) -> u64 {
        (bytes[0] as u64) | (bytes[1] as u64) << 8 | (bytes[2] as u64) << 16
            | (bytes[3] as u64) << 24 | (bytes[4] as u64) << 32 | (bytes[5] as u64) << 40
            | (bytes[6] as u64) << 48 | (bytes[7] as u64) << 56
    }

    fn read_u128(bytes: &Vec<u8>) -> (r: u128) {
        let lo = (bytes[0] as u64) | (bytes[1] as u64) << 8 | (bytes[2] as u64) << 16
            | (bytes[3] as u64) << 24 | (bytes[4] as u64) << 32 | (bytes[5] as u64) << 40
            | (bytes[6] as u64) << 48 | (bytes[7] as u64) << 56;
        let hi = (bytes[8] as u64) | (bytes[9] as u64) << 8 | (bytes[10] as u64) << 16
            | (bytes[11] as u64) << 24 | (bytes[12] as u64) << 32 | (bytes[13] as u64) << 40
            | (bytes[14] as u64) << 48 | (bytes[15] as u64) << 56;
        proof {
            assert(bytes@.take(8).len() == 8);
            assert(bytes@.skip(8).len() == 8);
            assert forall|i: int| 0 <= i < 8 implies bytes@.take(8)[i] == bytes@[i] by {}
            assert forall|i: int| 0 <= i < 8 implies bytes@.skip(8)[i] == bytes@[i + 8] by {}
            assert(lo == u64_le_val(bytes@.take(8)));
            assert(hi == u64_le_val(bytes@.skip(8)));
        }
        (lo as u128) | (hi as u128) << 64
    }

    fn write_u8(v: u8) -> (r: Vec<u8>) {
        let mut r: Vec<u8> = Vec::new();
        r.push(v);
        r
    }

    fn write_u16(v: u16) -> (r: Vec<u8>) {
        let mut r: Vec<u8> = Vec::new();
        r.push((v & 0xff) as u8);
        r.push(((v >> 8) & 0xff) as u8);
        r
    }

    fn write_u24(v: u32) -> (r: Vec<u8>) {
        let mut r: Vec<u8> = Vec::new();
        r.push((v & 0xff) as u8);
        r.push(((v >> 8) & 0xff) as u8);
        r.push(((v >> 16) & 0xff) as u8);
        r
    }

    fn write_u32(v: u32) -> (r: Vec<u8>) {
        let mut r: Vec<u8> = Vec::new();
        r.push((v & 0xff) as u8);
        r.push(((v >> 8) & 0xff) as u8);
        r.push(((v >> 16) & 0xff) as u8);
        r.push(((v >> 24) & 0xff) as u8);
        r
    }

    fn write_u64(v: u64) -> (r: Vec<u8>) {
        let mut r: Vec<u8> = Vec::new();
        r.push((v & 0xff) as u8);
        r.push(((v >> 8) & 0xff) as u8);
        r.push(((v >> 16) & 0xff) as u8);
        r.push(((v >> 24) & 0xff) as u8);
        r.push(((v >> 32) & 0xff) as u8);
        r.push(((v >> 40) & 0xff) as u8);
        r.push(((v >> 48) & 0xff) as u8);
        r.push(((v >> 56) & 0xff) as u8);
        r
    }

    fn write_u128(v: u128) -> (r: Vec<u8>) {
        let lo = (v & 0xffff_ffff_ffff_ffff) as u64;
        let hi = ((v >> 64) & 0xffff_ffff_ffff_ffff) as u64;
        let mut r = Self::write_u64(lo);
        let mut high_part = Self::write_u64(hi);
        r.append(&mut high_part);
        r
    }
}

impl Endian for BigEndian {
    open spec fn is_little() -> bool {
        false
    }

    fn read_u8(bytes: &Vec<u8>) -> u8 {
        bytes[0]
    }

    fn read_u16(bytes: &Vec<u8>) -> u16 {
        (bytes[0] as u16) << 8 | (bytes[1] as u16)
    }

    fn read_u24(bytes: &Vec<u8>) -> (r: u32) {
        let r = (bytes[0] as u32) << 16 | (bytes[1] as u32) << 8 | (bytes[2] as u32);
        proof {
            u24_val_range(bytes@[0], bytes@[1], bytes@[2]);
        }
        r
    }

    fn read_u32(bytes: &Vec<u8>) -> u32 {
        (bytes[0] as u32) << 24 | (bytes[1] as u32) << 16 | (bytes[2] as u32) << 8
            | (bytes[3] as u32)
    }

    fn read_u64(bytes: &Vec<u8>) -> u64 {
        (bytes[0] as u64) << 56 | (bytes[1] as u64) << 48 | (bytes[2] as u64) << 40
            | (bytes[3] as u64) << 32 | (bytes[4] as u64) << 24 | (bytes[5] as u64) << 16
            | (bytes[6] as u64) << 8 | (bytes[7] as u64)
    }

    fn read_u128(bytes: &Vec<u8>) -> (r: u128) {
        let hi = (bytes[0] as u64) << 56 | (bytes[1] as u64) << 48 | (bytes[2] as u64) << 40
            | (bytes[3] as u64) << 32 | (bytes[4] as u64) << 24 | (bytes[5] as u64) << 16
            | (bytes[6] as u64) << 8 | (bytes[7] as u64);
        let lo = (bytes[8] as u64) << 56 | (bytes[9] as u64) << 48 | (bytes[10] as u64) << 40
            | (bytes[11] as u64) << 32 | (bytes[12] as u64) << 24 | (bytes[13] as u64) << 16
            | (bytes[14] as u64) << 8 | (bytes[15] as u64);
        proof {
            assert(bytes@.take(8).len() == 8);
            assert(bytes@.skip(8).len() == 8);
            assert forall|i: int| 0 <= i < 8 implies bytes@.take(8)[i] == bytes@[i] by {}
            assert forall|i: int| 0 <= i < 8 implies bytes@.skip(8)[i] == bytes@[i + 8] by {}
            assert(hi == u64_be_val(bytes@.take(8)));
            assert(lo == u64_be_val(bytes@.skip(8)));
        }
        (hi as u128) << 64 | (lo as u128)
    }

    fn write_u8(v: u8) -> (r: Vec<u8>) {
        let mut r: Vec<u8> = Vec::new();
        r.push(v);
        r
    }

    fn write_u16(v: u16) -> (r: Vec<u8>) {
        let mut r: Vec<u8> = Vec::new();
        r.push(((v >> 8) & 0xff) as u8);
        r.push((v & 0xff) as u8);
        r
    }

    fn write_u24(v: u32) -> (r: Vec<u8>) {
        let mut r: Vec<u8> = Vec::new();
        r.push(((v >> 16) & 0xff) as u8);
        r.push(((v >> 8) & 0xff) as u8);
        r.push((v & 0xff) as u8);
        r
    }

    fn write_u32(v: u32) -> (r: Vec<u8>) {
        let mut r: Vec<u8> = Vec::new();
        r.push(((v >> 24) & 0xff) as u8);
        r.push(((v >> 16) & 0xff) as u8);
        r.push(((v >> 8) & 0xff) as u8);
        r.push((v & 0xff) as u8);
        r
    }

    fn write_u64(v: u64) -> (r: Vec<u8>) {
        let mut r: Vec<u8> = Vec::new();
        r.push(((v >> 56) & 0xff) as u8);
        r.push(((v >> 48) & 0xff) as u8);
        r.push(((v >> 40) & 0xff) as u8);
        r.push(((v >> 32) & 0xff) as u8);
        r.push(((v >> 24) & 0xff) as u8);
        r.push(((v >> 16) & 0xff) as u8);
        r.push(((v >> 8) & 0xff) as u8);
        r.push((v & 0xff) as u8);
        r
    }

    fn write_u128(v: u128) -> (r: Vec<u8>) {
        let lo = (v & 0xffff_ffff_ffff_ffff) as u64;
        let hi = ((v >> 64) & 0xffff_ffff_ffff_ffff) as u64;
        let mut r = Self::write_u64(hi);
        let mut low_part = Self::write_u64(lo);
        r.append(&mut low_part);
        r
    }
}

/// The index range that a value of `n` wire bytes occupies inside a
/// window of `m` bytes: the low-order end under little-endian order, the
/// high-order end under big-endian order.
pub trait MapIndex {
    fn map_index(n: usize, m: usize) -> (r: (usize, usize))
        requires
            n <= m,
        ensures
            r.1 - r.0 == n,
            r.1 <= m,
    ;
}

impl MapIndex for LittleEndian {
    fn map_index(n: usize, _m: usize) -> (r: (usize, usize))
        ensures
            r == (0usize, n),
    {
        (0, n)
    }
}

impl MapIndex for BigEndian {
    fn map_index(n: usize, m: usize) -> (r: (usize, usize))
        ensures
            r == ((m - n) as usize, m),
    {
        (m - n, m)
    }
}

} // verus!
