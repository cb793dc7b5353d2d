//! The laws of the codec, stated and proved once for all inputs.
//!
//! Round trips: decoding the encoding of a value yields the value back,
//! for every supported wire type and under both byte-order strategies.
//! Bounds: a fixed-size decode fails with `TooShort` exactly when fewer
//! bytes remain than the type needs, and consumes exactly its size when
//! it succeeds.  Bitfields: two disjoint ranges assembled into one
//! register extract back to the values inserted.  Length validation and
//! enum-default resolution hold as the decode specifications state them.

use vstd::prelude::*;

use crate::bitfield::{mul8, window_mask};
use crate::endian::{
    endian_u128_val, endian_u16_val, endian_u24_val, endian_u32_val, endian_u64_val,
    lemma_endian_u128_round, lemma_endian_u16_round, lemma_endian_u24_round,
    lemma_endian_u32_round, lemma_endian_u64_round, Endian,
};
use crate::error::Error;
use crate::pack::Instruct;
use crate::schema::{
    fits, kind_size, kind_wf, lemma_find_variant_hit, lemma_find_variant_miss,
    lemma_uint_bytes_len, lemma_uint_roundtrip, spec_decode_fields, spec_decode_step,
    spec_decode_value, spec_encode_fields, spec_encode_step, uint_bytes, uint_val, EnumDef, Field,
    FieldKind,
};
use crate::unpack::Exstruct;
use crate::utils::{u24, Length};

verus! {

/// Round trip: a `u8` encoded then decoded, under either strategy, is
/// itself, and its decode consumes exactly its one byte.
pub proof fn lemma_u8_roundtrip<E: Endian>(v: u8, rest: Seq<u8>)
    ensures
        <u8 as Exstruct<E>>::spec_read(<u8 as Instruct<E>>::spec_write(&v) + rest) == Ok::<
            (u8, int),
            Error,
        >((v, 1)),
{
    let s = <u8 as Instruct<E>>::spec_write(&v) + rest;
    assert(s[0] == v);
}

/// Round trip: a `u16` encoded then decoded, under either strategy, is
/// itself, and its decode consumes exactly its two bytes.
pub proof fn lemma_u16_roundtrip<E: Endian>(v: u16, rest: Seq<u8>)
    ensures
        <u16 as Exstruct<E>>::spec_read(<u16 as Instruct<E>>::spec_write(&v) + rest) == Ok::<
            (u16, int),
            Error,
        >((v, 2)),
{
    lemma_endian_u16_round::<E>(v);
    let s = <u16 as Instruct<E>>::spec_write(&v) + rest;
    assert(s.take(2) =~= <u16 as Instruct<E>>::spec_write(&v));
}

/// Round trip: a `u32` encoded then decoded, under either strategy, is
/// itself, and its decode consumes exactly its four bytes.
pub proof fn lemma_u32_roundtrip<E: Endian>(v: u32, rest: Seq<u8>)
    ensures
        <u32 as Exstruct<E>>::spec_read(<u32 as Instruct<E>>::spec_write(&v) + rest) == Ok::<
            (u32, int),
            Error,
        >((v, 4)),
{
    lemma_endian_u32_round::<E>(v);
    let s = <u32 as Instruct<E>>::spec_write(&v) + rest;
    assert(s.take(4) =~= <u32 as Instruct<E>>::spec_write(&v));
}

/// Round trip: a `u64` encoded then decoded, under either strategy, is
/// itself, and its decode consumes exactly its eight bytes.
pub proof fn lemma_u64_roundtrip<E: Endian>(v: u64, rest: Seq<u8>)
    ensures
        <u64 as Exstruct<E>>::spec_read(<u64 as Instruct<E>>::spec_write(&v) + rest) == Ok::<
            (u64, int),
            Error,
        >((v, 8)),
{
    lemma_endian_u64_round::<E>(v);
    let s = <u64 as Instruct<E>>::spec_write(&v) + rest;
    assert(s.take(8) =~= <u64 as Instruct<E>>::spec_write(&v));
}

/// Round trip: a `u128` encoded then decoded, under either strategy, is
/// itself, and its decode consumes exactly its sixteen bytes.
pub proof fn lemma_u128_roundtrip<E: Endian>(v: u128, rest: Seq<u8>)
    ensures
        <u128 as Exstruct<E>>::spec_read(<u128 as Instruct<E>>::spec_write(&v) + rest) == Ok::<
            (u128, int),
            Error,
        >((v, 16)),
{
    lemma_endian_u128_round::<E>(v);
    let s = <u128 as Instruct<E>>::spec_write(&v) + rest;
    assert(s.take(16) =~= <u128 as Instruct<E>>::spec_write(&v));
}

// The cast facts behind the signed round trips, proved once.
proof fn signed_cast_prop(a: i8, b: i16, c: i32, d: i64, e: i128)
    by (bit_vector)
    ensures
        (a as u8) as i8 == a,
        (b as u16) as i16 == b,
        (c as u32) as i32 == c,
        (d as u64) as i64 == d,
        (e as u128) as i128 == e,
{
}

/// Round trip: an `i8` encoded then decoded, under either strategy, is
/// itself.
pub proof fn lemma_i8_roundtrip<E: Endian>(v: i8, rest: Seq<u8>)
    ensures
        <i8 as Exstruct<E>>::spec_read(<i8 as Instruct<E>>::spec_write(&v) + rest) == Ok::<
            (i8, int),
            Error,
        >((v, 1)),
{
    let s = <i8 as Instruct<E>>::spec_write(&v) + rest;
    assert(s[0] == v as u8);
    signed_cast_prop(v, 0, 0, 0, 0);
}

/// Round trip: an `i16` encoded then decoded, under either strategy, is
/// itself.
pub proof fn lemma_i16_roundtrip<E: Endian>(v: i16, rest: Seq<u8>)
    ensures
        <i16 as Exstruct<E>>::spec_read(<i16 as Instruct<E>>::spec_write(&v) + rest) == Ok::<
            (i16, int),
            Error,
        >((v, 2)),
{
    lemma_endian_u16_round::<E>(v as u16);
    let s = <i16 as Instruct<E>>::spec_write(&v) + rest;
    assert(s.take(2) =~= <i16 as Instruct<E>>::spec_write(&v));
    signed_cast_prop(0, v, 0, 0, 0);
}

/// Round trip: an `i32` encoded then decoded, under either strategy, is
/// itself.
pub proof fn lemma_i32_roundtrip<E: Endian>(v: i32, rest: Seq<u8>)
    ensures
        <i32 as Exstruct<E>>::spec_read(<i32 as Instruct<E>>::spec_write(&v) + rest) == Ok::<
            (i32, int),
            Error,
        >((v, 4)),
{
    lemma_endian_u32_round::<E>(v as u32);
    let s = <i32 as Instruct<E>>::spec_write(&v) + rest;
    assert(s.take(4) =~= <i32 as Instruct<E>>::spec_write(&v));
    signed_cast_prop(0, 0, v, 0, 0);
}

/// Round trip: an `i64` encoded then decoded, under either strategy, is
/// itself.
pub proof fn lemma_i64_roundtrip<E: Endian>(v: i64, rest: Seq<u8>)
    ensures
        <i64 as Exstruct<E>>::spec_read(<i64 as Instruct<E>>::spec_write(&v) + rest) == Ok::<
            (i64, int),
            Error,
        >((v, 8)),
{
    lemma_endian_u64_round::<E>(v as u64);
    let s = <i64 as Instruct<E>>::spec_write(&v) + rest;
    assert(s.take(8) =~= <i64 as Instruct<E>>::spec_write(&v));
    signed_cast_prop(0, 0, 0, v, 0);
}

/// Round trip: an `i128` encoded then decoded, under either strategy, is
/// itself.
pub proof fn lemma_i128_roundtrip<E: Endian>(v: i128, rest: Seq<u8>)
    ensures
        <i128 as Exstruct<E>>::spec_read(<i128 as Instruct<E>>::spec_write(&v) + rest) == Ok::<
            (i128, int),
            Error,
        >((v, 16)),
{
    lemma_endian_u128_round::<E>(v as u128);
    let s = <i128 as Instruct<E>>::spec_write(&v) + rest;
    assert(s.take(16) =~= <i128 as Instruct<E>>::spec_write(&v));
    signed_cast_prop(0, 0, 0, 0, v);
}

/// Round trip: a `bool` encoded then decoded, under either strategy, is
/// itself.
pub proof fn lemma_bool_roundtrip<E: Endian>(v: bool, rest: Seq<u8>)
    ensures
        <bool as Exstruct<E>>::spec_read(<bool as Instruct<E>>::spec_write(&v) + rest) == Ok::<
            (bool, int),
            Error,
        >((v, 1)),
{
    let s = <bool as Instruct<E>>::spec_write(&v) + rest;
    assert(s[0] == if v {
        1u8
    } else {
        0u8
    });
}

/// Round trip: a well-formed `u24` encoded then decoded, under either
/// strategy, is itself, and its decode consumes exactly its three bytes.
pub proof fn lemma_u24_roundtrip<E: Endian>(v: u24, rest: Seq<u8>)
    requires
        v.wf(),
    ensures
        <u24 as Exstruct<E>>::spec_read(<u24 as Instruct<E>>::spec_write(&v) + rest) == Ok::<
            (u24, int),
            Error,
        >((v, 3)),
{
    let x = v.0;
    assert(x < 0x100_0000 ==> x & 0xff_ffff == x) by (bit_vector);
    lemma_endian_u24_round::<E>(v.0);
    let s = <u24 as Instruct<E>>::spec_write(&v) + rest;
    assert(s.take(3) =~= <u24 as Instruct<E>>::spec_write(&v));
}

/// Round trip: a length field whose declared count matches the bytes
/// behind it decodes to itself.  The tail must hold exactly
/// `v + OFFSET` bytes, which is precisely the condition the decode
/// validates.
pub proof fn lemma_length_roundtrip<E: Endian, const OFFSET: usize>(
    v: Length<u16, OFFSET>,
    rest: Seq<u8>,
)
    requires
        rest.len() == v.0 + OFFSET,
    ensures
        <Length<u16, OFFSET> as Exstruct<E>>::spec_read(
            <Length<u16, OFFSET> as Instruct<E>>::spec_write(&v) + rest,
        ) == Ok::<(Length<u16, OFFSET>, int), Error>((v, 2)),
{
    lemma_endian_u16_round::<E>(v.0);
    let s = <Length<u16, OFFSET> as Instruct<E>>::spec_write(&v) + rest;
    assert(s.take(2) =~= <Length<u16, OFFSET> as Instruct<E>>::spec_write(&v));
}

/// Bounds: a fixed-size decode of `n` bytes fails with `TooShort` on any
/// stream shorter than `n`, succeeds on any stream of at least `n`
/// bytes, and then consumes exactly `n`; stated here for `u16`.
pub proof fn lemma_u16_bounds<E: Endian>(s: Seq<u8>)
    ensures
        s.len() < 2 ==> <u16 as Exstruct<E>>::spec_read(s) == Err::<(u16, int), Error>(
            Error::TooShort,
        ),
        s.len() >= 2 ==> <u16 as Exstruct<E>>::spec_read(s) == Ok::<(u16, int), Error>(
            (endian_u16_val::<E>(s.take(2)), 2),
        ),
{
}

/// Bounds, for `u32`.
pub proof fn lemma_u32_bounds<E: Endian>(s: Seq<u8>)
    ensures
        s.len() < 4 ==> <u32 as Exstruct<E>>::spec_read(s) == Err::<(u32, int), Error>(
            Error::TooShort,
        ),
        s.len() >= 4 ==> <u32 as Exstruct<E>>::spec_read(s) == Ok::<(u32, int), Error>(
            (endian_u32_val::<E>(s.take(4)), 4),
        ),
{
}

/// Bounds, for `u64`.
pub proof fn lemma_u64_bounds<E: Endian>(s: Seq<u8>)
    ensures
        s.len() < 8 ==> <u64 as Exstruct<E>>::spec_read(s) == Err::<(u64, int), Error>(
            Error::TooShort,
        ),
        s.len() >= 8 ==> <u64 as Exstruct<E>>::spec_read(s) == Ok::<(u64, int), Error>(
            (endian_u64_val::<E>(s.take(8)), 8),
        ),
{
}

/// Bounds, for `u128`.
pub proof fn lemma_u128_bounds<E: Endian>(s: Seq<u8>)
    ensures
        s.len() < 16 ==> <u128 as Exstruct<E>>::spec_read(s) == Err::<(u128, int), Error>(
            Error::TooShort,
        ),
        s.len() >= 16 ==> <u128 as Exstruct<E>>::spec_read(s) == Ok::<(u128, int), Error>(
            (endian_u128_val::<E>(s.take(16)), 16),
        ),
{
}

/// Bounds, for `u24`.
pub proof fn lemma_u24_bounds<E: Endian>(s: Seq<u8>)
    ensures
        s.len() < 3 ==> <u24 as Exstruct<E>>::spec_read(s) == Err::<(u24, int), Error>(
            Error::TooShort,
        ),
        s.len() >= 3 ==> <u24 as Exstruct<E>>::spec_read(s) == Ok::<(u24, int), Error>(
            (u24(endian_u24_val::<E>(s.take(3))), 3),
        ),
{
}

/// Bitfield packing, lower field: a field inserted into a range below a
/// disjoint second range extracts back unchanged from the assembled
/// register, whatever the second field holds.
#[verifier::rlimit(100)]
#[verifier::spinoff_prover]
pub proof fn lemma_low_field_roundtrip(v1: u128, v2: u128, s1: u32, e1: u32, s2: u32, e2: u32)
    by (bit_vector)
    requires
        s1 < e1,
        e1 <= s2,
        s2 < e2,
        e2 <= 128,
        v1 & window_mask((e1 - s1) as u32) == v1,
    ensures
        ((((v1 & window_mask((e1 - s1) as u32)) << s1) | ((v2 & window_mask((e2 - s2) as u32))
            << s2)) >> s1) & window_mask((e1 - s1) as u32) == v1,
{
}

/// Bitfield packing, upper field: a field inserted into a range above a
/// disjoint first range extracts back unchanged from the assembled
/// register, whatever the first field holds.
#[verifier::rlimit(100)]
#[verifier::spinoff_prover]
pub proof fn lemma_high_field_roundtrip(v1: u128, v2: u128, s1: u32, e1: u32, s2: u32, e2: u32)
    by (bit_vector)
    requires
        s1 < e1,
        e1 <= s2,
        s2 < e2,
        e2 <= 128,
        v2 & window_mask((e2 - s2) as u32) == v2,
    ensures
        ((((v1 & window_mask((e1 - s1) as u32)) << s1) | ((v2 & window_mask((e2 - s2) as u32))
            << s2)) >> s2) & window_mask((e2 - s2) as u32) == v2,
{
}

/// Bitfield packing: two fields inserted into disjoint ranges of one
/// register extract back to the values inserted; the register is the OR
/// of the two placed windows.
pub proof fn lemma_two_fields_roundtrip(v1: u128, v2: u128, s1: u32, e1: u32, s2: u32, e2: u32)
    requires
        s1 < e1,
        e1 <= s2,
        s2 < e2,
        e2 <= 128,
        v1 & window_mask((e1 - s1) as u32) == v1,
        v2 & window_mask((e2 - s2) as u32) == v2,
    ensures
        ((((v1 & window_mask((e1 - s1) as u32)) << s1) | ((v2 & window_mask((e2 - s2) as u32))
            << s2)) >> s1) & window_mask((e1 - s1) as u32) == v1,
        ((((v1 & window_mask((e1 - s1) as u32)) << s1) | ((v2 & window_mask((e2 - s2) as u32))
            << s2)) >> s2) & window_mask((e2 - s2) as u32) == v2,
{
    lemma_low_field_roundtrip(v1, v2, s1, e1, s2, e2);
    lemma_high_field_roundtrip(v1, v2, s1, e1, s2, e2);
}

/// Length validation: a length field decodes successfully exactly when
/// the bytes remaining behind it equal its value plus the offset, and a
/// mismatch is `UnexpectedLength`; stated for `Length<u16, OFFSET>`.
pub proof fn lemma_length_validation<E: Endian, const OFFSET: usize>(s: Seq<u8>)
    ensures
        s.len() < 2 ==> <Length<u16, OFFSET> as Exstruct<E>>::spec_read(s) == Err::<
            (Length<u16, OFFSET>, int),
            Error,
        >(Error::TooShort),
        s.len() >= 2 && s.len() - 2 == endian_u16_val::<E>(s.take(2)) + OFFSET ==> <Length<
            u16,
            OFFSET,
        > as Exstruct<E>>::spec_read(s) == Ok::<(Length<u16, OFFSET>, int), Error>(
            (Length(endian_u16_val::<E>(s.take(2))), 2),
        ),
        s.len() >= 2 && s.len() - 2 != endian_u16_val::<E>(s.take(2)) + OFFSET ==> <Length<
            u16,
            OFFSET,
        > as Exstruct<E>>::spec_read(s) == Err::<(Length<u16, OFFSET>, int), Error>(
            Error::UnexpectedLength,
        ),
{
}

/// The wire size of a record of plain fields: every field writes and
/// reads exactly its own width.
pub open spec fn plain_wire_size(fields: Seq<Field>) -> int
    decreases fields.len(),
{
    if fields.len() == 0 {
        0
    } else {
        kind_size(fields[0].kind) + plain_wire_size(fields.skip(1))
    }
}

/// The hypotheses under which a record of plain fields survives the
/// round trip: no field is packed into a register, every field kind is
/// well formed, every value fits its field, a length field's value
/// equals the wire size of the fields behind it plus the trailing byte
/// count, and an enum value's discriminant is not shadowed by an
/// earlier variant with the same discriminant.
pub open spec fn plain_roundtrip_ready(fields: Seq<Field>, values: Seq<u128>, extra: int) -> bool
    decreases fields.len(),
{
    if fields.len() == 0 {
        true
    } else {
        let f = fields[0];
        let v = values[0];
        &&& f.bits is None
        &&& f.register is None
        &&& kind_wf(f.kind)
        &&& fits(f.kind, v)
        &&& match f.kind {
            FieldKind::Length { width, offset } => v + offset == plain_wire_size(fields.skip(1))
                + extra,
            FieldKind::Enum(d) => forall|t: int|
                0 <= t < v ==> d.discriminants@[t] != d.discriminants@[v as int],
            _ => true,
        }
        &&& plain_roundtrip_ready(fields.skip(1), values.skip(1), extra)
    }
}

/// Record round trip: a record of plain fields, encoded and then decoded
/// in front of any trailing bytes, yields exactly the values encoded and
/// consumes exactly its own wire size.
#[verifier::rlimit(100)]
#[verifier::spinoff_prover]
pub proof fn lemma_plain_record_roundtrip(
    little: bool,
    fields: Seq<Field>,
    values: Seq<u128>,
    trailing: Seq<u8>,
)
    requires
        values.len() == fields.len(),
        plain_roundtrip_ready(fields, values, trailing.len() as int),
    ensures
        spec_encode_fields(little, fields, None, values) is Ok,
        spec_encode_fields(little, fields, None, values)->Ok_0.len() == plain_wire_size(fields),
        spec_decode_fields(
            little,
            fields,
            None,
            spec_encode_fields(little, fields, None, values)->Ok_0 + trailing,
        ) == Ok::<(Seq<u128>, int), Error>((values, plain_wire_size(fields))),
    decreases fields.len(),
{
    if fields.len() == 0 {
        assert(values =~= Seq::<u128>::empty());
        let enc = spec_encode_fields(little, fields, None, values);
        assert(enc == Ok::<Seq<u8>, Error>(Seq::<u8>::empty()));
        assert(spec_decode_fields(little, fields, None, enc->Ok_0 + trailing) == Ok::<
            (Seq<u128>, int),
            Error,
        >((Seq::<u128>::empty(), 0)));
    } else {
        let f = fields[0];
        let v = values[0];
        lemma_plain_record_roundtrip(little, fields.skip(1), values.skip(1), trailing);
        let rest = spec_encode_fields(little, fields.skip(1), None, values.skip(1))->Ok_0;
        // the bytes this one field puts out, and their count
        let nb = kind_size(f.kind);
        let own: Seq<u8> = match f.kind {
            FieldKind::UInt(w) => uint_bytes(little, v, w.spec_bytes()),
            FieldKind::Bool => uint_bytes(little, v, 1),
            FieldKind::Length { width, .. } => uint_bytes(little, v, width.spec_bytes()),
            FieldKind::Enum(d) => uint_bytes(
                little,
                d.discriminants@[v as int],
                d.repr.spec_bytes(),
            ),
        };
        match f.kind {
            FieldKind::UInt(w) => {
                lemma_uint_bytes_len(little, v, w.spec_bytes());
            },
            FieldKind::Bool => {
                lemma_uint_bytes_len(little, v, 1);
            },
            FieldKind::Length { width, .. } => {
                lemma_uint_bytes_len(little, v, width.spec_bytes());
            },
            FieldKind::Enum(d) => {
                lemma_uint_bytes_len(little, d.discriminants@[v as int], d.repr.spec_bytes());
            },
        }
        assert(own.len() == nb);
        assert(spec_encode_step(little, f, None, v) == Ok::<
            (Seq<u8>, Option<(crate::schema::IntWidth, u128)>),
            Error,
        >((Seq::<u8>::empty() + own, None)));
        assert(Seq::<u8>::empty() + own =~= own);
        let enc = spec_encode_fields(little, fields, None, values);
        assert(enc == Ok::<Seq<u8>, Error>((Seq::<u8>::empty() + own) + rest));
        assert((Seq::<u8>::empty() + own) + rest =~= own + rest);
        assert(enc->Ok_0.len() == plain_wire_size(fields));

        // decoding starts over the same bytes with any trailing content
        let s = enc->Ok_0 + trailing;
        assert(s =~= own + (rest + trailing));
        assert(s.skip(0) =~= s);
        assert(s.take(nb) =~= own);
        assert(s.skip(nb) =~= rest + trailing);
        // the field reads its own value back
        let dv = spec_decode_value(little, f.kind, f.bits, None, s);
        match f.kind {
            FieldKind::UInt(w) => {
                lemma_uint_roundtrip(little, v, w.spec_bytes());
                assert(dv == Ok::<(u128, int), Error>((v, nb)));
            },
            FieldKind::Bool => {
                lemma_uint_roundtrip(little, v, 1);
                assert(own =~= seq![(v & 0xff) as u8]);
                assert(v <= 1 ==> ((v & 0xff) as u8 as u128) == v) by (bit_vector);
                assert(s[0] == (v & 0xff) as u8);
                assert(dv == Ok::<(u128, int), Error>((v, nb)));
            },
            FieldKind::Length { width, .. } => {
                lemma_uint_roundtrip(little, v, width.spec_bytes());
                assert(s.len() - nb == v + f.kind->Length_offset);
                assert(dv == Ok::<(u128, int), Error>((v, nb)));
            },
            FieldKind::Enum(d) => {
                lemma_uint_roundtrip(little, d.discriminants@[v as int], d.repr.spec_bytes());
                assert(uint_val(little, s.take(nb)) == d.discriminants@[v as int]);
                lemma_find_variant_hit(d.discriminants@, d.discriminants@[v as int], v as int);
                assert(dv == Ok::<(u128, int), Error>((v, nb)));
            },
        }
        // the remaining fields decode from the remaining bytes
        assert(spec_decode_step(little, f, None, s) == Ok::<
            ((u128, Option<u128>), int),
            Error,
        >(((v, None), nb)));
        assert(spec_decode_fields(little, fields.skip(1), None, s.skip(nb)) == Ok::<
            (Seq<u128>, int),
            Error,
        >((values.skip(1), plain_wire_size(fields.skip(1)))));
        assert(seq![v] + values.skip(1) =~= values);
        assert(spec_decode_fields(little, fields, None, s) == Ok::<(Seq<u128>, int), Error>(
            (values, plain_wire_size(fields)),
        ));
    }
}

/// Enum decoding: a discriminant that matches a variant resolves to the
/// first such variant.
pub proof fn lemma_enum_match(little: bool, d: EnumDef, s: Seq<u8>, j: int)
    requires
        s.len() >= d.repr.spec_bytes(),
        0 <= j < d.discriminants@.len(),
        d.discriminants@[j] == uint_val(little, s.take(d.repr.spec_bytes())),
        forall|t: int|
            0 <= t < j ==> d.discriminants@[t] != uint_val(little, s.take(d.repr.spec_bytes())),
    ensures
        spec_decode_value(little, FieldKind::Enum(d), None, None, s) == Ok::<(u128, int), Error>(
            (j as u128, d.repr.spec_bytes()),
        ),
{
    lemma_find_variant_hit(d.discriminants@, uint_val(little, s.take(d.repr.spec_bytes())), j);
}

/// Enum default: a discriminant that matches no variant resolves to the
/// default variant when one is declared, and fails with `InvalidValue`
/// when none is.
pub proof fn lemma_enum_default(little: bool, d: EnumDef, s: Seq<u8>)
    requires
        s.len() >= d.repr.spec_bytes(),
        forall|t: int|
            0 <= t < d.discriminants@.len() ==> d.discriminants@[t] != uint_val(
                little,
                s.take(d.repr.spec_bytes()),
            ),
    ensures
        spec_decode_value(little, FieldKind::Enum(d), None, None, s) == match d.default {
            Some(di) => Ok::<(u128, int), Error>((di as u128, d.repr.spec_bytes())),
            None => Err::<(u128, int), Error>(Error::InvalidValue),
        },
{
    lemma_find_variant_miss(d.discriminants@, uint_val(little, s.take(d.repr.spec_bytes())));
}

} // verus!
