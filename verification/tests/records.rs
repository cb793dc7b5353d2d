//! Schema-driven record decoding and encoding: enum defaults and the
//! end-to-end packet scenario.

use instructor::schema::{
    decode_record, encode_data_enum, encode_record, Endian, EnumDef, Field, FieldKind, IntWidth,
    Schema,
};
use instructor::unpack::read_rest;
use instructor::{Buffer, ByteReader, Error};

fn plain(kind: FieldKind) -> Field {
    Field { kind, bits: None, register: None }
}

fn enum_schema(default: Option<usize>) -> Schema {
    Schema {
        endian: Endian::Little,
        fields: vec![plain(FieldKind::Enum(EnumDef {
            repr: IntWidth::W8,
            discriminants: vec![0x01, 0x02],
            default,
        }))],
    }
}

#[test]
fn enum_decodes_matching_discriminant() {
    let schema = enum_schema(None);
    assert!(schema.check());
    let mut r = ByteReader::new(vec![0x02]);
    let vals = decode_record(&schema, &mut r).unwrap();
    assert_eq!(vals, vec![1]);
    let mut out: Vec<u8> = Vec::new();
    encode_record(&schema, &vals, &mut out).unwrap();
    assert_eq!(out, vec![0x02]);
}

#[test]
fn enum_unmatched_takes_default() {
    // an 8-bit repr enum with variants at 0x01 and 0x02 and the second
    // variant marked default: byte 0xFF resolves to the default variant
    let schema = enum_schema(Some(1));
    let mut r = ByteReader::new(vec![0xFF]);
    let vals = decode_record(&schema, &mut r).unwrap();
    assert_eq!(vals, vec![1]);
}

#[test]
fn enum_unmatched_without_default_is_invalid() {
    let schema = enum_schema(None);
    let mut r = ByteReader::new(vec![0xFF]);
    assert_eq!(decode_record(&schema, &mut r), Err(Error::InvalidValue));
}

#[test]
fn enum_encode_rejects_bad_variant_index() {
    let schema = enum_schema(None);
    let mut out: Vec<u8> = Vec::new();
    assert_eq!(
        encode_record(&schema, &vec![7], &mut out),
        Err(Error::InvalidValue)
    );
}

#[test]
fn bool_field_roundtrip_and_rejection() {
    let schema = Schema { endian: Endian::Big, fields: vec![plain(FieldKind::Bool)] };
    let mut r = ByteReader::new(vec![0x05]);
    // any nonzero byte decodes as true
    assert_eq!(decode_record(&schema, &mut r).unwrap(), vec![1]);
    let mut out: Vec<u8> = Vec::new();
    encode_record(&schema, &vec![1], &mut out).unwrap();
    assert_eq!(out, vec![0x01]);
    // a value beyond one does not fit a boolean field
    assert_eq!(
        encode_record(&schema, &vec![2], &mut out),
        Err(Error::InvalidValue)
    );
}

#[test]
fn record_too_short() {
    let schema = Schema {
        endian: Endian::Little,
        fields: vec![plain(FieldKind::UInt(IntWidth::W32))],
    };
    let mut r = ByteReader::new(vec![1, 2]);
    assert_eq!(decode_record(&schema, &mut r), Err(Error::TooShort));
}

#[test]
fn schema_check_rejects_range_without_register() {
    let schema = Schema {
        endian: Endian::Little,
        fields: vec![Field {
            kind: FieldKind::UInt(IntWidth::W8),
            bits: Some((0, 4)),
            register: None,
        }],
    };
    assert!(!schema.check());
    let wide = Schema {
        endian: Endian::Little,
        fields: vec![Field {
            kind: FieldKind::UInt(IntWidth::W8),
            bits: Some((4, 20)),
            register: Some(IntWidth::W16),
        }],
    };
    // the range must lie within the register
    assert!(!wide.check());
}

fn header_schema() -> Schema {
    // little-endian header: a 16-bit register split as bits [0,12)
    // "handle" and two 2-bit flags, then a length covering the rest
    Schema {
        endian: Endian::Little,
        fields: vec![
            Field {
                kind: FieldKind::UInt(IntWidth::W16),
                bits: Some((0, 12)),
                register: Some(IntWidth::W16),
            },
            Field { kind: FieldKind::UInt(IntWidth::W8), bits: Some((12, 14)), register: None },
            Field { kind: FieldKind::UInt(IntWidth::W8), bits: Some((14, 16)), register: None },
            plain(FieldKind::Length { width: IntWidth::W16, offset: 0 }),
        ],
    }
}

fn body_schema() -> Schema {
    Schema {
        endian: Endian::Little,
        fields: vec![
            plain(FieldKind::Length { width: IntWidth::W16, offset: 2 }),
            plain(FieldKind::UInt(IntWidth::W16)),
        ],
    }
}

fn command_schema() -> Schema {
    Schema {
        endian: Endian::Little,
        fields: vec![
            plain(FieldKind::Enum(EnumDef {
                repr: IntWidth::W8,
                discriminants: vec![0x01, 0x0a],
                default: None,
            })),
            plain(FieldKind::UInt(IntWidth::W8)),
            plain(FieldKind::Length { width: IntWidth::W16, offset: 0 }),
        ],
    }
}

#[test]
fn packet_end_to_end_roundtrip() {
    let input: Vec<u8> = vec![
        0x00, 0x28, 0x0a, 0x00, 0x06, 0x00, 0x01, 0x00, 0x0a, 0x02, 0x02, 0x00, 0x02, 0x00,
    ];
    let header = header_schema();
    let body = body_schema();
    let command = command_schema();
    assert!(header.check() && body.check() && command.check());

    let mut r = ByteReader::new(input.clone());
    let header_vals = decode_record(&header, &mut r).unwrap();
    // register 0x2800: handle 0x800, flags 2 and 0; ten bytes follow
    assert_eq!(header_vals, vec![0x800, 2, 0, 10]);
    let body_vals = decode_record(&body, &mut r).unwrap();
    assert_eq!(body_vals, vec![6, 1]);
    let command_vals = decode_record(&command, &mut r).unwrap();
    // code 0x0a is the second declared variant; id 0x02; two bytes follow
    assert_eq!(command_vals, vec![1, 2, 2]);
    let payload = read_rest(&mut r);
    assert_eq!(payload, vec![0x02, 0x00]);
    assert!(r.finish().is_ok());

    // re-encoding the decoded records concatenated reproduces the input
    let mut out: Vec<u8> = Vec::new();
    encode_record(&header, &header_vals, &mut out).unwrap();
    encode_record(&body, &body_vals, &mut out).unwrap();
    encode_record(&command, &command_vals, &mut out).unwrap();
    out.extend_from_slice(&payload);
    assert_eq!(out, input);
}

#[test]
fn data_enum_encodes_active_variant() {
    // a data-carrying enum: each variant is its own field list, and
    // encoding writes the active variant's fields, nothing more
    let variants = vec![
        Schema { endian: Endian::Big, fields: vec![plain(FieldKind::UInt(IntWidth::W8))] },
        Schema {
            endian: Endian::Big,
            fields: vec![
                plain(FieldKind::UInt(IntWidth::W8)),
                plain(FieldKind::UInt(IntWidth::W16)),
            ],
        },
    ];
    let mut out: Vec<u8> = Vec::new();
    encode_data_enum(&variants, 1, &vec![0x0A, 0x0B0C], &mut out).unwrap();
    assert_eq!(out, vec![0x0A, 0x0B, 0x0C]);
}

#[test]
fn bitfield_group_via_schema() {
    // one-byte register, two nibbles: 0x5 and 0xA assemble to 0xA5
    let schema = Schema {
        endian: Endian::Big,
        fields: vec![
            Field {
                kind: FieldKind::UInt(IntWidth::W8),
                bits: Some((0, 4)),
                register: Some(IntWidth::W8),
            },
            Field { kind: FieldKind::UInt(IntWidth::W8), bits: Some((4, 8)), register: None },
        ],
    };
    assert!(schema.check());
    let mut out: Vec<u8> = Vec::new();
    encode_record(&schema, &vec![0x5, 0xA], &mut out).unwrap();
    assert_eq!(out, vec![0xA5]);
    let mut r = ByteReader::new(out);
    assert_eq!(decode_record(&schema, &mut r).unwrap(), vec![0x5, 0xA]);
    assert_eq!(r.remaining(), 0);
}
