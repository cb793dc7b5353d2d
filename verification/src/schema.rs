//! Schema-driven record codec.
//!
//! A `Schema` is an explicit description of a record: its byte order and
//! an ordered field list, each field a wire type plus an optional
//! bit-range annotation.  The interpreter walks the schema and calls the
//! codec, field by field, exactly as generated field-by-field code
//! would: plain fields read or write their own bytes under the record's
//! byte order; a field that names a register begins a bitfield group,
//! whose fields share that register and are always taken big-endian
//! relative to their right-justified windows; an enum field decodes its
//! representation integer and matches it against the variants'
//! discriminants, falling back to a designated default variant if one
//! exists and failing with `InvalidValue` otherwise.
//!
//! Record values travel as one `u128` per field: the integer itself for
//! plain and length fields, zero or one for booleans, and the variant
//! index for enums.

use vstd::prelude::*;

use crate::bitfield::{mask_of, mul8, window_mask};
use crate::buffer::{byte_vec, Buffer, BufferMut};
use crate::error::Error;

verus! {

/// Byte order, as schema data.
#[derive(Debug, Copy, Clone, PartialEq, Eq, Structural)]
pub enum Endian {
    /// Least-significant byte first.
    Little,
    /// Most-significant byte first.
    Big,
}

impl Endian {
    /// Whether this is the little-endian order.
    pub open spec fn spec_little(&self) -> bool {
        match self {
            Endian::Little => true,
            Endian::Big => false,
        }
    }

    /// Whether this is the little-endian order, as a value.
    pub fn little(&self) -> (r: bool)
        ensures
            r == self.spec_little(),
    {
        match self {
            Endian::Little => true,
            Endian::Big => false,
        }
    }
}

/// The width of a wire integer.
#[derive(Debug, Copy, Clone, PartialEq, Eq, Structural)]
pub enum IntWidth {
    W8,
    W16,
    W24,
    W32,
    W64,
    W128,
}

impl IntWidth {
    /// The width in bytes.
    pub open spec fn spec_bytes(&self) -> int {
        match self {
            IntWidth::W8 => 1,
            IntWidth::W16 => 2,
            IntWidth::W24 => 3,
            IntWidth::W32 => 4,
            IntWidth::W64 => 8,
            IntWidth::W128 => 16,
        }
    }

    /// The width in bytes, as a value.
    pub fn byte_count(&self) -> (r: usize)
        ensures
            r == self.spec_bytes(),
    {
        match self {
            IntWidth::W8 => 1,
            IntWidth::W16 => 2,
            IntWidth::W24 => 3,
            IntWidth::W32 => 4,
            IntWidth::W64 => 8,
            IntWidth::W128 => 16,
        }
    }
}

/// An enum field: a representation width, the variants' discriminants in
/// declaration order, and optionally the index of a default variant for
/// unmatched discriminants.
#[derive(Debug, Clone)]
pub struct EnumDef {
    pub repr: IntWidth,
    pub discriminants: Vec<u128>,
    pub default: Option<usize>,
}

/// What one field holds on the wire.
#[derive(Debug, Clone)]
pub enum FieldKind {
    /// An unsigned integer of the given width.
    UInt(IntWidth),
    /// One byte; zero decodes to false, any nonzero byte to true.
    Bool,
    /// An integer that must equal the bytes remaining behind it plus
    /// the offset.
    Length { width: IntWidth, offset: i64 },
    /// A representation integer matched against variant discriminants.
    Enum(EnumDef),
}

/// One record field: its wire type, the bit range it occupies within
/// the current bitfield group's register, and the register width when
/// the field begins a new group.
#[derive(Debug, Clone)]
pub struct Field {
    pub kind: FieldKind,
    pub bits: Option<(u32, u32)>,
    pub register: Option<IntWidth>,
}

/// An ordered field list with a record-level byte order.
#[derive(Debug, Clone)]
pub struct Schema {
    pub endian: Endian,
    pub fields: Vec<Field>,
}

/// The byte size of the wire type a field kind reads.
pub open spec fn kind_size(k: FieldKind) -> int {
    match k {
        FieldKind::UInt(w) => w.spec_bytes(),
        FieldKind::Bool => 1,
        FieldKind::Length { width, .. } => width.spec_bytes(),
        FieldKind::Enum(d) => d.repr.spec_bytes(),
    }
}

/// A field kind is well formed: enum discriminants fit their
/// representation width and a declared default names a variant.
pub open spec fn kind_wf(k: FieldKind) -> bool {
    match k {
        FieldKind::Enum(d) => {
            &&& match d.default {
                Some(i) => i < d.discriminants@.len(),
                None => true,
            }
            &&& forall|j: int|
                0 <= j < d.discriminants@.len() ==> #[trigger] d.discriminants@[j] & window_mask(
                    mul8(d.repr.spec_bytes() as u32),
                ) == d.discriminants@[j]
        },
        _ => true,
    }
}

/// One field is well formed against the register of the current
/// bitfield group, if one is active.
///
/// A field that declares a bit range must stand in a group whose
/// register covers the range and the field's own width, and only plain
/// integers and booleans may be packed; a field that begins a group
/// must itself declare a range; a field without a range ends the group.
pub open spec fn field_step_wf(f: Field, reg: Option<IntWidth>) -> bool {
    let reg1 = if f.register is Some {
        f.register
    } else {
        reg
    };
    match f.bits {
        Some((s, e)) => {
            &&& match reg1 {
                Some(w) => s < e && e <= mul8(w.spec_bytes() as u32) && kind_size(f.kind)
                    <= w.spec_bytes() && (f.kind is UInt || f.kind is Bool) && e <= 128,
                None => false,
            }
            &&& kind_wf(f.kind)
        },
        None => {
            &&& f.register is None
            &&& kind_wf(f.kind)
        },
    }
}

/// The register in effect after a field: a field with a bit range keeps
/// its group's register, a field without one ends the group.
pub open spec fn next_regw(f: Field, reg: Option<IntWidth>) -> Option<IntWidth> {
    if f.bits is Some {
        if f.register is Some {
            f.register
        } else {
            reg
        }
    } else {
        None
    }
}

/// The fields are well formed, walked with the register of the current
/// bitfield group, if one is active.
pub open spec fn fields_wf(fields: Seq<Field>, reg: Option<IntWidth>) -> bool
    decreases fields.len(),
{
    if fields.len() == 0 {
        true
    } else {
        field_step_wf(fields[0], reg) && fields_wf(fields.skip(1), next_regw(fields[0], reg))
    }
}

impl Schema {
    /// The schema is well formed.
    pub open spec fn wf(&self) -> bool {
        fields_wf(self.fields@, None)
    }

    /// Decide well-formedness, as the derivation layer must before any
    /// codec call is emitted.
    pub fn check(&self) -> (r: bool)
        ensures
            r == self.wf(),
    {
        proof {
            assert(self.fields@.skip(0) =~= self.fields@);
        }
        let n = self.fields.len();
        let mut i: usize = 0;
        let mut reg: Option<IntWidth> = None;
        let mut good = true;
        while i < n
            invariant
                i <= n,
                n == self.fields@.len(),
                good ==> fields_wf(self.fields@, None) == fields_wf(self.fields@.skip(i as int), reg),
                !good ==> !fields_wf(self.fields@, None),
            decreases n - i,
        {
            let f = &self.fields[i];
            proof {
                assert(self.fields@.skip(i as int)[0] == self.fields@[i as int]);
                assert(self.fields@.skip(i as int).skip(1) =~= self.fields@.skip(i + 1));
            }
            let reg1 = match f.register {
                Some(w) => Some(w),
                None => reg,
            };
            match f.bits {
                Some((s, e)) => {
                    let range_ok = match reg1 {
                        Some(w) => {
                            let wb = w.byte_count();
                            s < e && e <= 8 * (wb as u32) && kind_byte_count(&f.kind) <= wb
                                && (match f.kind {
                                FieldKind::UInt(_) => true,
                                FieldKind::Bool => true,
                                _ => false,
                            }) && e <= 128
                        },
                        None => false,
                    };
                    if !(range_ok && check_kind(&f.kind)) {
                        good = false;
                    }
                    reg = reg1;
                },
                None => {
                    let plain_ok = match f.register {
                        Some(_) => false,
                        None => true,
                    };
                    if !(plain_ok && check_kind(&f.kind)) {
                        good = false;
                    }
                    reg = None;
                },
            }
            i += 1;
        }
        good
    }
}

/// The byte size of the wire type a field kind reads, as a value.
pub fn kind_byte_count(k: &FieldKind) -> (r: usize)
    ensures
        r == kind_size(*k),
{
    match k {
        FieldKind::UInt(w) => w.byte_count(),
        FieldKind::Bool => 1,
        FieldKind::Length { width, .. } => width.byte_count(),
        FieldKind::Enum(d) => d.repr.byte_count(),
    }
}

/// Decide `kind_wf`.
pub fn check_kind(k: &FieldKind) -> (r: bool)
    ensures
        r == kind_wf(*k),
{
    match k {
        FieldKind::Enum(d) => {
            let default_ok = match d.default {
                Some(i) => i < d.discriminants.len(),
                None => true,
            };
            if !default_ok {
                return false;
            }
            let repr_bits = 8 * (d.repr.byte_count() as u32);
            let m = mask_of(repr_bits);
            let n = d.discriminants.len();
            let mut j: usize = 0;
            while j < n
                invariant
                    (*k) is Enum,
                    (*k)->Enum_0 == *d,
                    j <= n,
                    n == d.discriminants@.len(),
                    repr_bits == mul8(d.repr.spec_bytes() as u32),
                    m == window_mask(repr_bits),
                    forall|t: int|
                        0 <= t < j ==> #[trigger] d.discriminants@[t] & window_mask(repr_bits)
                            == d.discriminants@[t],
                decreases n - j,
            {
                if d.discriminants[j] & m != d.discriminants[j] {
                    proof {
                        assert(d.discriminants@[j as int] & window_mask(
                            mul8(d.repr.spec_bytes() as u32),
                        ) != d.discriminants@[j as int]);
                    }
                    return false;
                }
                j += 1;
            }
            true
        },
        _ => true,
    }
}

/// The value of `b` as a wire integer under the given byte order.
pub open spec fn uint_val(little: bool, b: Seq<u8>) -> u128
    recommends
        b.len() <= 16,
    decreases b.len(),
{
    if b.len() == 0 {
        0
    } else if little {
        (uint_val(little, b.skip(1)) << 8) | (b[0] as u128)
    } else {
        (uint_val(little, b.drop_last()) << 8) | (b.last() as u128)
    }
}

/// The `n`-byte encoding of `v` under the given byte order.
pub open spec fn uint_bytes(little: bool, v: u128, n: int) -> Seq<u8>
    recommends
        0 <= n <= 16,
    decreases n,
{
    if n <= 0 {
        Seq::empty()
    } else if little {
        seq![(v & 0xff) as u8] + uint_bytes(little, v >> 8, n - 1)
    } else {
        uint_bytes(little, v >> 8, n - 1) + seq![(v & 0xff) as u8]
    }
}

/// An encoding has exactly the requested length.
pub proof fn lemma_uint_bytes_len(little: bool, v: u128, n: int)
    requires
        0 <= n,
    ensures
        uint_bytes(little, v, n).len() == n,
    decreases n,
{
    if n > 0 {
        lemma_uint_bytes_len(little, v >> 8, n - 1);
    }
}

/// The two byte orders encode a value as reverses of each other.
pub proof fn lemma_uint_bytes_flip(v: u128, n: int)
    requires
        0 <= n,
    ensures
        uint_bytes(false, v, n) =~= uint_bytes(true, v, n).reverse(),
    decreases n,
{
    lemma_uint_bytes_len(true, v, n);
    lemma_uint_bytes_len(false, v, n);
    if n > 0 {
        lemma_uint_bytes_flip(v >> 8, n - 1);
        lemma_uint_bytes_len(true, v >> 8, n - 1);
        lemma_uint_bytes_len(false, v >> 8, n - 1);
        assert(uint_bytes(false, v, n) =~= uint_bytes(true, v, n).reverse());
    }
}

/// Round trip of the wire-integer codec: decoding the `n`-byte encoding
/// of `v` yields the low `8 * n` bits of `v`, under either byte order.
pub proof fn lemma_uint_roundtrip(little: bool, v: u128, n: int)
    requires
        0 <= n <= 16,
    ensures
        uint_val(little, uint_bytes(little, v, n)) == v & window_mask(mul8(n as u32)),
    decreases n,
{
    lemma_uint_bytes_len(little, v, n);
    if n == 0 {
        assert(v & window_mask(0) == 0) by (bit_vector);
    } else {
        lemma_uint_roundtrip(little, v >> 8, n - 1);
        lemma_uint_bytes_len(little, v >> 8, n - 1);
        let b = uint_bytes(little, v, n);
        if little {
            assert(b.skip(1) =~= uint_bytes(little, v >> 8, n - 1));
            assert(b[0] == (v & 0xff) as u8);
        } else {
            assert(b.drop_last() =~= uint_bytes(little, v >> 8, n - 1));
            assert(b.last() == (v & 0xff) as u8);
        }
        let x = uint_val(little, uint_bytes(little, v >> 8, n - 1));
        let k = n as u32;
        assert((1 <= k && k <= 16 && x == (v >> 8) & window_mask(mul8((k - 1) as u32))) ==> ((x
            << 8) | ((v & 0xff) as u8 as u128)) == v & window_mask(mul8(k))) by (bit_vector);
    }
}

/// Read an `n`-byte unsigned wire integer.
pub fn read_uint<B: Buffer>(buffer: &mut B, little: bool, n: usize) -> (r: Result<u128, Error>)
    requires
        n <= 16,
    ensures
        old(buffer).readable().len() >= n ==> r == Ok::<u128, Error>(
            uint_val(little, old(buffer).readable().take(n as int)),
        ) && final(buffer).readable() =~= old(buffer).readable().skip(n as int),
        old(buffer).readable().len() < n ==> r == Err::<u128, Error>(Error::TooShort)
            && *final(buffer) == *old(buffer),
{
    let mut dst = byte_vec(n);
    match buffer.try_copy_to_slice(&mut dst) {
        Err(e) => Err(e),
        Ok(_) => {
            if little {
                let mut acc: u128 = 0;
                let mut i: usize = n;
                while i > 0
                    invariant
                        i <= n,
                        n == dst@.len(),
                        n <= 16,
                        acc == uint_val(true, dst@.skip(i as int)),
                    decreases i,
                {
                    acc = (acc << 8) | (dst[i - 1] as u128);
                    proof {
                        assert(dst@.skip(i - 1).skip(1) =~= dst@.skip(i as int));
                        assert(dst@.skip(i - 1)[0] == dst@[i - 1]);
                    }
                    i -= 1;
                }
                proof {
                    assert(dst@.skip(0) =~= dst@);
                }
                Ok(acc)
            } else {
                let mut acc: u128 = 0;
                let mut i: usize = 0;
                while i < n
                    invariant
                        i <= n,
                        n == dst@.len(),
                        n <= 16,
                        acc == uint_val(false, dst@.take(i as int)),
                    decreases n - i,
                {
                    acc = (acc << 8) | (dst[i] as u128);
                    proof {
                        assert(dst@.take(i + 1).drop_last() =~= dst@.take(i as int));
                        assert(dst@.take(i + 1).last() == dst@[i as int]);
                    }
                    i += 1;
                }
                proof {
                    assert(dst@.take(n as int) =~= dst@);
                }
                Ok(acc)
            }
        },
    }
}

/// Write the low `8 * n` bits of `v` as an `n`-byte wire integer.
pub fn write_uint<B: BufferMut>(buffer: &mut B, little: bool, v: u128, n: usize)
    requires
        n <= 16,
    ensures
        final(buffer).written() =~= old(buffer).written() + uint_bytes(little, v, n as int),
{
    let mut tmp: Vec<u8> = Vec::new();
    let mut cur: u128 = v;
    let mut j: usize = 0;
    while j < n
        invariant
            j <= n,
            tmp@.len() == j,
            tmp@ + uint_bytes(true, cur, n - j) =~= uint_bytes(true, v, n as int),
        decreases n - j,
    {
        tmp.push((cur & 0xff) as u8);
        cur = cur >> 8;
        proof {
            assert(tmp@ + uint_bytes(true, cur, n - j - 1) =~= uint_bytes(true, v, n as int));
        }
        j += 1;
    }
    proof {
        assert(tmp@ =~= uint_bytes(true, v, n as int));
    }
    if little {
        buffer.extend_from_slice(tmp.as_slice());
    } else {
        let mut out: Vec<u8> = Vec::new();
        let mut k: usize = 0;
        while k < n
            invariant
                k <= n,
                n == tmp@.len(),
                out@.len() == k,
                forall|t: int| 0 <= t < k ==> out@[t] == tmp@[n - 1 - t],
            decreases n - k,
        {
            out.push(tmp[n - 1 - k]);
            k += 1;
        }
        proof {
            lemma_uint_bytes_flip(v, n as int);
            lemma_uint_bytes_len(true, v, n as int);
            assert(out@ =~= uint_bytes(true, v, n as int).reverse());
            assert(out@ =~= uint_bytes(false, v, n as int));
        }
        buffer.extend_from_slice(out.as_slice());
    }
}

/// The first variant whose discriminant is `v`, if any.
pub open spec fn find_variant(discs: Seq<u128>, v: u128) -> Option<int>
    decreases discs.len(),
{
    if discs.len() == 0 {
        None
    } else if discs[0] == v {
        Some(0)
    } else {
        match find_variant(discs.skip(1), v) {
            Some(i) => Some(i + 1),
            None => None,
        }
    }
}

/// `find_variant` returns the first match.
pub proof fn lemma_find_variant_hit(discs: Seq<u128>, v: u128, j: int)
    requires
        0 <= j < discs.len(),
        discs[j] == v,
        forall|t: int| 0 <= t < j ==> discs[t] != v,
    ensures
        find_variant(discs, v) == Some(j),
    decreases j,
{
    if j > 0 {
        lemma_find_variant_hit(discs.skip(1), v, j - 1);
    }
}

/// `find_variant` finds nothing when no discriminant matches.
pub proof fn lemma_find_variant_miss(discs: Seq<u128>, v: u128)
    requires
        forall|t: int| 0 <= t < discs.len() ==> discs[t] != v,
    ensures
        find_variant(discs, v) is None,
    decreases discs.len(),
{
    if discs.len() > 0 {
        lemma_find_variant_miss(discs.skip(1), v);
    }
}

/// A found variant index lies within the variant list.
pub proof fn lemma_find_variant_range(discs: Seq<u128>, v: u128)
    ensures
        match find_variant(discs, v) {
            Some(t) => 0 <= t < discs.len(),
            None => true,
        },
    decreases discs.len(),
{
    if discs.len() > 0 && discs[0] != v {
        lemma_find_variant_range(discs.skip(1), v);
    }
}

/// The first variant whose discriminant is `v`, as a value.
pub fn find_index(discs: &Vec<u128>, v: u128) -> (r: Option<usize>)
    ensures
        match find_variant(discs@, v) {
            Some(t) => r == Some(t as usize),
            None => r is None,
        },
{
    let n = discs.len();
    let mut j: usize = 0;
    while j < n
        invariant
            j <= n,
            n == discs@.len(),
            forall|t: int| 0 <= t < j ==> discs@[t] != v,
        decreases n - j,
    {
        if discs[j] == v {
            proof {
                lemma_find_variant_hit(discs@, v, j as int);
            }
            return Some(j);
        }
        j += 1;
    }
    proof {
        lemma_find_variant_miss(discs@, v);
    }
    None
}

/// What decoding one field yields from the byte stream `s`: the field's
/// value and the bytes consumed, or the error reported.
///
/// A field with a bit range reads its bits from the group register
/// `reg`, consuming nothing; its value is the window's bits truncated to
/// the field's own width.  A plain field reads its own bytes; a length
/// field additionally requires the bytes remaining behind it to equal
/// its value plus the offset; an enum field resolves its discriminant to
/// a variant index, falling back to the default variant if one exists.
pub open spec fn spec_decode_value(
    little: bool,
    kind: FieldKind,
    bits: Option<(u32, u32)>,
    reg: Option<u128>,
    s: Seq<u8>,
) -> Result<(u128, int), Error> {
    match bits {
        Some((st, en)) => match reg {
            None => Err(Error::InvalidValue),
            Some(rv) => {
                let window = (rv >> st) & window_mask((en - st) as u32);
                match kind {
                    FieldKind::UInt(w) => Ok(
                        ((window & window_mask(mul8(w.spec_bytes() as u32))), 0),
                    ),
                    FieldKind::Bool => Ok(
                        (
                            if window & 0xff != 0 {
                                1 as u128
                            } else {
                                0 as u128
                            },
                            0,
                        ),
                    ),
                    _ => Err(Error::InvalidValue),
                }
            },
        },
        None => match kind {
            FieldKind::UInt(w) => {
                let nb = w.spec_bytes();
                if s.len() < nb {
                    Err(Error::TooShort)
                } else {
                    Ok((uint_val(little, s.take(nb)), nb))
                }
            },
            FieldKind::Bool => {
                if s.len() < 1 {
                    Err(Error::TooShort)
                } else {
                    Ok(
                        (
                            if s[0] != 0 {
                                1 as u128
                            } else {
                                0 as u128
                            },
                            1,
                        ),
                    )
                }
            },
            FieldKind::Length { width, offset } => {
                let nb = width.spec_bytes();
                if s.len() < nb {
                    Err(Error::TooShort)
                } else {
                    let v = uint_val(little, s.take(nb));
                    if s.len() - nb == v + offset {
                        Ok((v, nb))
                    } else {
                        Err(Error::UnexpectedLength)
                    }
                }
            },
            FieldKind::Enum(d) => {
                let nb = d.repr.spec_bytes();
                if s.len() < nb {
                    Err(Error::TooShort)
                } else {
                    let v = uint_val(little, s.take(nb));
                    match find_variant(d.discriminants@, v) {
                        Some(idx) => Ok((idx as u128, nb)),
                        None => match d.default {
                            Some(di) => Ok((di as u128, nb)),
                            None => Err(Error::InvalidValue),
                        },
                    }
                }
            },
        },
    }
}

/// What decoding one field does to the walk: the register pulled in if
/// the field begins a group, the field's value, the register left for
/// the following field, and the bytes consumed.
pub open spec fn spec_decode_step(little: bool, f: Field, reg: Option<u128>, s: Seq<u8>) -> Result<
    ((u128, Option<u128>), int),
    Error,
> {
    let step: Result<(Option<u128>, int), Error> = match f.register {
        Some(w) => {
            let nb = w.spec_bytes();
            if s.len() < nb {
                Err(Error::TooShort)
            } else {
                Ok((Some(uint_val(little, s.take(nb))), nb))
            }
        },
        None => Ok((reg, 0)),
    };
    match step {
        Err(e) => Err(e),
        Ok((reg1, pre)) => match spec_decode_value(little, f.kind, f.bits, reg1, s.skip(pre)) {
            Err(e) => Err(e),
            Ok((v, used)) => Ok(
                (
                    (
                        v,
                        if f.bits is Some {
                            reg1
                        } else {
                            None
                        },
                    ),
                    pre + used,
                ),
            ),
        },
    }
}

/// What decoding the fields yields from the byte stream `s`, walked
/// with the current group register: the field values in order and the
/// total bytes consumed, or the first error.
pub open spec fn spec_decode_fields(
    little: bool,
    fields: Seq<Field>,
    reg: Option<u128>,
    s: Seq<u8>,
) -> Result<(Seq<u128>, int), Error>
    decreases fields.len(),
{
    if fields.len() == 0 {
        Ok((Seq::empty(), 0))
    } else {
        match spec_decode_step(little, fields[0], reg, s) {
            Err(e) => Err(e),
            Ok((v_reg, c)) => match spec_decode_fields(little, fields.skip(1), v_reg.1, s.skip(c)) {
                Err(e) => Err(e),
                Ok((vs, m)) => Ok((seq![v_reg.0] + vs, c + m)),
            },
        }
    }
}

/// What decoding a whole record yields from the byte stream `s`.
pub open spec fn spec_decode_record(schema: Schema, s: Seq<u8>) -> Result<(Seq<u128>, int), Error> {
    spec_decode_fields(schema.endian.spec_little(), schema.fields@, None, s)
}

/// Decode one field, pulling in a new group register first when the
/// field begins a group.  Returns the field's value and the register
/// left for the following field.
#[verifier::rlimit(100)]
#[verifier::spinoff_prover]
fn decode_field<B: Buffer>(
    little: bool,
    f: &Field,
    reg_in: Option<u128>,
    Ghost(regw): Ghost<Option<IntWidth>>,
    buffer: &mut B,
) -> (r: Result<(u128, Option<u128>), Error>)
    requires
        field_step_wf(*f, regw),
        (regw is Some) == (reg_in is Some),
    ensures
        match spec_decode_step(little, *f, reg_in, old(buffer).readable()) {
            Ok(vrc) => r == Ok::<(u128, Option<u128>), Error>(vrc.0) && final(buffer).readable()
                =~= old(buffer).readable().skip(vrc.1),
            Err(e) => r == Err::<(u128, Option<u128>), Error>(e)
                && final(buffer).readable().len() <= old(buffer).readable().len(),
        },
{
    let ghost s_head = buffer.readable();
    let mut reg: Option<u128> = reg_in;
    // pull in a new group register if this field begins a group
    let ghost mut pre: int = 0;
    match f.register {
        Some(w) => {
            let nb = w.byte_count();
            match read_uint(buffer, little, nb) {
                Ok(v) => {
                    reg = Some(v);
                    proof {
                        pre = nb as int;
                    }
                },
                Err(e) => {
                    return Err(e);
                },
            }
        },
        None => {},
    }
    let ghost reg1 = reg;
    let ghost s_field = buffer.readable();
    proof {
        assert(s_field =~= s_head.skip(pre));
    }
    // decode the field's own value
    let ghost dv = spec_decode_value(little, f.kind, f.bits, reg1, s_field);
    let ghost mut used: int = 0;
    let value: u128 = match f.bits {
        Some((st, en)) => {
            let rv = match reg {
                Some(rv) => rv,
                None => {
                    proof {
                        assert(false);
                    }
                    return Err(Error::InvalidValue);
                },
            };
            let w32 = en - st;
            let window = (rv >> st) & mask_of(w32);
            match &f.kind {
                FieldKind::UInt(wd) => {
                    let v = window & mask_of(8 * (wd.byte_count() as u32));
                    proof {
                        assert(dv == Ok::<(u128, int), Error>((v, 0)));
                    }
                    v
                },
                FieldKind::Bool => {
                    let v: u128 = if window & 0xff != 0 {
                        1
                    } else {
                        0
                    };
                    proof {
                        assert(dv == Ok::<(u128, int), Error>((v, 0)));
                    }
                    v
                },
                _ => {
                    proof {
                        assert(false);
                    }
                    return Err(Error::InvalidValue);
                },
            }
        },
        None => {
            match &f.kind {
                FieldKind::UInt(wd) => {
                    let nb = wd.byte_count();
                    match read_uint(buffer, little, nb) {
                        Ok(v) => {
                            proof {
                                used = nb as int;
                                assert(dv == Ok::<(u128, int), Error>((v, nb as int)));
                            }
                            v
                        },
                        Err(e) => {
                            return Err(e);
                        },
                    }
                },
                FieldKind::Bool => {
                    match read_uint(buffer, little, 1) {
                        Ok(raw) => {
                            let v: u128 = if raw != 0 {
                                1
                            } else {
                                0
                            };
                            proof {
                                used = 1;
                                lemma_uint_val_single(little, s_field);
                                assert(dv == Ok::<(u128, int), Error>((v, 1)));
                            }
                            v
                        },
                        Err(e) => {
                            return Err(e);
                        },
                    }
                },
                FieldKind::Length { width, offset } => {
                    let nb = width.byte_count();
                    let v = match read_uint(buffer, little, nb) {
                        Ok(v) => v,
                        Err(e) => {
                            return Err(e);
                        },
                    };
                    let rest = buffer.remaining();
                    let off = *offset;
                    let matches_rest: bool = if off >= 0 {
                        let offu = off as u128;
                        v <= (rest as u128) && (rest as u128) - v == offu
                    } else {
                        let neg = (-(off as i128)) as u128;
                        v >= neg && v - neg == (rest as u128)
                    };
                    proof {
                        assert(matches_rest == (s_field.len() - nb == v + off));
                    }
                    if matches_rest {
                        proof {
                            used = nb as int;
                            assert(dv == Ok::<(u128, int), Error>((v, nb as int)));
                        }
                        v
                    } else {
                        proof {
                            assert(dv == Err::<(u128, int), Error>(Error::UnexpectedLength));
                        }
                        return Err(Error::UnexpectedLength);
                    }
                },
                FieldKind::Enum(d) => {
                    let nb = d.repr.byte_count();
                    let num_variants = d.discriminants.len();
                    let v = match read_uint(buffer, little, nb) {
                        Ok(v) => v,
                        Err(e) => {
                            return Err(e);
                        },
                    };
                    match find_index(&d.discriminants, v) {
                        Some(idx) => {
                            proof {
                                lemma_find_variant_range(d.discriminants@, v);
                                used = nb as int;
                                assert(dv == Ok::<(u128, int), Error>((idx as u128, nb as int)));
                            }
                            idx as u128
                        },
                        None => match d.default {
                            Some(di) => {
                                proof {
                                    used = nb as int;
                                    assert(dv == Ok::<(u128, int), Error>((di as u128, nb as int)));
                                }
                                di as u128
                            },
                            None => {
                                proof {
                                    assert(dv == Err::<(u128, int), Error>(Error::InvalidValue));
                                }
                                return Err(Error::InvalidValue);
                            },
                        },
                    }
                },
            }
        },
    };
    // a field without a bit range ends the group
    let reg_out: Option<u128> = match f.bits {
        Some(_) => reg,
        None => None,
    };
    proof {
        assert(buffer.readable() =~= s_head.skip(pre + used));
    }
    Ok((value, reg_out))
}

/// Decode one record from `buffer`: walk the schema in field order,
/// reading plain fields from the buffer under the record's byte order
/// and packed fields from the current group register, which is read
/// once per group.  The result has one value per field; a failed field
/// aborts the whole record with its error.
#[verifier::rlimit(100)]
#[verifier::spinoff_prover]
pub fn decode_record<B: Buffer>(schema: &Schema, buffer: &mut B) -> (r: Result<Vec<u128>, Error>)
    requires
        schema.wf(),
    ensures
        match spec_decode_record(*schema, old(buffer).readable()) {
            Ok(vs_n) => match r {
                Ok(vals) => vals@ =~= vs_n.0 && final(buffer).readable() =~= old(
                    buffer,
                ).readable().skip(vs_n.1),
                Err(_) => false,
            },
            Err(e) => r == Err::<Vec<u128>, Error>(e) && final(buffer).readable().len() <= old(
                buffer,
            ).readable().len(),
        },
{
    let little = schema.endian.little();
    let n = schema.fields.len();
    let ghost s0 = buffer.readable();
    let mut values: Vec<u128> = Vec::new();
    let mut reg: Option<u128> = None;
    let ghost mut regw: Option<IntWidth> = None;
    let mut i: usize = 0;
    proof {
        assert(schema.fields@.skip(0) =~= schema.fields@);
        assert(s0.skip(0) =~= s0);
    }
    while i < n
        invariant
            i <= n,
            n == schema.fields@.len(),
            little == schema.endian.spec_little(),
            s0 == old(buffer).readable(),
            fields_wf(schema.fields@.skip(i as int), regw),
            (regw is Some) == (reg is Some),
            buffer.readable().len() <= s0.len(),
            buffer.readable() =~= s0.skip(s0.len() - buffer.readable().len()),
            match spec_decode_fields(little, schema.fields@.skip(i as int), reg, buffer.readable()) {
                Ok(vs_m) => spec_decode_fields(little, schema.fields@, None, s0) == Ok::<
                    (Seq<u128>, int),
                    Error,
                >((values@ + vs_m.0, s0.len() - buffer.readable().len() + vs_m.1)),
                Err(e) => spec_decode_fields(little, schema.fields@, None, s0) == Err::<
                    (Seq<u128>, int),
                    Error,
                >(e),
            },
        decreases n - i,
    {
        let ghost s_head = buffer.readable();
        let ghost reg_head = reg;
        let ghost fseq = schema.fields@.skip(i as int);
        let ghost values_head = values@;
        let f = &schema.fields[i];
        proof {
            assert(fseq[0] == schema.fields@[i as int]);
            assert(fseq.skip(1) =~= schema.fields@.skip(i + 1));
        }
        match decode_field(little, f, reg, Ghost(regw), buffer) {
            Ok((v, reg2)) => {
                values.push(v);
                reg = reg2;
                proof {
                    regw = next_regw(fseq[0], regw);
                    let vrc = spec_decode_step(little, fseq[0], reg_head, s_head)->Ok_0;
                    let s_next = buffer.readable();
                    assert(s_next =~= s_head.skip(vrc.1));
                    assert(values@ =~= values_head + seq![v]);
                    match spec_decode_fields(little, fseq.skip(1), reg2, s_next) {
                        Ok(vs_m) => {
                            assert(values_head + (seq![v] + vs_m.0) =~= values@ + vs_m.0);
                            assert(s_next.len() == s_head.len() - vrc.1);
                        },
                        Err(_) => {},
                    }
                }
            },
            Err(e) => {
                proof {
                    assert(spec_decode_fields(little, fseq, reg_head, s_head) == Err::<
                        (Seq<u128>, int),
                        Error,
                    >(e));
                }
                return Err(e);
            },
        }
        i += 1;
    }
    proof {
        assert(schema.fields@.skip(n as int) =~= Seq::<Field>::empty());
    }
    Ok(values)
}

/// A one-byte wire integer is that byte, under either byte order.
pub proof fn lemma_uint_val_single(little: bool, s: Seq<u8>)
    requires
        s.len() >= 1,
    ensures
        uint_val(little, s.take(1)) == s[0] as u128,
{
    assert(s.take(1).skip(1) =~= Seq::<u8>::empty());
    assert(s.take(1).drop_last() =~= Seq::<u8>::empty());
    assert(s.take(1)[0] == s[0]);
    assert(s.take(1).last() == s[0]);
    assert(uint_val(little, Seq::<u8>::empty()) == 0);
    let b = s[0] as u128;
    assert((0u128 << 8) | b == b) by (bit_vector);
    if little {
        assert(uint_val(little, s.take(1)) == (uint_val(little, s.take(1).skip(1)) << 8) | (
        s.take(1)[0] as u128));
    } else {
        assert(uint_val(little, s.take(1)) == (uint_val(little, s.take(1).drop_last()) << 8) | (
        s.take(1).last() as u128));
    }
}

/// A value fits its field: it is representable in the field's wire type
/// (for an enum, it names a variant).
pub open spec fn fits(kind: FieldKind, v: u128) -> bool {
    match kind {
        FieldKind::UInt(w) => v & window_mask(mul8(w.spec_bytes() as u32)) == v,
        FieldKind::Bool => v <= 1,
        FieldKind::Length { width, .. } => v & window_mask(mul8(width.spec_bytes() as u32))
            == v,
        FieldKind::Enum(d) => v < d.discriminants@.len(),
    }
}

/// Decide `fits`.
pub fn fits_value(kind: &FieldKind, v: u128) -> (r: bool)
    ensures
        r == fits(*kind, v),
{
    match kind {
        FieldKind::UInt(w) => v & mask_of(8 * (w.byte_count() as u32)) == v,
        FieldKind::Bool => v <= 1,
        FieldKind::Length { width, .. } => v & mask_of(8 * (width.byte_count() as u32)) == v,
        FieldKind::Enum(d) => v < d.discriminants.len() as u128,
    }
}

/// The flushed bytes of a group register, if one is being assembled.
pub open spec fn flush_bytes(little: bool, reg: Option<(IntWidth, u128)>) -> Seq<u8> {
    match reg {
        Some((w, rv)) => uint_bytes(little, rv, w.spec_bytes()),
        None => Seq::empty(),
    }
}

/// The width of the group register being assembled.
pub open spec fn reg_width(reg: Option<(IntWidth, u128)>) -> Option<IntWidth> {
    match reg {
        Some((w, rv)) => Some(w),
        None => None,
    }
}

/// What encoding one field does to the walk: the bytes put out before
/// or by the field, and the group register left assembling.  A value
/// that does not fit its field is refused with `InvalidValue`.
///
/// A field with a bit range ORs its bits into the group's register,
/// flushing the previous group's register first when it begins a new
/// group; a plain field flushes any assembling register and then writes
/// its own bytes; an enum field writes the discriminant of the variant
/// its value names.
pub open spec fn spec_encode_step(
    little: bool,
    f: Field,
    reg: Option<(IntWidth, u128)>,
    v: u128,
) -> Result<(Seq<u8>, Option<(IntWidth, u128)>), Error> {
    if !fits(f.kind, v) {
        Err(Error::InvalidValue)
    } else {
        match f.bits {
            Some((st, en)) => {
                let window = (v & window_mask((en - st) as u32)) << st;
                match f.register {
                    Some(w) => Ok((flush_bytes(little, reg), Some((w, window)))),
                    None => match reg {
                        None => Err(Error::InvalidValue),
                        Some((w0, rv0)) => Ok((Seq::empty(), Some((w0, rv0 | window)))),
                    },
                }
            },
            None => {
                let own = match f.kind {
                    FieldKind::UInt(w) => uint_bytes(little, v, w.spec_bytes()),
                    FieldKind::Bool => uint_bytes(little, v, 1),
                    FieldKind::Length { width, .. } => uint_bytes(little, v, width.spec_bytes()),
                    FieldKind::Enum(d) => uint_bytes(
                        little,
                        d.discriminants@[v as int],
                        d.repr.spec_bytes(),
                    ),
                };
                Ok((flush_bytes(little, reg) + own, None))
            },
        }
    }
}

/// What encoding the fields puts out, walked with the group register
/// being assembled; the register still assembling after the last field
/// is flushed at the end.
pub open spec fn spec_encode_fields(
    little: bool,
    fields: Seq<Field>,
    reg: Option<(IntWidth, u128)>,
    values: Seq<u128>,
) -> Result<Seq<u8>, Error>
    decreases fields.len(),
{
    if fields.len() == 0 {
        Ok(flush_bytes(little, reg))
    } else {
        match spec_encode_step(little, fields[0], reg, values[0]) {
            Err(e) => Err(e),
            Ok((bytes, reg2)) => match spec_encode_fields(
                little,
                fields.skip(1),
                reg2,
                values.skip(1),
            ) {
                Err(e) => Err(e),
                Ok(rest) => Ok(bytes + rest),
            },
        }
    }
}

/// What encoding a whole record puts out.
pub open spec fn spec_encode_record(schema: Schema, values: Seq<u128>) -> Result<Seq<u8>, Error> {
    spec_encode_fields(schema.endian.spec_little(), schema.fields@, None, values)
}

/// Flush a group register, if one is being assembled.
fn flush_group<B: BufferMut>(little: bool, reg: Option<(IntWidth, u128)>, buffer: &mut B)
    ensures
        final(buffer).written() =~= old(buffer).written() + flush_bytes(little, reg),
{
    match reg {
        Some((w, rv)) => {
            write_uint(buffer, little, rv, w.byte_count());
        },
        None => {},
    }
}

/// Encode one field, flushing the previous bitfield group where the
/// walk requires it.  Returns the group register left assembling.
#[verifier::rlimit(100)]
#[verifier::spinoff_prover]
fn encode_field<B: BufferMut>(
    little: bool,
    f: &Field,
    reg_in: Option<(IntWidth, u128)>,
    v: u128,
    buffer: &mut B,
) -> (r: Result<Option<(IntWidth, u128)>, Error>)
    requires
        field_step_wf(*f, reg_width(reg_in)),
    ensures
        match spec_encode_step(little, *f, reg_in, v) {
            Ok(br) => r == Ok::<Option<(IntWidth, u128)>, Error>(br.1) && final(buffer).written()
                =~= old(buffer).written() + br.0,
            Err(e) => r == Err::<Option<(IntWidth, u128)>, Error>(e) && final(buffer).written()
                =~= old(buffer).written(),
        },
{
    if !fits_value(&f.kind, v) {
        return Err(Error::InvalidValue);
    }
    match f.bits {
        Some((st, en)) => {
            let w32 = en - st;
            let window = (v & mask_of(w32)) << st;
            match f.register {
                Some(w) => {
                    flush_group(little, reg_in, buffer);
                    Ok(Some((w, window)))
                },
                None => match reg_in {
                    None => {
                        proof {
                            assert(false);
                        }
                        Err(Error::InvalidValue)
                    },
                    Some((w0, rv0)) => {
                        proof {
                            assert(buffer.written() =~= old(buffer).written() + Seq::<
                                u8,
                            >::empty());
                        }
                        Ok(Some((w0, rv0 | window)))
                    },
                },
            }
        },
        None => {
            flush_group(little, reg_in, buffer);
            match &f.kind {
                FieldKind::UInt(wd) => {
                    write_uint(buffer, little, v, wd.byte_count());
                },
                FieldKind::Bool => {
                    write_uint(buffer, little, v, 1);
                },
                FieldKind::Length { width, .. } => {
                    write_uint(buffer, little, v, width.byte_count());
                },
                FieldKind::Enum(d) => {
                    let nv = d.discriminants.len();
                    proof {
                        assert(v < nv as u128);
                    }
                    let disc = d.discriminants[v as usize];
                    write_uint(buffer, little, disc, d.repr.byte_count());
                },
            }
            Ok(None)
        },
    }
}

/// Encode one record into `buffer`: walk the schema in field order,
/// assembling each bitfield group in its register and flushing it once
/// per group, and writing plain fields under the record's byte order.
/// A value that does not fit its field aborts with `InvalidValue`, with
/// the fields before it already written.
#[verifier::rlimit(100)]
#[verifier::spinoff_prover]
pub fn encode_record<B: BufferMut>(schema: &Schema, values: &Vec<u128>, buffer: &mut B) -> (r:
    Result<(), Error>)
    requires
        schema.wf(),
        values@.len() == schema.fields@.len(),
    ensures
        match spec_encode_record(*schema, values@) {
            Ok(bytes) => r is Ok && final(buffer).written() =~= old(buffer).written() + bytes,
            Err(e) => r == Err::<(), Error>(e),
        },
{
    let little = schema.endian.little();
    let n = schema.fields.len();
    let mut reg: Option<(IntWidth, u128)> = None;
    let ghost mut delta: Seq<u8> = Seq::empty();
    let mut i: usize = 0;
    proof {
        assert(schema.fields@.skip(0) =~= schema.fields@);
        assert(values@.skip(0) =~= values@);
        assert(old(buffer).written() + Seq::<u8>::empty() =~= old(buffer).written());
    }
    while i < n
        invariant
            i <= n,
            n == schema.fields@.len(),
            values@.len() == schema.fields@.len(),
            little == schema.endian.spec_little(),
            fields_wf(schema.fields@.skip(i as int), reg_width(reg)),
            buffer.written() =~= old(buffer).written() + delta,
            match spec_encode_fields(
                little,
                schema.fields@.skip(i as int),
                reg,
                values@.skip(i as int),
            ) {
                Ok(rest) => spec_encode_fields(little, schema.fields@, None, values@) == Ok::<
                    Seq<u8>,
                    Error,
                >(delta + rest),
                Err(e) => spec_encode_fields(little, schema.fields@, None, values@) == Err::<
                    Seq<u8>,
                    Error,
                >(e),
            },
        decreases n - i,
    {
        let ghost reg_head = reg;
        let ghost delta_head = delta;
        let ghost fseq = schema.fields@.skip(i as int);
        let ghost vseq = values@.skip(i as int);
        let f = &schema.fields[i];
        let v = values[i];
        proof {
            assert(fseq[0] == schema.fields@[i as int]);
            assert(fseq.skip(1) =~= schema.fields@.skip(i + 1));
            assert(vseq[0] == values@[i as int]);
            assert(vseq.skip(1) =~= values@.skip(i + 1));
        }
        match encode_field(little, f, reg, v, buffer) {
            Ok(reg2) => {
                reg = reg2;
                proof {
                    let br = spec_encode_step(little, fseq[0], reg_head, v)->Ok_0;
                    delta = delta_head + br.0;
                    assert(buffer.written() =~= old(buffer).written() + delta);
                    match spec_encode_fields(little, fseq.skip(1), reg2, vseq.skip(1)) {
                        Ok(rest) => {
                            assert(delta_head + (br.0 + rest) =~= delta + rest);
                        },
                        Err(_) => {},
                    }
                }
            },
            Err(e) => {
                proof {
                    assert(spec_encode_fields(little, fseq, reg_head, vseq) == Err::<
                        Seq<u8>,
                        Error,
                    >(e));
                }
                return Err(e);
            },
        }
        i += 1;
    }
    flush_group(little, reg, buffer);
    proof {
        assert(schema.fields@.skip(n as int) =~= Seq::<Field>::empty());
        assert(values@.skip(n as int) =~= Seq::<u128>::empty());
        assert(buffer.written() =~= old(buffer).written() + (delta + flush_bytes(little, reg)));
    }
    Ok(())
}

/// Encode one value of a data-carrying enum: dispatch on the active
/// variant and write that variant's fields in declared order.  Such
/// enums carry no discriminant on the wire, so they support encoding
/// only; a decode would be ambiguous.
pub fn encode_data_enum<B: BufferMut>(
    variants: &Vec<Schema>,
    active: usize,
    values: &Vec<u128>,
    buffer: &mut B,
) -> (r: Result<(), Error>)
    requires
        active < variants@.len(),
        variants@[active as int].wf(),
        values@.len() == variants@[active as int].fields@.len(),
    ensures
        match spec_encode_record(variants@[active as int], values@) {
            Ok(bytes) => r is Ok && final(buffer).written() =~= old(buffer).written() + bytes,
            Err(e) => r == Err::<(), Error>(e),
        },
{
    encode_record(&variants[active], values, buffer)
}

} // verus!
