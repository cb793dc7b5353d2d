//! The length-validation type, the bounded sub-view, and the 24-bit
//! integer.
//!
//! `Length<T, OFFSET>` is a wire integer that doubles as a runtime
//! assertion: decoding it fails with `UnexpectedLength` unless the bytes
//! remaining in the buffer equal the decoded value plus the static
//! offset.  `Limit` caps how many further bytes may be consumed from a
//! wrapped buffer.  `u24` is the packed 24-bit unsigned integer, usable
//! both as a wire type and as bitfield storage.

use vstd::prelude::*;

use crate::bitfield::{
    be_value_of, be_window_bytes, lemma_insert_fits, lemma_mask_absorb, mask_of, window_mask,
    BitStorage,
};
use crate::buffer::{byte_vec, Buffer, BufferMut};
use crate::endian::{
    endian_u16_bytes, endian_u16_val, endian_u24_bytes, endian_u24_val, endian_u32_bytes,
    endian_u32_val, Endian,
};
use crate::error::Error;
use crate::pack::Instruct;
use crate::unpack::Exstruct;

verus! {

/// A wire integer of type `T` whose decode additionally requires that
/// the bytes remaining in the buffer equal its value plus `OFFSET`.
///
/// Constructed from a byte count directly (`new`) or from a byte count
/// less the offset (`with_offset`); both fail with `InvalidValue` when
/// the count does not fit in `T`.  Encoding writes the inner integer
/// verbatim; the offset is a decode-time check only.  The offset here is
/// a non-negative byte count, since a type-level constant must be
/// unsigned; a length field whose offset subtracts is expressed in the
/// schema codec, whose offsets are signed.
#[derive(Debug, Default, Copy, Clone, Eq, PartialEq, Ord, PartialOrd, Hash)]
pub struct Length<T, const OFFSET: usize>(pub T);

impl<const OFFSET: usize> Length<u8, OFFSET> {
    /// Wrap a byte count, failing with `InvalidValue` if it does not
    /// fit in the wire type.
    pub fn new(len: usize) -> (r: Result<Self, Error>)
        ensures
            len <= u8::MAX ==> r == Ok::<Self, Error>(Length(len as u8)),
            len > u8::MAX ==> r == Err::<Self, Error>(Error::InvalidValue),
    {
        if len <= u8::MAX as usize {
            Ok(Length(len as u8))
        } else {
            Err(Error::InvalidValue)
        }
    }

    /// Wrap a byte count from which the static offset is first
    /// subtracted, saturating at zero.
    pub fn with_offset(len: usize) -> (r: Result<Self, Error>)
        ensures
            ({
                let adjusted = if len >= OFFSET { (len - OFFSET) as usize } else { 0usize };
                (adjusted <= u8::MAX ==> r == Ok::<Self, Error>(Length(adjusted as u8)))
                    && (adjusted > u8::MAX ==> r == Err::<Self, Error>(Error::InvalidValue))
            }),
    {
        let adjusted = if len >= OFFSET {
            len - OFFSET
        } else {
            0
        };
        Self::new(adjusted)
    }
}

impl<E: Endian, const OFFSET: usize> Exstruct<E> for Length<u8, OFFSET> {
    /// Read the integer, then require that exactly `value + OFFSET`
    /// bytes remain behind it; a mismatch is `UnexpectedLength`.
    open spec fn spec_read(s: Seq<u8>) -> Result<(Self, int), Error> {
        if s.len() < 1 {
            Err(Error::TooShort)
        } else {
            let v = s[0];
            if s.len() - 1 == v + OFFSET {
                Ok((Length(v), 1))
            } else {
                Err(Error::UnexpectedLength)
            }
        }
    }

    proof fn lemma_spec_read_consumes(s: Seq<u8>) {
    }

    fn read_from_buffer<B: Buffer>(buffer: &mut B) -> (r: Result<Self, Error>) {
        let v = match <u8 as Exstruct<E>>::read_from_buffer(buffer) {
            Ok(v) => v,
            Err(e) => {
                return Err(e);
            },
        };
        let rest = buffer.remaining();
        match (v as usize).checked_add(OFFSET) {
            Some(expected) => {
                if rest == expected {
                    Ok(Length(v))
                } else {
                    Err(Error::UnexpectedLength)
                }
            },
            None => Err(Error::UnexpectedLength),
        }
    }
}

impl<E: Endian, const OFFSET: usize> Instruct<E> for Length<u8, OFFSET> {
    open spec fn spec_write(&self) -> Seq<u8> {
        seq![self.0]
    }

    fn write_to_buffer<B: BufferMut>(&self, buffer: &mut B) {
        <u8 as Instruct<E>>::write_to_buffer(&self.0, buffer);
    }
}

impl<const OFFSET: usize> Length<u16, OFFSET> {
    /// Wrap a byte count, failing with `InvalidValue` if it does not
    /// fit in the wire type.
    pub fn new(len: usize) -> (r: Result<Self, Error>)
        ensures
            len <= u16::MAX ==> r == Ok::<Self, Error>(Length(len as u16)),
            len > u16::MAX ==> r == Err::<Self, Error>(Error::InvalidValue),
    {
        if len <= u16::MAX as usize {
            Ok(Length(len as u16))
        } else {
            Err(Error::InvalidValue)
        }
    }

    /// Wrap a byte count from which the static offset is first
    /// subtracted, saturating at zero.
    pub fn with_offset(len: usize) -> (r: Result<Self, Error>)
        ensures
            ({
                let adjusted = if len >= OFFSET { (len - OFFSET) as usize } else { 0usize };
                (adjusted <= u16::MAX ==> r == Ok::<Self, Error>(Length(adjusted as u16)))
                    && (adjusted > u16::MAX ==> r == Err::<Self, Error>(Error::InvalidValue))
            }),
    {
        let adjusted = if len >= OFFSET {
            len - OFFSET
        } else {
            0
        };
        Self::new(adjusted)
    }
}

impl<E: Endian, const OFFSET: usize> Exstruct<E> for Length<u16, OFFSET> {
    /// Read the integer, then require that exactly `value + OFFSET`
    /// bytes remain behind it; a mismatch is `UnexpectedLength`.
    open spec fn spec_read(s: Seq<u8>) -> Result<(Self, int), Error> {
        if s.len() < 2 {
            Err(Error::TooShort)
        } else {
            let v = endian_u16_val::<E>(s.take(2));
            if s.len() - 2 == v + OFFSET {
                Ok((Length(v), 2))
            } else {
                Err(Error::UnexpectedLength)
            }
        }
    }

    proof fn lemma_spec_read_consumes(s: Seq<u8>) {
    }

    fn read_from_buffer<B: Buffer>(buffer: &mut B) -> (r: Result<Self, Error>) {
        let v = match <u16 as Exstruct<E>>::read_from_buffer(buffer) {
            Ok(v) => v,
            Err(e) => {
                return Err(e);
            },
        };
        let rest = buffer.remaining();
        match (v as usize).checked_add(OFFSET) {
            Some(expected) => {
                if rest == expected {
                    Ok(Length(v))
                } else {
                    Err(Error::UnexpectedLength)
                }
            },
            None => Err(Error::UnexpectedLength),
        }
    }
}

impl<E: Endian, const OFFSET: usize> Instruct<E> for Length<u16, OFFSET> {
    open spec fn spec_write(&self) -> Seq<u8> {
        endian_u16_bytes::<E>(self.0)
    }

    fn write_to_buffer<B: BufferMut>(&self, buffer: &mut B) {
        <u16 as Instruct<E>>::write_to_buffer(&self.0, buffer);
    }
}

impl<const OFFSET: usize> Length<u32, OFFSET> {
    /// Wrap a byte count, failing with `InvalidValue` if it does not
    /// fit in the wire type.
    pub fn new(len: usize) -> (r: Result<Self, Error>)
        ensures
            len <= u32::MAX ==> r == Ok::<Self, Error>(Length(len as u32)),
            len > u32::MAX ==> r == Err::<Self, Error>(Error::InvalidValue),
    {
        if len <= u32::MAX as usize {
            Ok(Length(len as u32))
        } else {
            Err(Error::InvalidValue)
        }
    }

    /// Wrap a byte count from which the static offset is first
    /// subtracted, saturating at zero.
    pub fn with_offset(len: usize) -> (r: Result<Self, Error>)
        ensures
            ({
                let adjusted = if len >= OFFSET { (len - OFFSET) as usize } else { 0usize };
                (adjusted <= u32::MAX ==> r == Ok::<Self, Error>(Length(adjusted as u32)))
                    && (adjusted > u32::MAX ==> r == Err::<Self, Error>(Error::InvalidValue))
            }),
    {
        let adjusted = if len >= OFFSET {
            len - OFFSET
        } else {
            0
        };
        Self::new(adjusted)
    }
}

impl<E: Endian, const OFFSET: usize> Exstruct<E> for Length<u32, OFFSET> {
    /// Read the integer, then require that exactly `value + OFFSET`
    /// bytes remain behind it; a mismatch is `UnexpectedLength`.
    open spec fn spec_read(s: Seq<u8>) -> Result<(Self, int), Error> {
        if s.len() < 4 {
            Err(Error::TooShort)
        } else {
            let v = endian_u32_val::<E>(s.take(4));
            if s.len() - 4 == v + OFFSET {
                Ok((Length(v), 4))
            } else {
                Err(Error::UnexpectedLength)
            }
        }
    }

    proof fn lemma_spec_read_consumes(s: Seq<u8>) {
    }

    fn read_from_buffer<B: Buffer>(buffer: &mut B) -> (r: Result<Self, Error>) {
        let v = match <u32 as Exstruct<E>>::read_from_buffer(buffer) {
            Ok(v) => v,
            Err(e) => {
                return Err(e);
            },
        };
        let rest = buffer.remaining();
        match (v as usize).checked_add(OFFSET) {
            Some(expected) => {
                if rest == expected {
                    Ok(Length(v))
                } else {
                    Err(Error::UnexpectedLength)
                }
            },
            None => Err(Error::UnexpectedLength),
        }
    }
}

impl<E: Endian, const OFFSET: usize> Instruct<E> for Length<u32, OFFSET> {
    open spec fn spec_write(&self) -> Seq<u8> {
        endian_u32_bytes::<E>(self.0)
    }

    fn write_to_buffer<B: BufferMut>(&self, buffer: &mut B) {
        <u32 as Instruct<E>>::write_to_buffer(&self.0, buffer);
    }
}

/// A bounded sub-view: a buffer wrapper that caps how many further
/// bytes may be consumed, used to bound a nested sub-structure to a
/// stated length without trusting it to stop on its own.
///
/// Every read is charged against both the local budget and the wrapped
/// buffer's own remaining count; reading beyond either fails `TooShort`.
pub struct Limit<B: Buffer> {
    buffer: B,
    remaining: usize,
}

impl<B: Buffer> Limit<B> {
    /// The wrapped buffer.
    pub closed spec fn inner(&self) -> B {
        self.buffer
    }

    /// The local byte budget.
    pub closed spec fn budget(&self) -> usize {
        self.remaining
    }

    /// Cap `buffer` at `remaining` further bytes.
    pub fn new(buffer: B, remaining: usize) -> (r: Self)
        ensures
            r.inner() == buffer,
            r.budget() == remaining,
    {
        Limit { buffer, remaining }
    }

    /// Hand the wrapped buffer back.
    pub fn into_inner(self) -> (r: B)
        ensures
            r == self.inner(),
    {
        self.buffer
    }
}

impl<B: Buffer> Buffer for Limit<B> {
    /// What remains readable: the wrapped buffer's bytes, cut off at
    /// the budget.
    open spec fn readable(&self) -> Seq<u8> {
        if self.budget() <= self.inner().readable().len() {
            self.inner().readable().take(self.budget() as int)
        } else {
            self.inner().readable()
        }
    }

    fn try_copy_to_slice(&mut self, dst: &mut Vec<u8>) -> (r: Result<(), Error>) {
        let n = dst.len();
        if self.remaining < n {
            return Err(Error::TooShort);
        }
        match self.buffer.try_copy_to_slice(dst) {
            Ok(u) => {
                self.remaining = self.remaining - n;
                proof {
                    assert(self.readable() =~= old(self).readable().skip(n as int));
                }
                Ok(u)
            },
            Err(e) => Err(e),
        }
    }

    fn skip(&mut self, n: usize) -> (r: Result<(), Error>) {
        if self.remaining < n {
            return Err(Error::TooShort);
        }
        match self.buffer.skip(n) {
            Ok(u) => {
                self.remaining = self.remaining - n;
                proof {
                    assert(self.readable() =~= old(self).readable().skip(n as int));
                }
                Ok(u)
            },
            Err(e) => Err(e),
        }
    }

    fn remaining(&self) -> (r: usize) {
        let inner_remaining = self.buffer.remaining();
        if self.remaining < inner_remaining {
            self.remaining
        } else {
            inner_remaining
        }
    }
}

/// A packed 24-bit unsigned integer: three bytes on the wire, also
/// usable as a 24-bit bitfield register.
///
/// A value is well formed when it fits 24 bits; every constructor and
/// decode produces well-formed values, and the register semantics read
/// only the low 24 bits.
#[allow(non_camel_case_types)]
#[derive(Debug, Default, Copy, Clone, Eq, PartialEq, Ord, PartialOrd, Hash)]
pub struct u24(pub u32);

impl u24 {
    /// The value fits 24 bits.
    pub open spec fn wf(&self) -> bool {
        self.0 < 0x100_0000
    }

    /// Wrap a value known to fit 24 bits.
    pub fn new(value: u32) -> (r: u24)
        requires
            value < 0x100_0000,
        ensures
            r == (u24(value)),
            r.wf(),
    {
        u24(value)
    }

    /// The largest representable value.
    pub fn max() -> (r: u24)
        ensures
            r == (u24(0xff_ffff)),
    {
        u24(0xff_ffff)
    }

    /// The smallest representable value.
    pub fn min() -> (r: u24)
        ensures
            r == (u24(0)),
    {
        u24(0)
    }
}

impl From<u8> for u24 {
    fn from(value: u8) -> (r: u24)
        ensures
            r == (u24(value as u32)),
    {
        u24(value as u32)
    }
}

impl vstd::std_specs::convert::FromSpecImpl<u8> for u24 {
    open spec fn obeys_from_spec() -> bool {
        true
    }

    open spec fn from_spec(value: u8) -> u24 {
        u24(value as u32)
    }
}

impl From<u16> for u24 {
    fn from(value: u16) -> (r: u24)
        ensures
            r == (u24(value as u32)),
    {
        u24(value as u32)
    }
}

impl vstd::std_specs::convert::FromSpecImpl<u16> for u24 {
    open spec fn obeys_from_spec() -> bool {
        true
    }

    open spec fn from_spec(value: u16) -> u24 {
        u24(value as u32)
    }
}

impl From<u24> for u32 {
    fn from(value: u24) -> (r: u32)
        ensures
            r == value.0,
    {
        value.0
    }
}

impl vstd::std_specs::convert::FromSpecImpl<u24> for u32 {
    open spec fn obeys_from_spec() -> bool {
        true
    }

    open spec fn from_spec(value: u24) -> u32 {
        value.0
    }
}

impl<E: Endian> Exstruct<E> for u24 {
    open spec fn spec_read(s: Seq<u8>) -> Result<(u24, int), Error> {
        if s.len() >= 3 {
            Ok((u24(endian_u24_val::<E>(s.take(3))), 3))
        } else {
            Err(Error::TooShort)
        }
    }

    proof fn lemma_spec_read_consumes(s: Seq<u8>) {
    }

    fn read_from_buffer<B: Buffer>(buffer: &mut B) -> (r: Result<Self, Error>) {
        let mut dst = byte_vec(3);
        match buffer.try_copy_to_slice(&mut dst) {
            Ok(_) => Ok(u24(E::read_u24(&dst))),
            Err(e) => Err(e),
        }
    }
}

impl<E: Endian> Instruct<E> for u24 {
    open spec fn spec_write(&self) -> Seq<u8> {
        endian_u24_bytes::<E>((self.0 & 0xff_ffff) as u32)
    }

    fn write_to_buffer<B: BufferMut>(&self, buffer: &mut B) {
        let masked = self.0 & 0xff_ffff;
        proof {
            let x = self.0;
            assert(x & 0xff_ffff < 0x100_0000) by (bit_vector);
        }
        let bytes = E::write_u24(masked);
        buffer.extend_from_slice(bytes.as_slice());
    }
}

impl BitStorage for u24 {
    open spec fn spec_bits() -> u32 {
        24
    }

    open spec fn spec_val(&self) -> u128 {
        (self.0 & 0xff_ffff) as u128
    }

    proof fn lemma_wf(&self) {
        let x = self.0;
        assert(((x & 0xff_ffff) as u128) & window_mask(24) == (x & 0xff_ffff) as u128)
            by (bit_vector);
    }

    fn bits() -> u32 {
        24
    }

    fn zeroed() -> Self {
        proof {
            assert(((0u32 & 0xff_ffff) as u128) == 0) by (bit_vector);
        }
        u24(0)
    }

    fn extract(&self, start: u32, end: u32) -> (r: Vec<u8>) {
        let w = end - start;
        let masked = (((self.0 & 0xff_ffff) as u128) >> start) & mask_of(w);
        let r = be_window_bytes(masked, 3);
        proof {
            lemma_mask_absorb((self.0 & 0xff_ffff) as u128, start, w, 24);
        }
        r
    }

    fn insert(&mut self, start: u32, end: u32, value: &[u8]) {
        let w = end - start;
        let v = be_value_of(value);
        let add = (v & mask_of(w)) << start;
        let ghost x = (self.0 & 0xff_ffff) as u128;
        let combined = (((self.0 & 0xff_ffff) as u128) | add);
        proof {
            lemma_insert_fits(v, start, w, 24);
            let y = self.0;
            assert(((y & 0xff_ffff) as u128) < 0x100_0000) by (bit_vector);
            assert(((x | add) & 0xff_ffff) as u32 & 0xff_ffff == ((x | add) & 0xff_ffff) as u32)
                by (bit_vector);
            assert((((x | add) & 0xff_ffff) as u32 & 0xff_ffff) as u128 == x | add)
                by (bit_vector)
                requires
                    x < 0x100_0000,
                    add & window_mask(24) == add,
            ;
        }
        *self = u24((combined & 0xff_ffff) as u32);
    }
}

} // verus!
