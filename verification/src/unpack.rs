//! Decoding values from a byte stream.
//!
//! `Exstruct<E>` is implemented by every type that can be read off the
//! wire under byte-order strategy `E`.  `spec_read` is the exact meaning
//! of a decode: applied to the unread bytes it gives either the decoded
//! value with the number of bytes consumed, or the error the decode
//! reports.  `read_from_buffer` behaves precisely as `spec_read` says.

use vstd::prelude::*;

use crate::buffer::{byte_vec, Buffer};
use crate::endian::{
    endian_u128_val, endian_u16_val, endian_u32_val, endian_u64_val, Endian,
};
use crate::error::Error;

verus! {

/// A type decodable under byte-order strategy `E`.
pub trait Exstruct<E: Endian>: Sized {
    /// What decoding from the byte stream `s` yields: the value and the
    /// count of bytes consumed, or the error reported.
    spec fn spec_read(s: Seq<u8>) -> Result<(Self, int), Error>;

    /// A successful decode consumes between zero and all of the bytes.
    proof fn lemma_spec_read_consumes(s: Seq<u8>)
        ensures
            match Self::spec_read(s) {
                Ok(r) => 0 <= r.1 <= s.len(),
                Err(_) => true,
            },
    ;

    /// Decode one value, advancing the buffer past the consumed bytes.
    /// On failure the buffer may have advanced past the successfully
    /// read prefix.
    fn read_from_buffer<B: Buffer>(buffer: &mut B) -> (r: Result<Self, Error>)
        ensures
            match Self::spec_read(old(buffer).readable()) {
                Ok(v_n) => r == Ok::<Self, Error>(v_n.0) && final(buffer).readable() =~= old(
                    buffer,
                ).readable().skip(v_n.1),
                Err(e) => r == Err::<Self, Error>(e) && final(buffer).readable().len() <= old(
                    buffer,
                ).readable().len(),
            },
    ;
}

impl<E: Endian> Exstruct<E> for u8 {
    open spec fn spec_read(s: Seq<u8>) -> Result<(u8, int), Error> {
        if s.len() >= 1 {
            Ok((s[0], 1))
        } else {
            Err(Error::TooShort)
        }
    }

    proof fn lemma_spec_read_consumes(s: Seq<u8>) {
    }

    fn read_from_buffer<B: Buffer>(buffer: &mut B) -> (r: Result<Self, Error>) {
        let mut dst = byte_vec(1);
        match buffer.try_copy_to_slice(&mut dst) {
            Ok(_) => Ok(E::read_u8(&dst)),
            Err(e) => Err(e),
        }
    }
}

impl<E: Endian> Exstruct<E> for u16 {
    open spec fn spec_read(s: Seq<u8>) -> Result<(u16, int), Error> {
        if s.len() >= 2 {
            Ok((endian_u16_val::<E>(s.take(2)), 2))
        } else {
            Err(Error::TooShort)
        }
    }

    proof fn lemma_spec_read_consumes(s: Seq<u8>) {
    }

    fn read_from_buffer<B: Buffer>(buffer: &mut B) -> (r: Result<Self, Error>) {
        let mut dst = byte_vec(2);
        match buffer.try_copy_to_slice(&mut dst) {
            Ok(_) => Ok(E::read_u16(&dst)),
            Err(e) => Err(e),
        }
    }
}

impl<E: Endian> Exstruct<E> for u32 {
    open spec fn spec_read(s: Seq<u8>) -> Result<(u32, int), Error> {
        if s.len() >= 4 {
            Ok((endian_u32_val::<E>(s.take(4)), 4))
        } else {
            Err(Error::TooShort)
        }
    }

    proof fn lemma_spec_read_consumes(s: Seq<u8>) {
    }

    fn read_from_buffer<B: Buffer>(buffer: &mut B) -> (r: Result<Self, Error>) {
        let mut dst = byte_vec(4);
        match buffer.try_copy_to_slice(&mut dst) {
            Ok(_) => Ok(E::read_u32(&dst)),
            Err(e) => Err(e),
        }
    }
}

impl<E: Endian> Exstruct<E> for u64 {
    open spec fn spec_read(s: Seq<u8>) -> Result<(u64, int), Error> {
        if s.len() >= 8 {
            Ok((endian_u64_val::<E>(s.take(8)), 8))
        } else {
            Err(Error::TooShort)
        }
    }

    proof fn lemma_spec_read_consumes(s: Seq<u8>) {
    }

    fn read_from_buffer<B: Buffer>(buffer: &mut B) -> (r: Result<Self, Error>) {
        let mut dst = byte_vec(8);
        match buffer.try_copy_to_slice(&mut dst) {
            Ok(_) => Ok(E::read_u64(&dst)),
            Err(e) => Err(e),
        }
    }
}

impl<E: Endian> Exstruct<E> for u128 {
    open spec fn spec_read(s: Seq<u8>) -> Result<(u128, int), Error> {
        if s.len() >= 16 {
            Ok((endian_u128_val::<E>(s.take(16)), 16))
        } else {
            Err(Error::TooShort)
        }
    }

    proof fn lemma_spec_read_consumes(s: Seq<u8>) {
    }

    fn read_from_buffer<B: Buffer>(buffer: &mut B) -> (r: Result<Self, Error>) {
        let mut dst = byte_vec(16);
        match buffer.try_copy_to_slice(&mut dst) {
            Ok(_) => Ok(E::read_u128(&dst)),
            Err(e) => Err(e),
        }
    }
}

impl<E: Endian> Exstruct<E> for i8 {
    open spec fn spec_read(s: Seq<u8>) -> Result<(i8, int), Error> {
        if s.len() >= 1 {
            Ok((s[0] as i8, 1))
        } else {
            Err(Error::TooShort)
        }
    }

    proof fn lemma_spec_read_consumes(s: Seq<u8>) {
    }

    fn read_from_buffer<B: Buffer>(buffer: &mut B) -> (r: Result<Self, Error>) {
        match <u8 as Exstruct<E>>::read_from_buffer(buffer) {
            Ok(v) => Ok(v as i8),
            Err(e) => Err(e),
        }
    }
}

impl<E: Endian> Exstruct<E> for i16 {
    open spec fn spec_read(s: Seq<u8>) -> Result<(i16, int), Error> {
        if s.len() >= 2 {
            Ok((endian_u16_val::<E>(s.take(2)) as i16, 2))
        } else {
            Err(Error::TooShort)
        }
    }

    proof fn lemma_spec_read_consumes(s: Seq<u8>) {
    }

    fn read_from_buffer<B: Buffer>(buffer: &mut B) -> (r: Result<Self, Error>) {
        match <u16 as Exstruct<E>>::read_from_buffer(buffer) {
            Ok(v) => Ok(v as i16),
            Err(e) => Err(e),
        }
    }
}

impl<E: Endian> Exstruct<E> for i32 {
    open spec fn spec_read(s: Seq<u8>) -> Result<(i32, int), Error> {
        if s.len() >= 4 {
            Ok((endian_u32_val::<E>(s.take(4)) as i32, 4))
        } else {
            Err(Error::TooShort)
        }
    }

    proof fn lemma_spec_read_consumes(s: Seq<u8>) {
    }

    fn read_from_buffer<B: Buffer>(buffer: &mut B) -> (r: Result<Self, Error>) {
        match <u32 as Exstruct<E>>::read_from_buffer(buffer) {
            Ok(v) => Ok(v as i32),
            Err(e) => Err(e),
        }
    }
}

impl<E: Endian> Exstruct<E> for i64 {
    open spec fn spec_read(s: Seq<u8>) -> Result<(i64, int), Error> {
        if s.len() >= 8 {
            Ok((endian_u64_val::<E>(s.take(8)) as i64, 8))
        } else {
            Err(Error::TooShort)
        }
    }

    proof fn lemma_spec_read_consumes(s: Seq<u8>) {
    }

    fn read_from_buffer<B: Buffer>(buffer: &mut B) -> (r: Result<Self, Error>) {
        match <u64 as Exstruct<E>>::read_from_buffer(buffer) {
            Ok(v) => Ok(v as i64),
            Err(e) => Err(e),
        }
    }
}

impl<E: Endian> Exstruct<E> for i128 {
    open spec fn spec_read(s: Seq<u8>) -> Result<(i128, int), Error> {
        if s.len() >= 16 {
            Ok((endian_u128_val::<E>(s.take(16)) as i128, 16))
        } else {
            Err(Error::TooShort)
        }
    }

    proof fn lemma_spec_read_consumes(s: Seq<u8>) {
    }

    fn read_from_buffer<B: Buffer>(buffer: &mut B) -> (r: Result<Self, Error>) {
        match <u128 as Exstruct<E>>::read_from_buffer(buffer) {
            Ok(v) => Ok(v as i128),
            Err(e) => Err(e),
        }
    }
}

impl<E: Endian> Exstruct<E> for bool {
    /// The byte `0` decodes to `false`; any nonzero byte decodes to
    /// `true`.  No byte value is rejected.
    open spec fn spec_read(s: Seq<u8>) -> Result<(bool, int), Error> {
        if s.len() >= 1 {
            Ok((s[0] != 0, 1))
        } else {
            Err(Error::TooShort)
        }
    }

    proof fn lemma_spec_read_consumes(s: Seq<u8>) {
    }

    fn read_from_buffer<B: Buffer>(buffer: &mut B) -> (r: Result<Self, Error>) {
        match <u8 as Exstruct<E>>::read_from_buffer(buffer) {
            Ok(v) => Ok(v != 0),
            Err(e) => Err(e),
        }
    }
}

impl<E: Endian> Exstruct<E> for () {
    open spec fn spec_read(s: Seq<u8>) -> Result<((), int), Error> {
        Ok(((), 0))
    }

    proof fn lemma_spec_read_consumes(s: Seq<u8>) {
    }

    fn read_from_buffer<B: Buffer>(buffer: &mut B) -> (r: Result<Self, Error>) {
        proof {
            assert(final(buffer).readable() =~= old(buffer).readable().skip(0));
        }
        Ok(())
    }
}

impl<E, T1, T2> Exstruct<E> for (T1, T2) where
    E: Endian,
    T1: Exstruct<E>,
    T2: Exstruct<E>,
 {
    open spec fn spec_read(s: Seq<u8>) -> Result<((T1, T2), int), Error> {
        match T1::spec_read(s) {
            Ok(r1) => match T2::spec_read(s.skip(r1.1)) {
                Ok(r2) => Ok(((r1.0, r2.0), r1.1 + r2.1)),
                Err(e) => Err(e),
            },
            Err(e) => Err(e),
        }
    }

    proof fn lemma_spec_read_consumes(s: Seq<u8>) {
        T1::lemma_spec_read_consumes(s);
        match T1::spec_read(s) {
            Ok(r1) => {
                T2::lemma_spec_read_consumes(s.skip(r1.1));
            },
            Err(_) => {},
        }
    }

    fn read_from_buffer<B: Buffer>(buffer: &mut B) -> (r: Result<Self, Error>) {
        proof {
            T1::lemma_spec_read_consumes(buffer.readable());
        }
        let v1 = match T1::read_from_buffer(buffer) {
            Ok(v) => v,
            Err(e) => {
                return Err(e);
            },
        };
        let v2 = match T2::read_from_buffer(buffer) {
            Ok(v) => v,
            Err(e) => {
                return Err(e);
            },
        };
        proof {
            let s = old(buffer).readable();
            let n1 = T1::spec_read(s)->Ok_0.1;
            let n2 = T2::spec_read(s.skip(n1))->Ok_0.1;
            T2::lemma_spec_read_consumes(s.skip(n1));
            assert(s.skip(n1).skip(n2) =~= s.skip(n1 + n2));
        }
        Ok((v1, v2))
    }
}

impl<E, T1, T2, T3> Exstruct<E> for (T1, T2, T3) where
    E: Endian,
    T1: Exstruct<E>,
    T2: Exstruct<E>,
    T3: Exstruct<E>,
 {
    open spec fn spec_read(s: Seq<u8>) -> Result<((T1, T2, T3), int), Error> {
        match <(T1, (T2, T3)) as Exstruct<E>>::spec_read(s) {
            Ok(r) => Ok(((r.0.0, r.0.1.0, r.0.1.1), r.1)),
            Err(e) => Err(e),
        }
    }

    proof fn lemma_spec_read_consumes(s: Seq<u8>) {
        <(T1, (T2, T3)) as Exstruct<E>>::lemma_spec_read_consumes(s);
    }

    fn read_from_buffer<B: Buffer>(buffer: &mut B) -> (r: Result<Self, Error>) {
        match <(T1, (T2, T3)) as Exstruct<E>>::read_from_buffer(buffer) {
            Ok(v) => Ok((v.0, v.1.0, v.1.1)),
            Err(e) => Err(e),
        }
    }
}

impl<E, T1, T2, T3, T4> Exstruct<E> for (T1, T2, T3, T4) where
    E: Endian,
    T1: Exstruct<E>,
    T2: Exstruct<E>,
    T3: Exstruct<E>,
    T4: Exstruct<E>,
 {
    open spec fn spec_read(s: Seq<u8>) -> Result<((T1, T2, T3, T4), int), Error> {
        match <((T1, T2), (T3, T4)) as Exstruct<E>>::spec_read(s) {
            Ok(r) => Ok(((r.0.0.0, r.0.0.1, r.0.1.0, r.0.1.1), r.1)),
            Err(e) => Err(e),
        }
    }

    proof fn lemma_spec_read_consumes(s: Seq<u8>) {
        <((T1, T2), (T3, T4)) as Exstruct<E>>::lemma_spec_read_consumes(s);
    }

    fn read_from_buffer<B: Buffer>(buffer: &mut B) -> (r: Result<Self, Error>) {
        match <((T1, T2), (T3, T4)) as Exstruct<E>>::read_from_buffer(buffer) {
            Ok(v) => Ok((v.0.0, v.0.1, v.1.0, v.1.1)),
            Err(e) => Err(e),
        }
    }
}

/// The remainder of the buffer, taken whole: the tail-sequence decode of
/// plain bytes.  It consumes until the buffer reports nothing remaining,
/// so it is meaningful only as the final field of a bounded buffer.
pub fn read_rest<B: Buffer>(buffer: &mut B) -> (r: Vec<u8>)
    ensures
        r@ =~= old(buffer).readable(),
        final(buffer).readable().len() == 0,
{
    let n = buffer.remaining();
    let mut dst = byte_vec(n);
    let res = buffer.try_copy_to_slice(&mut dst);
    proof {
        assert(old(buffer).readable().take(n as int) =~= old(buffer).readable());
        assert(res is Ok);
    }
    dst
}

} // verus!
