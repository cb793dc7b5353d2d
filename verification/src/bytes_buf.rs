//! Buffer implementations over the `bytes` crate's containers.
//!
//! `bytes::Bytes` serves as a zero-copy read-side buffer and
//! `bytes::BytesMut` as a write-side sink, exactly as any other buffer of
//! this library.  Their contents are named by `bytes_view` and
//! `bytes_mut_view`; each trusted wrapper below states what the `bytes`
//! crate's own source shows of the one call its body makes.

use vstd::prelude::*;

use crate::buffer::{Buffer, BufferMut};
use crate::endian::Endian;
use crate::error::Error;
use crate::pack::Instruct;

verus! {

#[verifier::external_type_specification]
#[verifier::external_body]
pub struct ExBytes(bytes::Bytes);

#[verifier::external_type_specification]
#[verifier::external_body]
pub struct ExBytesMut(bytes::BytesMut);

/// The bytes a `bytes::Bytes` holds, in order.
pub uninterp spec fn bytes_view(b: bytes::Bytes) -> Seq<u8>;

/// The bytes a `bytes::BytesMut` holds, in order.
pub uninterp spec fn bytes_mut_view(b: bytes::BytesMut) -> Seq<u8>;

/// Relies on `Buf::remaining` and `Buf::copy_to_slice` for
/// `bytes::Bytes`: `remaining` is the exact count of bytes held, and
/// `copy_to_slice` fills `dst` with the next bytes and drops them from
/// the front; the length is checked first, so the call cannot panic.
#[verifier::external_body]
fn bytes_copy_to(b: &mut bytes::Bytes, dst: &mut Vec<u8>) -> (r: Result<(), Error>)
    ensures
        final(dst)@.len() == old(dst)@.len(),
        r is Ok <==> old(dst)@.len() <= bytes_view(*old(b)).len(),
        r is Ok ==> final(dst)@ == bytes_view(*old(b)).take(old(dst)@.len() as int) && bytes_view(
            *final(b),
        ) == bytes_view(*old(b)).skip(old(dst)@.len() as int),
        r is Err ==> r->Err_0 == Error::TooShort && *final(b) == *old(b)
            && final(dst)@ == old(dst)@,
{
    if bytes::Buf::remaining(b) < dst.len() {
        return Err(Error::TooShort);
    }
    bytes::Buf::copy_to_slice(b, dst.as_mut_slice());
    Ok(())
}

/// Relies on `Buf::remaining` and `Buf::advance` for `bytes::Bytes`:
/// `advance` drops the first `n` bytes held; the length is checked
/// first, so the call cannot panic.
#[verifier::external_body]
fn bytes_skip(b: &mut bytes::Bytes, n: usize) -> (r: Result<(), Error>)
    ensures
        r is Ok <==> n <= bytes_view(*old(b)).len(),
        r is Ok ==> bytes_view(*final(b)) == bytes_view(*old(b)).skip(n as int),
        r is Err ==> r->Err_0 == Error::TooShort && *final(b) == *old(b),
{
    if bytes::Buf::remaining(b) < n {
        return Err(Error::TooShort);
    }
    bytes::Buf::advance(b, n);
    Ok(())
}

/// Relies on `Buf::remaining` for `bytes::Bytes`: the exact count of
/// bytes held, not an estimate.
#[verifier::external_body]
fn bytes_remaining(b: &bytes::Bytes) -> (r: usize)
    ensures
        r == bytes_view(*b).len(),
{
    bytes::Buf::remaining(b)
}

/// Relies on `BufMut::put_slice` for `bytes::BytesMut`: appends all of
/// `buf`, growing the container; it never fails.
#[verifier::external_body]
fn bytes_mut_put(b: &mut bytes::BytesMut, buf: &[u8])
    ensures
        bytes_mut_view(*final(b)) == bytes_mut_view(*old(b)) + buf@,
{
    bytes::BufMut::put_slice(b, buf);
}

/// Relies on `Bytes::as_ref` and `<[u8]>::to_vec`: a copy of exactly
/// the bytes held.
#[verifier::external_body]
fn bytes_to_vec(b: &bytes::Bytes) -> (v: Vec<u8>)
    ensures
        v@ == bytes_view(*b),
{
    b.as_ref().to_vec()
}

impl Buffer for bytes::Bytes {
    open spec fn readable(&self) -> Seq<u8> {
        bytes_view(*self)
    }

    fn try_copy_to_slice(&mut self, dst: &mut Vec<u8>) -> (r: Result<(), Error>) {
        bytes_copy_to(self, dst)
    }

    fn skip(&mut self, n: usize) -> (r: Result<(), Error>) {
        bytes_skip(self, n)
    }

    fn remaining(&self) -> (r: usize) {
        bytes_remaining(self)
    }
}

impl BufferMut for bytes::BytesMut {
    open spec fn written(&self) -> Seq<u8> {
        bytes_mut_view(*self)
    }

    fn extend_from_slice(&mut self, buf: &[u8]) {
        bytes_mut_put(self, buf);
    }
}

impl<E: Endian> Instruct<E> for bytes::Bytes {
    /// A `Bytes` value writes its raw contents, unchanged by byte order.
    open spec fn spec_write(&self) -> Seq<u8> {
        bytes_view(*self)
    }

    fn write_to_buffer<B: BufferMut>(&self, buffer: &mut B) {
        let v = bytes_to_vec(self);
        buffer.extend_from_slice(v.as_slice());
    }
}

} // verus!
