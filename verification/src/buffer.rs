//! Sequential byte buffers.
//!
//! The read side is a cursor over a byte sequence: `try_copy_to_slice`
//! hands out the next bytes and advances, `skip` advances without copying,
//! and `remaining` reports the exact count of unread bytes.  The write
//! side is an append-only sink.  `ByteReader` is the plain in-memory
//! reader; `Vec<u8>` is the plain sink.

use vstd::prelude::*;

use crate::endian::{BigEndian, Endian, LittleEndian};
use crate::error::Error;
use crate::pack::Instruct;
use crate::unpack::Exstruct;

verus! {

/// A read-side buffer: an abstract cursor over a byte sequence.
///
/// `readable()` is the sequence of bytes that sequential reads will
/// produce.  A read of `n` bytes succeeds exactly when `n` bytes remain;
/// it hands out the first `n` bytes of `readable()` and drops them from
/// the front.  A failed read reports `TooShort` and leaves the buffer
/// untouched.
pub trait Buffer: Sized {
    /// The unread bytes, in the order reads will produce them.
    spec fn readable(&self) -> Seq<u8>;

    /// Fill `dst` with the next `dst.len()` bytes, advancing the cursor,
    /// or fail with `TooShort` if fewer bytes remain.
    fn try_copy_to_slice(&mut self, dst: &mut Vec<u8>) -> (r: Result<(), Error>)
        ensures
            final(dst)@.len() == old(dst)@.len(),
            old(dst)@.len() <= old(self).readable().len() ==> r is Ok && final(dst)@
                =~= old(self).readable().take(old(dst)@.len() as int) && final(self).readable()
                =~= old(self).readable().skip(old(dst)@.len() as int),
            old(dst)@.len() > old(self).readable().len() ==> r == Err::<(), Error>(
                Error::TooShort,
            ) && *final(self) == *old(self) && final(dst)@ == old(dst)@,
    ;

    /// Advance the cursor by `n` bytes without copying, or fail with
    /// `TooShort` if fewer bytes remain.
    fn skip(&mut self, n: usize) -> (r: Result<(), Error>)
        ensures
            n <= old(self).readable().len() ==> r is Ok && final(self).readable() =~= old(
                self,
            ).readable().skip(n as int),
            n > old(self).readable().len() ==> r == Err::<(), Error>(Error::TooShort)
                && *final(self) == *old(self),
    ;

    /// The exact count of unread bytes; not an estimate.
    fn remaining(&self) -> (r: usize)
        ensures
            r == self.readable().len(),
    ;

    /// Assert that the buffer was consumed completely: fails with
    /// `TooLong` exactly when unread bytes remain.
    fn finish(&self) -> (r: Result<(), Error>)
        ensures
            r is Ok <==> self.readable().len() == 0,
            r is Err ==> r == Err::<(), Error>(Error::TooLong),
    {
        if self.remaining() == 0 {
            Ok(())
        } else {
            Err(Error::TooLong)
        }
    }
}

/// A write-side buffer: an append-only byte sink.  Appending never fails;
/// capacity is the underlying container's concern.
pub trait BufferMut: Sized {
    /// The bytes produced so far, in order.
    spec fn written(&self) -> Seq<u8>;

    /// Append all of `buf`.
    fn extend_from_slice(&mut self, buf: &[u8])
        ensures
            final(self).written() =~= old(self).written() + buf@,
    ;
}

/// Typed decoding on any read-side buffer.
pub trait BufferExt: Buffer {
    /// Decode one `T` under strategy `E`, advancing past its bytes.
    fn read<T, E>(&mut self) -> (r: Result<T, Error>) where T: Exstruct<E>, E: Endian
        ensures
            match T::spec_read(old(self).readable()) {
                Ok(v_n) => r == Ok::<T, Error>(v_n.0) && final(self).readable() =~= old(
                    self,
                ).readable().skip(v_n.1),
                Err(e) => r == Err::<T, Error>(e) && final(self).readable().len() <= old(
                    self,
                ).readable().len(),
            },
    ;

    /// Decode one `T` in little-endian byte order.
    fn read_le<T>(&mut self) -> (r: Result<T, Error>) where T: Exstruct<LittleEndian>
        ensures
            match T::spec_read(old(self).readable()) {
                Ok(v_n) => r == Ok::<T, Error>(v_n.0) && final(self).readable() =~= old(
                    self,
                ).readable().skip(v_n.1),
                Err(e) => r == Err::<T, Error>(e) && final(self).readable().len() <= old(
                    self,
                ).readable().len(),
            },
    ;

    /// Decode one `T` in big-endian byte order.
    fn read_be<T>(&mut self) -> (r: Result<T, Error>) where T: Exstruct<BigEndian>
        ensures
            match T::spec_read(old(self).readable()) {
                Ok(v_n) => r == Ok::<T, Error>(v_n.0) && final(self).readable() =~= old(
                    self,
                ).readable().skip(v_n.1),
                Err(e) => r == Err::<T, Error>(e) && final(self).readable().len() <= old(
                    self,
                ).readable().len(),
            },
    ;

    /// Decode one `T` in the host's native byte order.
    fn read_ne<T>(&mut self) -> (r: Result<T, Error>) where T: Exstruct<crate::NativeEndian>
        ensures
            match T::spec_read(old(self).readable()) {
                Ok(v_n) => r == Ok::<T, Error>(v_n.0) && final(self).readable() =~= old(
                    self,
                ).readable().skip(v_n.1),
                Err(e) => r == Err::<T, Error>(e) && final(self).readable().len() <= old(
                    self,
                ).readable().len(),
            },
    ;
}

impl<B: Buffer> BufferExt for B {
    fn read<T, E>(&mut self) -> (r: Result<T, Error>) where T: Exstruct<E>, E: Endian {
        T::read_from_buffer(self)
    }

    fn read_le<T>(&mut self) -> (r: Result<T, Error>) where T: Exstruct<LittleEndian> {
        T::read_from_buffer(self)
    }

    fn read_be<T>(&mut self) -> (r: Result<T, Error>) where T: Exstruct<BigEndian> {
        T::read_from_buffer(self)
    }

    fn read_ne<T>(&mut self) -> (r: Result<T, Error>) where T: Exstruct<crate::NativeEndian> {
        T::read_from_buffer(self)
    }
}

/// Typed encoding on any write-side buffer.
pub trait BufferMutExt: BufferMut {
    /// Encode `value` under strategy `E`, appending its bytes.
    fn write<T, E>(&mut self, value: T) where T: Instruct<E>, E: Endian
        ensures
            final(self).written() =~= old(self).written() + value.spec_write(),
    ;

    /// Encode the referenced value under strategy `E`.
    fn write_ref<T, E>(&mut self, value: &T) where T: Instruct<E>, E: Endian
        ensures
            final(self).written() =~= old(self).written() + value.spec_write(),
    ;

    /// Encode `value` in little-endian byte order.
    fn write_le<T>(&mut self, value: T) where T: Instruct<LittleEndian>
        ensures
            final(self).written() =~= old(self).written() + value.spec_write(),
    ;

    /// Encode the referenced value in little-endian byte order.
    fn write_le_ref<T>(&mut self, value: &T) where T: Instruct<LittleEndian>
        ensures
            final(self).written() =~= old(self).written() + value.spec_write(),
    ;

    /// Encode `value` in big-endian byte order.
    fn write_be<T>(&mut self, value: T) where T: Instruct<BigEndian>
        ensures
            final(self).written() =~= old(self).written() + value.spec_write(),
    ;

    /// Encode the referenced value in big-endian byte order.
    fn write_be_ref<T>(&mut self, value: &T) where T: Instruct<BigEndian>
        ensures
            final(self).written() =~= old(self).written() + value.spec_write(),
    ;

    /// Encode `value` in the host's native byte order.
    fn write_ne<T>(&mut self, value: T) where T: Instruct<crate::NativeEndian>
        ensures
            final(self).written() =~= old(self).written() + value.spec_write(),
    ;

    /// Encode the referenced value in the host's native byte order.
    fn write_ne_ref<T>(&mut self, value: &T) where T: Instruct<crate::NativeEndian>
        ensures
            final(self).written() =~= old(self).written() + value.spec_write(),
    ;
}

impl<B: BufferMut> BufferMutExt for B {
    fn write<T, E>(&mut self, value: T) where T: Instruct<E>, E: Endian {
        value.write_to_buffer(self);
    }

    fn write_ref<T, E>(&mut self, value: &T) where T: Instruct<E>, E: Endian {
        value.write_to_buffer(self);
    }

    fn write_le<T>(&mut self, value: T) where T: Instruct<LittleEndian> {
        value.write_to_buffer(self);
    }

    fn write_le_ref<T>(&mut self, value: &T) where T: Instruct<LittleEndian> {
        value.write_to_buffer(self);
    }

    fn write_be<T>(&mut self, value: T) where T: Instruct<BigEndian> {
        value.write_to_buffer(self);
    }

    fn write_be_ref<T>(&mut self, value: &T) where T: Instruct<BigEndian> {
        value.write_to_buffer(self);
    }

    fn write_ne<T>(&mut self, value: T) where T: Instruct<crate::NativeEndian> {
        value.write_to_buffer(self);
    }

    fn write_ne_ref<T>(&mut self, value: &T) where T: Instruct<crate::NativeEndian> {
        value.write_to_buffer(self);
    }
}

/// A write-side buffer that can also place an encoding in front of what
/// was already written.
pub trait DoubleEndedBufferMut: BufferMut {
    /// Encode `value` under strategy `E` and put its bytes before the
    /// current contents.
    fn write_front<T, E>(&mut self, value: T) where T: Instruct<E>, E: Endian
        ensures
            final(self).written() =~= value.spec_write() + old(self).written(),
    ;
}

impl DoubleEndedBufferMut for Vec<u8> {
    fn write_front<T, E>(&mut self, value: T) where T: Instruct<E>, E: Endian {
        let mut front: Vec<u8> = Vec::new();
        value.write_to_buffer(&mut front);
        front.append(self);
        *self = front;
    }
}

/// A reader over an owned byte vector, consuming from the front.
pub struct ByteReader {
    data: Vec<u8>,
    pos: usize,
}

impl ByteReader {
    #[verifier::type_invariant]
    spec fn wf(&self) -> bool {
        self.pos <= self.data@.len()
    }

    /// Start reading `data` from its first byte.
    pub fn new(data: Vec<u8>) -> (r: ByteReader)
        ensures
            r.readable() =~= data@,
    {
        ByteReader { data, pos: 0 }
    }
}

impl Buffer for ByteReader {
    closed spec fn readable(&self) -> Seq<u8> {
        self.data@.skip(self.pos as int)
    }

    fn try_copy_to_slice(&mut self, dst: &mut Vec<u8>) -> (r: Result<(), Error>) {
        proof {
            use_type_invariant(&*self);
        }
        let n = dst.len();
        if self.data.len() - self.pos < n {
            return Err(Error::TooShort);
        }
        let mut out: Vec<u8> = Vec::new();
        let mut i: usize = 0;
        while i < n
            invariant
                i <= n,
                self == old(self),
                self.pos + n <= self.data@.len(),
                self.pos + n <= usize::MAX,
                out@ =~= self.data@.subrange(self.pos as int, self.pos + i),
            decreases n - i,
        {
            out.push(self.data[self.pos + i]);
            i += 1;
        }
        proof {
            assert(out@ =~= old(self).readable().take(n as int));
        }
        self.pos = self.pos + n;
        *dst = out;
        proof {
            assert(self.readable() =~= old(self).readable().skip(n as int));
        }
        Ok(())
    }

    fn skip(&mut self, n: usize) -> (r: Result<(), Error>) {
        proof {
            use_type_invariant(&*self);
        }
        if self.data.len() - self.pos < n {
            return Err(Error::TooShort);
        }
        self.pos = self.pos + n;
        proof {
            assert(self.readable() =~= old(self).readable().skip(n as int));
        }
        Ok(())
    }

    fn remaining(&self) -> (r: usize) {
        proof {
            use_type_invariant(&*self);
        }
        self.data.len() - self.pos
    }
}

impl BufferMut for Vec<u8> {
    open spec fn written(&self) -> Seq<u8> {
        self@
    }

    fn extend_from_slice(&mut self, buf: &[u8]) {
        let n = buf.len();
        let mut i: usize = 0;
        while i < n
            invariant
                i <= n,
                n == buf@.len(),
                self@ =~= old(self)@ + buf@.take(i as int),
            decreases n - i,
        {
            self.push(buf[i]);
            i += 1;
        }
        proof {
            assert(buf@.take(n as int) =~= buf@);
        }
    }
}

/// A vector of `n` bytes, for use as a `try_copy_to_slice` destination.
pub fn byte_vec(n: usize) -> (r: Vec<u8>)
    ensures
        r@.len() == n,
{
    let mut r: Vec<u8> = Vec::new();
    let mut i: usize = 0;
    while i < n
        invariant
            i <= n,
            r@.len() == i,
        decreases n - i,
    {
        r.push(0u8);
        i += 1;
    }
    r
}

} // verus!
