//! Encoding values into a byte sink.
//!
//! `Instruct<E>` is implemented by every type that can be written to the
//! wire under byte-order strategy `E`.  `spec_write` is the exact byte
//! sequence a value produces; `write_to_buffer` appends precisely those
//! bytes.  Encoding never fails.

use vstd::prelude::*;

use crate::buffer::BufferMut;
use crate::endian::{
    endian_u128_bytes, endian_u16_bytes, endian_u32_bytes, endian_u64_bytes, Endian,
};

verus! {

/// A type encodable under byte-order strategy `E`.
pub trait Instruct<E: Endian>: Sized {
    /// The exact bytes this value puts on the wire.
    spec fn spec_write(&self) -> Seq<u8>;

    /// Append this value's encoding to `buffer`.
    fn write_to_buffer<B: BufferMut>(&self, buffer: &mut B)
        ensures
            final(buffer).written() =~= old(buffer).written() + self.spec_write(),
    ;
}

impl<E: Endian> Instruct<E> for u8 {
    open spec fn spec_write(&self) -> Seq<u8> {
        seq![*self]
    }

    fn write_to_buffer<B: BufferMut>(&self, buffer: &mut B) {
        let bytes = E::write_u8(*self);
        buffer.extend_from_slice(bytes.as_slice());
    }
}

impl<E: Endian> Instruct<E> for u16 {
    open spec fn spec_write(&self) -> Seq<u8> {
        endian_u16_bytes::<E>(*self)
    }

    fn write_to_buffer<B: BufferMut>(&self, buffer: &mut B) {
        let bytes = E::write_u16(*self);
        buffer.extend_from_slice(bytes.as_slice());
    }
}

impl<E: Endian> Instruct<E> for u32 {
    open spec fn spec_write(&self) -> Seq<u8> {
        endian_u32_bytes::<E>(*self)
    }

    fn write_to_buffer<B: BufferMut>(&self, buffer: &mut B) {
        let bytes = E::write_u32(*self);
        buffer.extend_from_slice(bytes.as_slice());
    }
}

impl<E: Endian> Instruct<E> for u64 {
    open spec fn spec_write(&self) -> Seq<u8> {
        endian_u64_bytes::<E>(*self)
    }

    fn write_to_buffer<B: BufferMut>(&self, buffer: &mut B) {
        let bytes = E::write_u64(*self);
        buffer.extend_from_slice(bytes.as_slice());
    }
}

impl<E: Endian> Instruct<E> for u128 {
    open spec fn spec_write(&self) -> Seq<u8> {
        endian_u128_bytes::<E>(*self)
    }

    fn write_to_buffer<B: BufferMut>(&self, buffer: &mut B) {
        let bytes = E::write_u128(*self);
        buffer.extend_from_slice(bytes.as_slice());
    }
}

impl<E: Endian> Instruct<E> for i8 {
    open spec fn spec_write(&self) -> Seq<u8> {
        seq![*self as u8]
    }

    fn write_to_buffer<B: BufferMut>(&self, buffer: &mut B) {
        let v = *self as u8;
        <u8 as Instruct<E>>::write_to_buffer(&v, buffer);
    }
}

impl<E: Endian> Instruct<E> for i16 {
    open spec fn spec_write(&self) -> Seq<u8> {
        endian_u16_bytes::<E>(*self as u16)
    }

    fn write_to_buffer<B: BufferMut>(&self, buffer: &mut B) {
        let v = *self as u16;
        <u16 as Instruct<E>>::write_to_buffer(&v, buffer);
    }
}

impl<E: Endian> Instruct<E> for i32 {
    open spec fn spec_write(&self) -> Seq<u8> {
        endian_u32_bytes::<E>(*self as u32)
    }

    fn write_to_buffer<B: BufferMut>(&self, buffer: &mut B) {
        let v = *self as u32;
        <u32 as Instruct<E>>::write_to_buffer(&v, buffer);
    }
}

impl<E: Endian> Instruct<E> for i64 {
    open spec fn spec_write(&self) -> Seq<u8> {
        endian_u64_bytes::<E>(*self as u64)
    }

    fn write_to_buffer<B: BufferMut>(&self, buffer: &mut B) {
        let v = *self as u64;
        <u64 as Instruct<E>>::write_to_buffer(&v, buffer);
    }
}

impl<E: Endian> Instruct<E> for i128 {
    open spec fn spec_write(&self) -> Seq<u8> {
        endian_u128_bytes::<E>(*self as u128)
    }

    fn write_to_buffer<B: BufferMut>(&self, buffer: &mut B) {
        let v = *self as u128;
        <u128 as Instruct<E>>::write_to_buffer(&v, buffer);
    }
}

impl<E: Endian> Instruct<E> for bool {
    open spec fn spec_write(&self) -> Seq<u8> {
        seq![if *self { 1u8 } else { 0u8 }]
    }

    fn write_to_buffer<B: BufferMut>(&self, buffer: &mut B) {
        let v: u8 = if *self { 1 } else { 0 };
        <u8 as Instruct<E>>::write_to_buffer(&v, buffer);
    }
}

impl<E: Endian> Instruct<E> for () {
    open spec fn spec_write(&self) -> Seq<u8> {
        Seq::empty()
    }

    fn write_to_buffer<B: BufferMut>(&self, _buffer: &mut B) {
    }
}

/// The concatenation of the encodings of `items`, in order.
pub open spec fn concat_writes<E: Endian, T: Instruct<E>>(items: Seq<T>) -> Seq<u8>
    decreases items.len(),
{
    if items.len() == 0 {
        Seq::empty()
    } else {
        items[0].spec_write() + concat_writes::<E, T>(items.skip(1))
    }
}

/// Extending a sequence of items by one appends that item's encoding.
pub proof fn lemma_concat_writes_snoc<E: Endian, T: Instruct<E>>(items: Seq<T>, i: int)
    requires
        0 <= i < items.len(),
    ensures
        concat_writes::<E, T>(items.take(i + 1)) =~= concat_writes::<E, T>(items.take(i))
            + items[i].spec_write(),
    decreases i,
{
    if i == 0 {
        assert(items.take(1).skip(1) =~= Seq::<T>::empty());
        assert(items.take(0) =~= Seq::<T>::empty());
    } else {
        lemma_concat_writes_snoc::<E, T>(items.skip(1), i - 1);
        assert(items.take(i + 1).skip(1) =~= items.skip(1).take(i));
        assert(items.take(i).skip(1) =~= items.skip(1).take(i - 1));
    }
}

impl<E: Endian, T: Instruct<E>> Instruct<E> for Vec<T> {
    open spec fn spec_write(&self) -> Seq<u8> {
        concat_writes::<E, T>(self@)
    }

    fn write_to_buffer<B: BufferMut>(&self, buffer: &mut B) {
        let n = self.len();
        let mut i: usize = 0;
        while i < n
            invariant
                i <= n,
                n == self@.len(),
                buffer.written() =~= old(buffer).written() + concat_writes::<E, T>(
                    self@.take(i as int),
                ),
            decreases n - i,
        {
            self[i].write_to_buffer(buffer);
            proof {
                lemma_concat_writes_snoc::<E, T>(self@, i as int);
            }
            i += 1;
        }
        proof {
            assert(self@.take(n as int) =~= self@);
        }
    }
}

impl<E, T1, T2> Instruct<E> for (T1, T2) where
    E: Endian,
    T1: Instruct<E>,
    T2: Instruct<E>,
 {
    open spec fn spec_write(&self) -> Seq<u8> {
        self.0.spec_write() + self.1.spec_write()
    }

    fn write_to_buffer<B: BufferMut>(&self, buffer: &mut B) {
        self.0.write_to_buffer(buffer);
        self.1.write_to_buffer(buffer);
    }
}

impl<E, T1, T2, T3> Instruct<E> for (T1, T2, T3) where
    E: Endian,
    T1: Instruct<E>,
    T2: Instruct<E>,
    T3: Instruct<E>,
 {
    open spec fn spec_write(&self) -> Seq<u8> {
        self.0.spec_write() + self.1.spec_write() + self.2.spec_write()
    }

    fn write_to_buffer<B: BufferMut>(&self, buffer: &mut B) {
        self.0.write_to_buffer(buffer);
        self.1.write_to_buffer(buffer);
        self.2.write_to_buffer(buffer);
    }
}

impl<E, T1, T2, T3, T4> Instruct<E> for (T1, T2, T3, T4) where
    E: Endian,
    T1: Instruct<E>,
    T2: Instruct<E>,
    T3: Instruct<E>,
    T4: Instruct<E>,
 {
    open spec fn spec_write(&self) -> Seq<u8> {
        self.0.spec_write() + self.1.spec_write() + self.2.spec_write() + self.3.spec_write()
    }

    fn write_to_buffer<B: BufferMut>(&self, buffer: &mut B) {
        self.0.write_to_buffer(buffer);
        self.1.write_to_buffer(buffer);
        self.2.write_to_buffer(buffer);
        self.3.write_to_buffer(buffer);
    }
}

} // verus!
