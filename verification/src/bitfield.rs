//! Bit-level sub-buffers.
//!
//! A `BitStorage` register is a fixed-width unsigned integer shared by
//! several logically independent narrow fields; `extract` reads the bits
//! of a range right-justified into a big-endian byte window, and `insert`
//! ORs a value's bits into a range.  `BitBuffer` wraps a register plus a
//! currently selected bit range and acts as a tiny buffer of its own:
//! reads yield the extracted window bytes, writes insert into the window.
//!
//! Bit positions count from the least-significant bit and ranges are
//! half-open; all register semantics are stated on the register's value
//! embedded into the low bits of a `u128`.

use vstd::prelude::*;

use crate::buffer::{Buffer, BufferMut};
use crate::endian::Endian;
use crate::error::Error;
use crate::pack::Instruct;
use crate::unpack::Exstruct;

verus! {

/// The mask selecting the low `w` bits of a `u128`.
pub open spec fn window_mask(w: u32) -> u128 {
    if w >= 128 {
        0xffff_ffff_ffff_ffff_ffff_ffff_ffff_ffffu128
    } else {
        ((1u128 << w) - 1) as u128
    }
}

/// The value of a big-endian byte window, folded into a `u128`.
pub open spec fn be_window_val(b: Seq<u8>) -> u128
    recommends
        b.len() <= 16,
    decreases b.len(),
{
    if b.len() == 0 {
        0
    } else {
        (be_window_val(b.drop_last()) << 8) | (b.last() as u128)
    }
}

/// The mask selecting the low `w` bits, as a value.
pub fn mask_of(w: u32) -> (r: u128)
    ensures
        r == window_mask(w),
{
    if w >= 128 {
        0xffff_ffff_ffff_ffff_ffff_ffff_ffff_ffffu128
    } else {
        proof {
            assert(w < 128 ==> 1u128 << w >= 1) by (bit_vector);
        }
        (1u128 << w) - 1
    }
}

/// The value of a big-endian byte window.
pub fn be_value_of(buf: &[u8]) -> (r: u128)
    requires
        buf@.len() <= 16,
    ensures
        r == be_window_val(buf@),
{
    let n = buf.len();
    let mut acc: u128 = 0;
    let mut i: usize = 0;
    while i < n
        invariant
            i <= n,
            n == buf@.len(),
            acc == be_window_val(buf@.take(i as int)),
        decreases n - i,
    {
        acc = (acc << 8) | (buf[i] as u128);
        proof {
            assert(buf@.take(i + 1).drop_last() =~= buf@.take(i as int));
            assert(buf@.take(i + 1).last() == buf@[i as int]);
        }
        i += 1;
    }
    proof {
        assert(buf@.take(n as int) =~= buf@);
    }
    acc
}

/// The low `8 * n` bits of `v` as a big-endian window of `n` bytes.
pub fn be_window_bytes(v: u128, n: usize) -> (r: Vec<u8>)
    requires
        n <= 16,
    ensures
        r@.len() == n,
        be_window_val(r@) == v & window_mask((8 * n) as u32),
{
    let mut r: Vec<u8> = Vec::new();
    let mut j: usize = 0;
    proof {
        let nn = n as u32;
        assert(nn <= 16 ==> (v >> mul8(nn)) & window_mask(0) == 0) by (bit_vector);
    }
    while j < n
        invariant
            j <= n,
            n <= 16,
            r@.len() == j,
            be_window_val(r@) == (v >> mul8((n - j) as u32)) & window_mask(mul8(j as u32)),
        decreases n - j,
    {
        let shift: u32 = 8 * ((n - 1 - j) as u32);
        let byte = ((v >> shift) & 0xff) as u8;
        let ghost prev = r@;
        r.push(byte);
        proof {
            assert(r@.drop_last() =~= prev);
            assert(r@.last() == byte);
            assert(((v >> shift) & 0xff) as u8 as u128 == (v >> shift) & 0xff) by (bit_vector);
            let jj = j as u32;
            let nn = n as u32;
            assert((jj < nn && nn <= 16) ==> ((((v >> mul8((nn - jj) as u32)) & window_mask(
                mul8(jj),
            )) << 8) | ((v >> mul8((nn - 1 - jj) as u32)) & 0xff)) == ((v >> mul8(
                (nn - (jj + 1)) as u32,
            )) & window_mask(mul8((jj + 1) as u32)))) by (bit_vector);
            assert(shift == mul8((nn - 1 - jj) as u32));
        }
        j += 1;
    }
    proof {
        let nn = n as u32;
        assert(nn <= 16 ==> (v >> mul8((nn - nn) as u32)) & window_mask(mul8(nn)) == v
            & window_mask(mul8(nn))) by (bit_vector);
    }
    r
}

/// Eight bits to the byte.
pub open spec fn mul8(w: u32) -> u32 {
    (8 * w) as u32
}

/// A window value fits in its own width.
pub proof fn lemma_be_window_val_range(b: Seq<u8>)
    requires
        b.len() <= 16,
    ensures
        be_window_val(b) & window_mask(mul8(b.len() as u32)) == be_window_val(b),
    decreases b.len(),
{
    if b.len() == 0 {
        assert(0u128 & window_mask(0) == 0) by (bit_vector);
    } else {
        lemma_be_window_val_range(b.drop_last());
        let x = be_window_val(b.drop_last());
        let y = b.last() as u128;
        let k = (b.len() - 1) as u32;
        assert((k <= 15 && x & window_mask(mul8(k)) == x && y < 256) ==> ((x << 8) | y)
            & window_mask(mul8((k + 1) as u32)) == ((x << 8) | y)) by (bit_vector);
    }
}

/// The last `n` bytes of a window hold the low `8 * n` bits of its value.
pub proof fn lemma_be_window_val_suffix(b: Seq<u8>, n: int)
    requires
        0 <= n <= b.len() <= 16,
    ensures
        be_window_val(b.skip(b.len() - n)) == be_window_val(b) & window_mask(mul8(n as u32)),
    decreases b.len(),
{
    if n == b.len() {
        assert(b.skip(0) =~= b);
        lemma_be_window_val_range(b);
    } else if n == 0 {
        assert(b.skip(b.len() - 0) =~= Seq::<u8>::empty());
        let x = be_window_val(b);
        assert(0u128 == x & window_mask(0)) by (bit_vector);
    } else {
        let suffix = b.skip(b.len() - n);
        lemma_be_window_val_suffix(b.drop_last(), n - 1);
        assert(suffix.drop_last() =~= b.drop_last().skip(b.len() - 1 - (n - 1)));
        assert(suffix.last() == b.last());
        let x = be_window_val(b.drop_last());
        let y = b.last() as u128;
        let k = n as u32;
        assert((1 <= k && k <= 15 && y < 256) ==> (((x & window_mask(mul8((k - 1) as u32))) << 8)
            | y) == (((x << 8) | y) & window_mask(mul8(k)))) by (bit_vector);
    }
}

/// Masking to a wider window after masking to a narrower one changes
/// nothing.
pub proof fn lemma_mask_absorb(x: u128, s: u32, w: u32, bits: u32)
    by (bit_vector)
    requires
        w <= bits,
        bits <= 128,
    ensures
        ((x >> s) & window_mask(w)) & window_mask(bits) == (x >> s) & window_mask(w),
{
}

/// Masking to the register width before masking to a window changes
/// nothing.
pub proof fn lemma_mask_mask(x: u128, w: u32, bits: u32)
    by (bit_vector)
    requires
        w <= bits,
        bits <= 128,
    ensures
        (x & window_mask(bits)) & window_mask(w) == x & window_mask(w),
{
}

/// A window value shifted into a range that ends within the register
/// width is not truncated by the register width.
pub proof fn lemma_insert_fits(v: u128, s: u32, w: u32, bits: u32)
    by (bit_vector)
    requires
        s + w <= bits,
        bits <= 128,
    ensures
        ((v & window_mask(w)) << s) & window_mask(bits) == (v & window_mask(w)) << s,
{
}

/// A fixed-width unsigned integer register usable as shared storage for
/// several narrow bitfields.
///
/// Semantics are stated on `spec_val`, the register's value embedded in
/// the low `spec_bits()` bits of a `u128`: `extract` reads a bit range
/// right-justified into a full-width big-endian byte window, `insert`
/// ORs a window's value into a bit range.  Because `insert` is additive,
/// callers must keep the ranges of one register disjoint, or later
/// inserts pick up stale bits.
pub trait BitStorage: Sized + Copy {
    /// The register width in bits.
    spec fn spec_bits() -> u32;

    /// The register value, in the low bits of a `u128`.
    spec fn spec_val(&self) -> u128;

    /// The width is a whole number of bytes within a `u128`, and the
    /// value fits the width.
    proof fn lemma_wf(&self)
        ensures
            8 <= Self::spec_bits() <= 128,
            Self::spec_bits() % 8 == 0,
            self.spec_val() & window_mask(Self::spec_bits()) == self.spec_val(),
    ;

    /// The register width in bits, as a value.
    fn bits() -> (r: u32)
        ensures
            r == Self::spec_bits(),
    ;

    /// The all-zero register.
    fn zeroed() -> (r: Self)
        ensures
            r.spec_val() == 0,
    ;

    /// The bits `[start, end)`, right-justified in a big-endian byte
    /// window of the register's full width.
    fn extract(&self, start: u32, end: u32) -> (r: Vec<u8>)
        requires
            start < end,
            end <= Self::spec_bits(),
        ensures
            8 * r@.len() == Self::spec_bits(),
            be_window_val(r@) == (self.spec_val() >> start) & window_mask((end - start) as u32),
    ;

    /// OR the low `end - start` bits of the window's value into the bits
    /// `[start, end)` of the register.
    fn insert(&mut self, start: u32, end: u32, value: &[u8])
        requires
            start < end,
            end <= Self::spec_bits(),
            8 * value@.len() == Self::spec_bits(),
        ensures
            final(self).spec_val() == old(self).spec_val() | ((be_window_val(value@)
                & window_mask((end - start) as u32)) << start),
    ;
}

impl BitStorage for u8 {
    open spec fn spec_bits() -> u32 {
        8
    }

    open spec fn spec_val(&self) -> u128 {
        *self as u128
    }

    proof fn lemma_wf(&self) {
        let x = *self;
        assert((x as u128) & window_mask(8) == x as u128) by (bit_vector);
    }

    fn bits() -> u32 {
        8
    }

    fn zeroed() -> Self {
        0
    }

    fn extract(&self, start: u32, end: u32) -> (r: Vec<u8>) {
        let w = end - start;
        let masked = ((*self as u128) >> start) & mask_of(w);
        let r = be_window_bytes(masked, 1);
        proof {
            lemma_mask_absorb(*self as u128, start, w, 8);
        }
        r
    }

    fn insert(&mut self, start: u32, end: u32, value: &[u8]) {
        let w = end - start;
        let v = be_value_of(value);
        let add = (v & mask_of(w)) << start;
        let ghost x = *self as u128;
        let combined = (*self as u128) | add;
        proof {
            lemma_insert_fits(v, start, w, 8);
            assert(((x | add) & 0xff) as u8 as u128 == x | add) by (bit_vector)
                requires
                    x < 0x100,
                    add & window_mask(8) == add,
            ;
        }
        *self = (combined & 0xff) as u8;
    }
}

impl BitStorage for u16 {
    open spec fn spec_bits() -> u32 {
        16
    }

    open spec fn spec_val(&self) -> u128 {
        *self as u128
    }

    proof fn lemma_wf(&self) {
        let x = *self;
        assert((x as u128) & window_mask(16) == x as u128) by (bit_vector);
    }

    fn bits() -> u32 {
        16
    }

    fn zeroed() -> Self {
        0
    }

    fn extract(&self, start: u32, end: u32) -> (r: Vec<u8>) {
        let w = end - start;
        let masked = ((*self as u128) >> start) & mask_of(w);
        let r = be_window_bytes(masked, 2);
        proof {
            lemma_mask_absorb(*self as u128, start, w, 16);
        }
        r
    }

    fn insert(&mut self, start: u32, end: u32, value: &[u8]) {
        let w = end - start;
        let v = be_value_of(value);
        let add = (v & mask_of(w)) << start;
        let ghost x = *self as u128;
        let combined = (*self as u128) | add;
        proof {
            lemma_insert_fits(v, start, w, 16);
            assert(((x | add) & 0xffff) as u16 as u128 == x | add) by (bit_vector)
                requires
                    x < 0x1_0000,
                    add & window_mask(16) == add,
            ;
        }
        *self = (combined & 0xffff) as u16;
    }
}

impl BitStorage for u32 {
    open spec fn spec_bits() -> u32 {
        32
    }

    open spec fn spec_val(&self) -> u128 {
        *self as u128
    }

    proof fn lemma_wf(&self) {
        let x = *self;
        assert((x as u128) & window_mask(32) == x as u128) by (bit_vector);
    }

    fn bits() -> u32 {
        32
    }

    fn zeroed() -> Self {
        0
    }

    fn extract(&self, start: u32, end: u32) -> (r: Vec<u8>) {
        let w = end - start;
        let masked = ((*self as u128) >> start) & mask_of(w);
        let r = be_window_bytes(masked, 4);
        proof {
            lemma_mask_absorb(*self as u128, start, w, 32);
        }
        r
    }

    fn insert(&mut self, start: u32, end: u32, value: &[u8]) {
        let w = end - start;
        let v = be_value_of(value);
        let add = (v & mask_of(w)) << start;
        let ghost x = *self as u128;
        let combined = (*self as u128) | add;
        proof {
            lemma_insert_fits(v, start, w, 32);
            assert(((x | add) & 0xffff_ffff) as u32 as u128 == x | add) by (bit_vector)
                requires
                    x < 0x1_0000_0000,
                    add & window_mask(32) == add,
            ;
        }
        *self = (combined & 0xffff_ffff) as u32;
    }
}

impl BitStorage for u64 {
    open spec fn spec_bits() -> u32 {
        64
    }

    open spec fn spec_val(&self) -> u128 {
        *self as u128
    }

    proof fn lemma_wf(&self) {
        let x = *self;
        assert((x as u128) & window_mask(64) == x as u128) by (bit_vector);
    }

    fn bits() -> u32 {
        64
    }

    fn zeroed() -> Self {
        0
    }

    fn extract(&self, start: u32, end: u32) -> (r: Vec<u8>) {
        let w = end - start;
        let masked = ((*self as u128) >> start) & mask_of(w);
        let r = be_window_bytes(masked, 8);
        proof {
            lemma_mask_absorb(*self as u128, start, w, 64);
        }
        r
    }

    fn insert(&mut self, start: u32, end: u32, value: &[u8]) {
        let w = end - start;
        let v = be_value_of(value);
        let add = (v & mask_of(w)) << start;
        let ghost x = *self as u128;
        let combined = (*self as u128) | add;
        proof {
            lemma_insert_fits(v, start, w, 64);
            assert(((x | add) & 0xffff_ffff_ffff_ffff) as u64 as u128 == x | add) by (bit_vector)
                requires
                    x < 0x1_0000_0000_0000_0000,
                    add & window_mask(64) == add,
            ;
        }
        *self = (combined & 0xffff_ffff_ffff_ffff) as u64;
    }
}

impl BitStorage for u128 {
    open spec fn spec_bits() -> u32 {
        128
    }

    open spec fn spec_val(&self) -> u128 {
        *self
    }

    proof fn lemma_wf(&self) {
        let x = *self;
        assert(x & window_mask(128) == x) by (bit_vector);
    }

    fn bits() -> u32 {
        128
    }

    fn zeroed() -> Self {
        0
    }

    fn extract(&self, start: u32, end: u32) -> (r: Vec<u8>) {
        let w = end - start;
        let masked = (*self >> start) & mask_of(w);
        let r = be_window_bytes(masked, 16);
        proof {
            lemma_mask_absorb(*self, start, w, 128);
        }
        r
    }

    fn insert(&mut self, start: u32, end: u32, value: &[u8]) {
        let w = end - start;
        let v = be_value_of(value);
        let add = (v & mask_of(w)) << start;
        *self = *self | add;
    }
}

/// A register plus a currently selected bit range, behaving as a tiny
/// buffer of its own: reads yield the window's bytes, writes insert into
/// the window.
///
/// On the decode path it is built by reading the register's raw bytes
/// from the real buffer, remembering that buffer's remaining count; on
/// the encode path it starts from a zero register and the assembled
/// register is flushed to the real buffer once per bitfield group.
pub struct BitBuffer<I: BitStorage> {
    storage: I,
    start: u32,
    end: u32,
    remaining: usize,
}

impl<I: BitStorage> BitBuffer<I> {
    /// The wrapped register.
    pub closed spec fn storage(&self) -> I {
        self.storage
    }

    /// The first bit of the selected window.
    pub closed spec fn start_bit(&self) -> u32 {
        self.start
    }

    /// One past the last bit of the selected window.
    pub closed spec fn end_bit(&self) -> u32 {
        self.end
    }

    /// The remaining-byte count carried over from the source buffer.
    pub closed spec fn spec_remaining(&self) -> usize {
        self.remaining
    }

    /// The register's value.
    pub open spec fn val(&self) -> u128 {
        self.storage().spec_val()
    }

    /// The selected window is a valid bit range of the register.
    pub open spec fn range_valid(&self) -> bool {
        self.start_bit() < self.end_bit() && self.end_bit() <= I::spec_bits()
    }

    /// Begin a bitfield group on the decode path: read the register's
    /// raw bytes from `source` under strategy `E` and remember the
    /// source's remaining count.
    pub fn new<E: Endian, B: Buffer>(source: &mut B) -> (r: Result<Self, Error>) where
        I: Exstruct<E>,

        ensures
            match I::spec_read(old(source).readable()) {
                Ok(v_n) => match r {
                    Ok(bb) => bb.storage() == v_n.0 && bb.start_bit() == 0 && bb.end_bit() == 0
                        && bb.spec_remaining() == old(source).readable().skip(v_n.1).len()
                        && final(source).readable() =~= old(source).readable().skip(v_n.1),
                    Err(_) => false,
                },
                Err(e) => r is Err && r->Err_0 == e,
            },
    {
        let storage = match I::read_from_buffer(source) {
            Ok(v) => v,
            Err(e) => {
                return Err(e);
            },
        };
        let remaining = source.remaining();
        Ok(BitBuffer { storage, start: 0, end: 0, remaining })
    }

    /// Begin a bitfield group on the encode path: a zero register with
    /// no window selected.
    pub fn empty() -> (r: Self)
        ensures
            r.val() == 0,
            r.start_bit() == 0,
            r.end_bit() == 0,
            r.spec_remaining() == 0,
    {
        BitBuffer { storage: I::zeroed(), start: 0, end: 0, remaining: 0 }
    }

    /// Select the bit range of the next logical field.
    pub fn set_range(&mut self, start: u32, end: u32)
        ensures
            final(self).storage() == old(self).storage(),
            final(self).start_bit() == start,
            final(self).end_bit() == end,
            final(self).spec_remaining() == old(self).spec_remaining(),
    {
        self.start = start;
        self.end = end;
    }

    /// Read the last `dst.len()` bytes of the selected window: the
    /// window's bits right-justified.  Reading does not consume; the
    /// window can be read again.
    pub fn try_copy_to_slice(&mut self, dst: &mut Vec<u8>) -> (r: Result<(), Error>)
        requires
            old(self).range_valid(),
        ensures
            *final(self) == *old(self),
            final(dst)@.len() == old(dst)@.len(),
            8 * old(dst)@.len() <= I::spec_bits() ==> r is Ok && be_window_val(final(dst)@) == ((
            old(self).val() >> old(self).start_bit()) & window_mask(
                (old(self).end_bit() - old(self).start_bit()) as u32,
            )) & window_mask(mul8(old(dst)@.len() as u32)),
            8 * old(dst)@.len() > I::spec_bits() ==> r == Err::<(), Error>(Error::TooShort)
                && final(dst)@ == old(dst)@,
    {
        proof {
            self.storage.lemma_wf();
        }
        let window = self.storage.extract(self.start, self.end);
        let n = dst.len();
        if window.len() < n {
            return Err(Error::TooShort);
        }
        let lead = window.len() - n;
        let mut out: Vec<u8> = Vec::new();
        let mut k: usize = 0;
        while k < n
            invariant
                k <= n,
                lead + n == window@.len(),
                lead + n <= usize::MAX,
                out@ =~= window@.subrange(lead as int, lead + k),
            decreases n - k,
        {
            out.push(window[lead + k]);
            k += 1;
        }
        proof {
            assert(out@ =~= window@.skip(window@.len() - n));
            lemma_be_window_val_suffix(window@, n as int);
        }
        *dst = out;
        Ok(())
    }

    /// The remaining-byte count carried over from the source buffer at
    /// group start, not the window's size.
    pub fn remaining(&self) -> (r: usize)
        ensures
            r == self.spec_remaining(),
    {
        self.remaining
    }

    /// Insert the big-endian value of `buf`, right-justified, into the
    /// selected window.
    pub fn extend_from_slice(&mut self, buf: &[u8])
        requires
            old(self).range_valid(),
            8 * buf@.len() <= I::spec_bits(),
        ensures
            final(self).start_bit() == old(self).start_bit(),
            final(self).end_bit() == old(self).end_bit(),
            final(self).spec_remaining() == old(self).spec_remaining(),
            final(self).val() == old(self).val() | ((be_window_val(buf@) & window_mask(
                (old(self).end_bit() - old(self).start_bit()) as u32,
            )) << old(self).start_bit()),
    {
        proof {
            self.storage.lemma_wf();
        }
        let nbytes = (I::bits() / 8) as usize;
        let v = be_value_of(buf);
        let window = be_window_bytes(v, nbytes);
        self.storage.insert(self.start, self.end, window.as_slice());
        proof {
            lemma_mask_mask(
                v,
                (old(self).end_bit() - old(self).start_bit()) as u32,
                I::spec_bits(),
            );
        }
    }
}

impl<E: Endian, I: BitStorage + Instruct<E>> Instruct<E> for BitBuffer<I> {
    /// A flushed group writes the register's own encoding under the
    /// outer strategy.
    open spec fn spec_write(&self) -> Seq<u8> {
        self.storage().spec_write()
    }

    fn write_to_buffer<B: BufferMut>(&self, buffer: &mut B) {
        <I as Instruct<E>>::write_to_buffer(&self.storage, buffer);
    }
}

} // verus!
