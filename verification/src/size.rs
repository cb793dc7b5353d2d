//! Byte-size reporting for values whose wire size is their own length.

use vstd::prelude::*;

verus! {

/// The number of bytes a value occupies on the wire.
pub trait ByteSize {
    /// The wire size, in bytes.
    spec fn spec_byte_size(&self) -> nat;

    /// The wire size, as a value.
    fn byte_size(&self) -> (r: usize)
        ensures
            r == self.spec_byte_size(),
    ;
}

impl ByteSize for Vec<u8> {
    open spec fn spec_byte_size(&self) -> nat {
        self@.len()
    }

    fn byte_size(&self) -> (r: usize) {
        self.len()
    }
}

} // verus!
