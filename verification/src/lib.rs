//! A binary wire-format codec: typed values are encoded to and decoded from
//! raw byte streams under explicit endianness, bit-packing and length-prefix
//! rules, as used by link-layer packet headers.

use vstd::prelude::*;

pub mod bitfield;
pub mod buffer;
pub mod bytes_buf;
pub mod endian;
pub mod error;
pub mod laws;
pub mod pack;
pub mod schema;
pub mod size;
pub mod unpack;
pub mod utils;

pub use bitfield::{BitBuffer, BitStorage};
pub use buffer::{Buffer, BufferExt, BufferMut, BufferMutExt, ByteReader, DoubleEndedBufferMut};
pub use endian::{BigEndian, Endian, LittleEndian, MapIndex};
pub use error::Error;
pub use pack::Instruct;
pub use size::ByteSize;
pub use unpack::Exstruct;
pub use utils::{u24, Length, Limit};

verus! {

/// Resolves to the byte order of the host's in-memory integer
/// representation; an implementation convenience only, never a third
/// independently observable wire format.
pub type NativeEndian = LittleEndian;

/// The conventional byte order of network protocols.
pub type NetworkEndian = BigEndian;

} // verus!
