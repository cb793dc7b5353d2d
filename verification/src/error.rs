//! The error values that a decode or encode call can surface.

use vstd::prelude::*;

verus! {

/// The four terminal failures of the codec.
///
/// Every failure propagates immediately to the caller of the decode or
/// encode entry point that raised it; there is no internal retry and no
/// partial decode.
#[derive(Debug, Copy, Clone, Eq, PartialEq, Structural)]
pub enum Error {
    /// The buffer was exhausted before the requested bytes were available.
    TooShort,
    /// Bytes remained after an expected-complete consumption.
    TooLong,
    /// A value failed a domain check: a bad enum tag with no default
    /// variant, or a length that does not fit its wire type.
    InvalidValue,
    /// A decoded length field disagrees with the bytes actually remaining.
    UnexpectedLength,
}

impl Error {
    /// A human-readable rendering of the error kind.
    pub fn message(&self) -> (r: &'static str)
        ensures
            r@ == self.message_spec(),
    {
        match self {
            Error::TooShort => "Packet too short",
            Error::TooLong => "Packet too long",
            Error::InvalidValue => "Invalid value",
            Error::UnexpectedLength => "Unexpected length",
        }
    }

    /// What `message` returns for each kind.
    pub open spec fn message_spec(&self) -> Seq<char> {
        match self {
            Error::TooShort => "Packet too short"@,
            Error::TooLong => "Packet too long"@,
            Error::InvalidValue => "Invalid value"@,
            Error::UnexpectedLength => "Unexpected length"@,
        }
    }
}

} // verus!
