//! The failures an encode or decode operation can report.

use vstd::prelude::*;

verus! {

/// Why a single encode or decode operation was abandoned.
///
/// Every failure is final for the operation that reports it: nothing is
/// retried, and no value is ever substituted for the one that could not be
/// produced.
#[derive(Debug, Clone, Copy, PartialEq, Eq, Structural)]
pub enum Error {
    /// A write needs more bytes than the buffer has left.
    BufferOverflow,
    /// A read asks for more bytes than the input has left.
    TruncatedInput,
    /// A length does not fit the field that has to carry it: an envelope
    /// longer than 65535 bytes, or a string longer than 255 bytes.
    LengthOverflow,
    /// The tag names no packet kind of the protocol.
    UnknownTag(u8),
    /// The bytes of a string field are not UTF-8.
    InvalidUtf8,
}

} // verus!
