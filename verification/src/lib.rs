//! Binary serialization for a length-prefixed, tag-dispatched game protocol.
//!
//! A packet travels as an envelope: a two-byte little-endian length that
//! counts the whole envelope, one tag byte that names the packet kind, and
//! the body. [`serialization`] holds the cursor over a caller's buffer and
//! the codecs of the primitive values; [`packets`] holds the packet kinds,
//! the framing of an envelope and the dispatch from a tag to a kind.

pub mod error;
pub mod layout;
pub mod serialization;
pub mod packets;
