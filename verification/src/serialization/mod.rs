//! Values with a fixed wire image, and the cursor they are written to and
//! read from.

use vstd::prelude::*;
use crate::error::Error;

pub mod arrays;
pub mod cursor;
pub mod integers;

pub use cursor::{CursorView, SliceCursor};

verus! {

/// A value that is written as a run of bytes whose length its type decides.
pub trait Serializable: Sized {
    /// The number of bytes every value of the type is written as.
    spec fn width() -> nat;

    /// The bytes this value is written as.
    spec fn wire(&self) -> Seq<u8>;

    /// Every value takes exactly the width of its type.
    proof fn lemma_wire_width(&self)
        ensures
            self.wire().len() == Self::width(),
    ;

    /// No two values are written as the same bytes.
    proof fn lemma_wire_injective(&self, other: &Self)
        requires
            self.wire() == other.wire(),
        ensures
            *self == *other,
    ;

    /// Whether a value of the type fits into `room` bytes.
    fn fits_in(room: usize) -> (fits: bool)
        ensures
            fits == (Self::width() <= room),
    ;

    /// Writes the value at the cursor's position and moves the cursor past
    /// it. Where the bytes left are too few, nothing is written.
    fn serialize(&self, cursor: &mut SliceCursor) -> (r: Result<(), Error>)
        requires
            old(cursor).wf(),
        ensures
            final(cursor).wf(),
            final(final(cursor).slice)@ == final(old(cursor).slice)@,
            r is Ok <==> self.wire().len() <= old(cursor)@.room(),
            r is Ok ==> final(cursor)@ == old(cursor)@.wrote(self.wire()),
            r matches Err(e) ==> e == Error::BufferOverflow && final(cursor)@ == old(cursor)@,
    ;
}

/// A value that is read back from the bytes it was written as.
pub trait Deserializable: Serializable {
    /// Reads a value at the cursor's position and moves the cursor past it.
    /// The value returned is the one that is written as the bytes read.
    /// Where the bytes left are too few, the cursor stays where it is.
    fn deserialize(cursor: &mut SliceCursor) -> (r: Result<Self, Error>)
        requires
            old(cursor).wf(),
        ensures
            final(cursor).wf(),
            final(final(cursor).slice)@ == final(old(cursor).slice)@,
            r is Ok <==> Self::width() <= old(cursor)@.room(),
            r matches Ok(value) ==> value.wire() == old(cursor)@.ahead().take(
                Self::width() as int,
            ) && final(cursor)@ == old(cursor)@.skipped(Self::width()),
            r matches Err(e) ==> e == Error::TruncatedInput && final(cursor)@ == old(cursor)@,
    ;
}

/// Round trip: a value read from the bytes that `value` was written as,
/// whatever follows them, is `value`, and the read takes exactly the bytes
/// that were written.
pub proof fn lemma_wire_round_trip<T: Serializable>(value: T, back: T, rest: Seq<u8>)
    requires
        back.wire() == (value.wire() + rest).take(T::width() as int),
    ensures
        back == value,
        T::width() == value.wire().len(),
{
    value.lemma_wire_width();
    assert((value.wire() + rest).take(T::width() as int) =~= value.wire());
    back.lemma_wire_injective(&value);
}

} // verus!
