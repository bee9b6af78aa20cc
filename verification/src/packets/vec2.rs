use vstd::prelude::*;
use crate::error::Error;
use crate::serialization::{Deserializable, Serializable, SliceCursor};

verus! {

/// A point or a velocity in the plane, as it travels: each coordinate is a
/// single-precision float, held here as the 32 bits that stand for it. `x`
/// is written first.
#[derive(Debug, Clone, Copy, PartialEq, Eq)]
pub struct Vec2 {
    pub x: u32,
    pub y: u32,
}

impl Vec2 {
    /// The origin: both coordinates are the bits of `0.0`.
    pub fn new() -> (origin: Self)
        ensures
            origin == (Vec2 { x: 0, y: 0 }),
    {
        Vec2 { x: 0, y: 0 }
    }

    /// Where each coordinate lies in the eight bytes.
    pub proof fn lemma_wire_layout(&self)
        ensures
            self.wire().len() == 8,
            self.x.wire() == self.wire().subrange(0, 4),
            self.y.wire() == self.wire().subrange(4, 8),
    {
        self.x.lemma_wire_width();
        self.y.lemma_wire_width();
        assert(self.x.wire() =~= self.wire().subrange(0, 4));
        assert(self.y.wire() =~= self.wire().subrange(4, 8));
    }
}

impl Serializable for Vec2 {
    open spec fn width() -> nat {
        8
    }

    open spec fn wire(&self) -> Seq<u8> {
        self.x.wire() + self.y.wire()
    }

    proof fn lemma_wire_width(&self) {
        self.lemma_wire_layout();
    }

    proof fn lemma_wire_injective(&self, other: &Self) {
        self.lemma_wire_layout();
        other.lemma_wire_layout();
        self.x.lemma_wire_injective(&other.x);
        self.y.lemma_wire_injective(&other.y);
    }

    fn fits_in(room: usize) -> (fits: bool) {
        room >= 8
    }

    fn serialize(&self, cursor: &mut SliceCursor) -> (r: Result<(), Error>) {
        proof {
            self.lemma_wire_layout();
        }
        if !Self::fits_in(cursor.remaining()) {
            return Err(Error::BufferOverflow);
        }
        cursor.write(&self.x)?;
        cursor.write(&self.y)?;
        assert(cursor@.bytes =~= old(cursor)@.wrote(self.wire()).bytes);
        Ok(())
    }
}

impl Deserializable for Vec2 {
    fn deserialize(cursor: &mut SliceCursor) -> (r: Result<Self, Error>) {
        if !Self::fits_in(cursor.remaining()) {
            return Err(Error::TruncatedInput);
        }
        let value = Self { x: cursor.read()?, y: cursor.read()? };
        proof {
            value.lemma_wire_layout();
            assert(value.wire() =~= old(cursor)@.ahead().take(8));
        }
        Ok(value)
    }
}

} // verus!
