use vstd::prelude::*;
use crate::error::Error;
use crate::serialization::{Deserializable, Serializable, SliceCursor};

verus! {

/// A colour: red, green and blue, one byte each, written in that order.
#[derive(Debug, Clone, Copy, PartialEq, Eq)]
pub struct RGB {
    pub r: u8,
    pub g: u8,
    pub b: u8,
}

impl RGB {
    /// Black.
    pub fn new() -> (colour: Self)
        ensures
            colour == (RGB { r: 0, g: 0, b: 0 }),
    {
        RGB { r: 0, g: 0, b: 0 }
    }

    /// Where each channel lies in the three bytes.
    pub proof fn lemma_wire_layout(&self)
        ensures
            self.wire().len() == 3,
            self.r.wire() == self.wire().subrange(0, 1),
            self.g.wire() == self.wire().subrange(1, 2),
            self.b.wire() == self.wire().subrange(2, 3),
    {
        self.r.lemma_wire_width();
        self.g.lemma_wire_width();
        self.b.lemma_wire_width();
        assert(self.r.wire() =~= self.wire().subrange(0, 1));
        assert(self.g.wire() =~= self.wire().subrange(1, 2));
        assert(self.b.wire() =~= self.wire().subrange(2, 3));
    }
}

impl Serializable for RGB {
    open spec fn width() -> nat {
        3
    }

    open spec fn wire(&self) -> Seq<u8> {
        self.r.wire() + self.g.wire() + self.b.wire()
    }

    proof fn lemma_wire_width(&self) {
        self.lemma_wire_layout();
    }

    proof fn lemma_wire_injective(&self, other: &Self) {
        self.lemma_wire_layout();
        other.lemma_wire_layout();
        self.r.lemma_wire_injective(&other.r);
        self.g.lemma_wire_injective(&other.g);
        self.b.lemma_wire_injective(&other.b);
    }

    fn fits_in(room: usize) -> (fits: bool) {
        room >= 3
    }

    fn serialize(&self, cursor: &mut SliceCursor) -> (r: Result<(), Error>) {
        proof {
            self.lemma_wire_layout();
        }
        if !Self::fits_in(cursor.remaining()) {
            return Err(Error::BufferOverflow);
        }
        cursor.write(&self.r)?;
        cursor.write(&self.g)?;
        cursor.write(&self.b)?;
        assert(cursor@.bytes =~= old(cursor)@.wrote(self.wire()).bytes);
        Ok(())
    }
}

impl Deserializable for RGB {
    fn deserialize(cursor: &mut SliceCursor) -> (r: Result<Self, Error>) {
        if !Self::fits_in(cursor.remaining()) {
            return Err(Error::TruncatedInput);
        }
        let value = Self {
            r: cursor.read()?,
            g: cursor.read()?,
            b: cursor.read()?,
        };
        proof {
            value.lemma_wire_layout();
            assert(value.wire() =~= old(cursor)@.ahead().take(3));
        }
        Ok(value)
    }
}

} // verus!
