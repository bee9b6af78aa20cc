use vstd::prelude::*;
use crate::error::Error;
use crate::packets::PacketBody;
use crate::serialization::{Serializable, SliceCursor};

verus! {

/// Unlock.
///
/// Direction: Server <-> Client (Sync).
#[derive(Debug, Clone, Copy, PartialEq, Eq)]
pub struct Unlock {
    /// Values: 1 = Chest Unlock, 2 = Door Unlock
    pub kind: u8,
    pub x: i16,
    pub y: i16,
}

impl Unlock {
    /// The length of every body of this kind.
    pub const BODY_LEN: usize = 5;

    /// Where each field lies in the body.
    pub proof fn lemma_body_layout(&self)
        ensures
            self.body().len() == 5,
            self.kind.wire() == self.body().subrange(0, 1),
            self.x.wire() == self.body().subrange(1, 3),
            self.y.wire() == self.body().subrange(3, 5),
    {
        self.kind.lemma_wire_width();
        self.x.lemma_wire_width();
        self.y.lemma_wire_width();
        assert(self.kind.wire() =~= self.body().subrange(0, 1));
        assert(self.x.wire() =~= self.body().subrange(1, 3));
        assert(self.y.wire() =~= self.body().subrange(3, 5));
    }
}

impl View for Unlock {
    type V = Unlock;

    open spec fn view(&self) -> Unlock {
        *self
    }
}

impl PacketBody for Unlock {
    const TAG: u8 = 52;

    open spec fn tag() -> u8 {
        52
    }

    open spec fn encodable(&self) -> bool {
        true
    }

    open spec fn body(&self) -> Seq<u8> {
        self.kind.wire() + self.x.wire() + self.y.wire()
    }

    open spec fn body_span(input: Seq<u8>) -> Result<nat, Error> {
        if input.len() >= Unlock::BODY_LEN {
            Ok(Unlock::BODY_LEN as nat)
        } else {
            Err(Error::TruncatedInput)
        }
    }

    proof fn lemma_tag() {
    }

    proof fn lemma_body_span(&self) {
        self.lemma_body_layout();
    }

    proof fn lemma_body_injective(&self, other: &Self) {
        self.lemma_body_layout();
        other.lemma_body_layout();
        self.kind.lemma_wire_injective(&other.kind);
        self.x.lemma_wire_injective(&other.x);
        self.y.lemma_wire_injective(&other.y);
    }

    fn write_body(&self, cursor: &mut SliceCursor) -> (r: Result<(), Error>) {
        proof {
            self.lemma_body_layout();
        }
        if cursor.remaining() < Self::BODY_LEN {
            return Err(Error::BufferOverflow);
        }
        cursor.write(&self.kind)?;
        cursor.write(&self.x)?;
        cursor.write(&self.y)?;
        assert(cursor@.bytes =~= old(cursor)@.wrote(self.body()).bytes);
        Ok(())
    }

    fn from_body(cursor: &mut SliceCursor) -> (r: Result<Self, Error>) {
        if cursor.remaining() < Self::BODY_LEN {
            return Err(Error::TruncatedInput);
        }
        let value = Self {
            kind: cursor.read()?,
            x: cursor.read()?,
            y: cursor.read()?,
        };
        proof {
            value.lemma_body_layout();
            assert(value.body() =~= old(cursor)@.ahead().take(5));
        }
        Ok(value)
    }
}

} // verus!
