use vstd::prelude::*;
use crate::error::Error;
use crate::packets::PacketBody;
use crate::serialization::{Serializable, SliceCursor};

verus! {

/// Player NPC Teleport.
///
/// Direction: Server <-> Client (Sync).
///
/// The position is a pair of single-precision floats on the wire; it is
/// carried here as the 32 bits that stand for each.
#[derive(Debug, Clone, Copy, PartialEq, Eq)]
pub struct PlayerNPCTeleport {
    /// BitFlags: 0 = Player Teleport (Neither 1 or 2), 1 = NPC Teleport,
    /// 2 = Player Teleport to Other Player, 4 = GetPositionFromTarget,
    /// 8 = HasExtraInfo
    pub flags: u8,
    pub target_id: i16,
    pub x: i32,
    pub y: i32,
    pub style: u8,
    /// Meaningful only where the HasExtraInfo flag is set; always on the wire.
    pub extrainfo: i32,
}

impl PlayerNPCTeleport {
    /// The length of every body of this kind.
    pub const BODY_LEN: usize = 16;

    /// Where each field lies in the body.
    pub proof fn lemma_body_layout(&self)
        ensures
            self.body().len() == 16,
            self.flags.wire() == self.body().subrange(0, 1),
            self.target_id.wire() == self.body().subrange(1, 3),
            self.x.wire() == self.body().subrange(3, 7),
            self.y.wire() == self.body().subrange(7, 11),
            self.style.wire() == self.body().subrange(11, 12),
            self.extrainfo.wire() == self.body().subrange(12, 16),
    {
        self.flags.lemma_wire_width();
        self.target_id.lemma_wire_width();
        self.x.lemma_wire_width();
        self.y.lemma_wire_width();
        self.style.lemma_wire_width();
        self.extrainfo.lemma_wire_width();
        assert(self.flags.wire() =~= self.body().subrange(0, 1));
        assert(self.target_id.wire() =~= self.body().subrange(1, 3));
        assert(self.x.wire() =~= self.body().subrange(3, 7));
        assert(self.y.wire() =~= self.body().subrange(7, 11));
        assert(self.style.wire() =~= self.body().subrange(11, 12));
        assert(self.extrainfo.wire() =~= self.body().subrange(12, 16));
    }
}

impl View for PlayerNPCTeleport {
    type V = PlayerNPCTeleport;

    open spec fn view(&self) -> PlayerNPCTeleport {
        *self
    }
}

impl PacketBody for PlayerNPCTeleport {
    const TAG: u8 = 65;

    open spec fn tag() -> u8 {
        65
    }

    open spec fn encodable(&self) -> bool {
        true
    }

    open spec fn body(&self) -> Seq<u8> {
        self.flags.wire() + self.target_id.wire() + self.x.wire() + self.y.wire()
            + self.style.wire() + self.extrainfo.wire()
    }

    open spec fn body_span(input: Seq<u8>) -> Result<nat, Error> {
        if input.len() >= PlayerNPCTeleport::BODY_LEN {
            Ok(PlayerNPCTeleport::BODY_LEN as nat)
        } else {
            Err(Error::TruncatedInput)
        }
    }

    proof fn lemma_tag() {
    }

    proof fn lemma_body_span(&self) {
        self.lemma_body_layout();
    }

    proof fn lemma_body_injective(&self, other: &Self) {
        self.lemma_body_layout();
        other.lemma_body_layout();
        self.flags.lemma_wire_injective(&other.flags);
        self.target_id.lemma_wire_injective(&other.target_id);
        self.x.lemma_wire_injective(&other.x);
        self.y.lemma_wire_injective(&other.y);
        self.style.lemma_wire_injective(&other.style);
        self.extrainfo.lemma_wire_injective(&other.extrainfo);
    }

    fn write_body(&self, cursor: &mut SliceCursor) -> (r: Result<(), Error>) {
        proof {
            self.lemma_body_layout();
        }
        if cursor.remaining() < Self::BODY_LEN {
            return Err(Error::BufferOverflow);
        }
        cursor.write(&self.flags)?;
        cursor.write(&self.target_id)?;
        cursor.write(&self.x)?;
        cursor.write(&self.y)?;
        cursor.write(&self.style)?;
        cursor.write(&self.extrainfo)?;
        assert(cursor@.bytes =~= old(cursor)@.wrote(self.body()).bytes);
        Ok(())
    }

    fn from_body(cursor: &mut SliceCursor) -> (r: Result<Self, Error>) {
        if cursor.remaining() < Self::BODY_LEN {
            return Err(Error::TruncatedInput);
        }
        let value = Self {
            flags: cursor.read()?,
            target_id: cursor.read()?,
            x: cursor.read()?,
            y: cursor.read()?,
            style: cursor.read()?,
            extrainfo: cursor.read()?,
        };
        proof {
            value.lemma_body_layout();
            assert(value.body() =~= old(cursor)@.ahead().take(16));
        }
        Ok(value)
    }
}

} // verus!
