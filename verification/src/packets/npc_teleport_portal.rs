use vstd::prelude::*;
use crate::error::Error;
use crate::packets::PacketBody;
use crate::serialization::{Serializable, SliceCursor};

verus! {

/// NPC Teleport Portal.
///
/// Direction: Server <-> Client.
///
/// The positions and velocities are single-precision floats on the wire;
/// they are carried here as the 32 bits that stand for them.
#[derive(Debug, Clone, Copy, PartialEq, Eq)]
pub struct NPCTeleportPortal {
    pub npc_id: u16,
    pub portal_color_index: i16,
    pub new_position_x: i32,
    pub new_position_y: i32,
    pub velocity_x: i32,
    pub velocity_y: i32,
}

impl NPCTeleportPortal {
    /// The length of every body of this kind.
    pub const BODY_LEN: usize = 20;

    /// Where each field lies in the body.
    pub proof fn lemma_body_layout(&self)
        ensures
            self.body().len() == 20,
            self.npc_id.wire() == self.body().subrange(0, 2),
            self.portal_color_index.wire() == self.body().subrange(2, 4),
            self.new_position_x.wire() == self.body().subrange(4, 8),
            self.new_position_y.wire() == self.body().subrange(8, 12),
            self.velocity_x.wire() == self.body().subrange(12, 16),
            self.velocity_y.wire() == self.body().subrange(16, 20),
    {
        self.npc_id.lemma_wire_width();
        self.portal_color_index.lemma_wire_width();
        self.new_position_x.lemma_wire_width();
        self.new_position_y.lemma_wire_width();
        self.velocity_x.lemma_wire_width();
        self.velocity_y.lemma_wire_width();
        assert(self.npc_id.wire() =~= self.body().subrange(0, 2));
        assert(self.portal_color_index.wire() =~= self.body().subrange(2, 4));
        assert(self.new_position_x.wire() =~= self.body().subrange(4, 8));
        assert(self.new_position_y.wire() =~= self.body().subrange(8, 12));
        assert(self.velocity_x.wire() =~= self.body().subrange(12, 16));
        assert(self.velocity_y.wire() =~= self.body().subrange(16, 20));
    }
}

impl View for NPCTeleportPortal {
    type V = NPCTeleportPortal;

    open spec fn view(&self) -> NPCTeleportPortal {
        *self
    }
}

impl PacketBody for NPCTeleportPortal {
    const TAG: u8 = 100;

    open spec fn tag() -> u8 {
        100
    }

    open spec fn encodable(&self) -> bool {
        true
    }

    open spec fn body(&self) -> Seq<u8> {
        self.npc_id.wire() + self.portal_color_index.wire() + self.new_position_x.wire()
            + self.new_position_y.wire() + self.velocity_x.wire()
            + self.velocity_y.wire()
    }

    open spec fn body_span(input: Seq<u8>) -> Result<nat, Error> {
        if input.len() >= NPCTeleportPortal::BODY_LEN {
            Ok(NPCTeleportPortal::BODY_LEN as nat)
        } else {
            Err(Error::TruncatedInput)
        }
    }

    proof fn lemma_tag() {
    }

    proof fn lemma_body_span(&self) {
        self.lemma_body_layout();
    }

    proof fn lemma_body_injective(&self, other: &Self) {
        self.lemma_body_layout();
        other.lemma_body_layout();
        self.npc_id.lemma_wire_injective(&other.npc_id);
        self.portal_color_index.lemma_wire_injective(&other.portal_color_index);
        self.new_position_x.lemma_wire_injective(&other.new_position_x);
        self.new_position_y.lemma_wire_injective(&other.new_position_y);
        self.velocity_x.lemma_wire_injective(&other.velocity_x);
        self.velocity_y.lemma_wire_injective(&other.velocity_y);
    }

    fn write_body(&self, cursor: &mut SliceCursor) -> (r: Result<(), Error>) {
        proof {
            self.lemma_body_layout();
        }
        if cursor.remaining() < Self::BODY_LEN {
            return Err(Error::BufferOverflow);
        }
        cursor.write(&self.npc_id)?;
        cursor.write(&self.portal_color_index)?;
        cursor.write(&self.new_position_x)?;
        cursor.write(&self.new_position_y)?;
        cursor.write(&self.velocity_x)?;
        cursor.write(&self.velocity_y)?;
        assert(cursor@.bytes =~= old(cursor)@.wrote(self.body()).bytes);
        Ok(())
    }

    fn from_body(cursor: &mut SliceCursor) -> (r: Result<Self, Error>) {
        if cursor.remaining() < Self::BODY_LEN {
            return Err(Error::TruncatedInput);
        }
        let value = Self {
            npc_id: cursor.read()?,
            portal_color_index: cursor.read()?,
            new_position_x: cursor.read()?,
            new_position_y: cursor.read()?,
            velocity_x: cursor.read()?,
            velocity_y: cursor.read()?,
        };
        proof {
            value.lemma_body_layout();
            assert(value.body() =~= old(cursor)@.ahead().take(20));
        }
        Ok(value)
    }
}

} // verus!
