use vstd::prelude::*;
use crate::error::Error;
use crate::packets::PacketBody;
use crate::serialization::{Serializable, SliceCursor};

verus! {

/// Update Player Buff.
///
/// Direction: Server <-> Client (Sync).
#[derive(Debug, Clone, Copy, PartialEq, Eq)]
pub struct UpdatePlayerBuff {
    pub player_id: u8,
    pub bufftype: [u16; 22],
}

impl UpdatePlayerBuff {
    /// The length of every body of this kind.
    pub const BODY_LEN: usize = 45;

    /// Where each field lies in the body.
    pub proof fn lemma_body_layout(&self)
        ensures
            self.body().len() == 45,
            self.player_id.wire() == self.body().subrange(0, 1),
            self.bufftype.wire() == self.body().subrange(1, 45),
    {
        self.player_id.lemma_wire_width();
        self.bufftype.lemma_wire_width();
        assert(self.player_id.wire() =~= self.body().subrange(0, 1));
        assert(self.bufftype.wire() =~= self.body().subrange(1, 45));
    }
}

impl View for UpdatePlayerBuff {
    type V = UpdatePlayerBuff;

    open spec fn view(&self) -> UpdatePlayerBuff {
        *self
    }
}

impl PacketBody for UpdatePlayerBuff {
    const TAG: u8 = 50;

    open spec fn tag() -> u8 {
        50
    }

    open spec fn encodable(&self) -> bool {
        true
    }

    open spec fn body(&self) -> Seq<u8> {
        self.player_id.wire() + self.bufftype.wire()
    }

    open spec fn body_span(input: Seq<u8>) -> Result<nat, Error> {
        if input.len() >= UpdatePlayerBuff::BODY_LEN {
            Ok(UpdatePlayerBuff::BODY_LEN as nat)
        } else {
            Err(Error::TruncatedInput)
        }
    }

    proof fn lemma_tag() {
    }

    proof fn lemma_body_span(&self) {
        self.lemma_body_layout();
    }

    proof fn lemma_body_injective(&self, other: &Self) {
        self.lemma_body_layout();
        other.lemma_body_layout();
        self.player_id.lemma_wire_injective(&other.player_id);
        self.bufftype.lemma_wire_injective(&other.bufftype);
    }

    fn write_body(&self, cursor: &mut SliceCursor) -> (r: Result<(), Error>) {
        proof {
            self.lemma_body_layout();
        }
        if cursor.remaining() < Self::BODY_LEN {
            return Err(Error::BufferOverflow);
        }
        cursor.write(&self.player_id)?;
        cursor.write(&self.bufftype)?;
        assert(cursor@.bytes =~= old(cursor)@.wrote(self.body()).bytes);
        Ok(())
    }

    fn from_body(cursor: &mut SliceCursor) -> (r: Result<Self, Error>) {
        if cursor.remaining() < Self::BODY_LEN {
            return Err(Error::TruncatedInput);
        }
        let value = Self {
            player_id: cursor.read()?,
            bufftype: cursor.read()?,
        };
        proof {
            value.lemma_body_layout();
            assert(value.body() =~= old(cursor)@.ahead().take(45));
        }
        Ok(value)
    }
}

} // verus!
