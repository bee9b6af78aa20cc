//! Packet kinds, the envelope every packet travels in, and the dispatch from
//! a tag byte to the kind it names.

use vstd::prelude::*;
use crate::error::Error;
use crate::layout::{le_bytes, le_value, overlay};
use crate::layout::{lemma_le_bytes_len, lemma_le_value_of_bytes, lemma_radix_values};
use crate::serialization::{Serializable, SliceCursor};

pub mod magic;
pub mod npc_teleport_portal;
pub mod packet;
pub mod player_npc_teleport;
pub mod raw_body;
pub mod rgb;
pub mod unlock;
pub mod update_player_buff;
pub mod vec2;

pub use magic::Magic;
pub use npc_teleport_portal::NPCTeleportPortal;
pub use packet::{
    CompressedTileBlock, ItemMoved, KillCount, NpcInfo, Packet, Packet11, Packet22, Packet3,
    Packet57, Packet7, Packet8, Packet82, Packet9, PlayerInfo, PlayerMana, PlayerUuid, ToSpawn,
};
pub use player_npc_teleport::PlayerNPCTeleport;
pub use raw_body::RawBody;
pub use rgb::RGB;
pub use unlock::Unlock;
pub use update_player_buff::UpdatePlayerBuff;
pub use vec2::Vec2;

verus! {

/// The number of bytes an envelope has before its body: two for the length
/// and one for the tag.
pub const HEADER_LEN: usize = 3;

/// The longest envelope that the two-byte length field can describe.
pub const MAX_ENVELOPE_LEN: usize = 65535;

/// An envelope as it lies in the buffer: the length of the whole envelope in
/// two little-endian bytes, the tag, the body.
pub open spec fn envelope(tag: u8, body: Seq<u8>) -> Seq<u8> {
    le_bytes((HEADER_LEN + body.len()) as nat, 2) + seq![tag] + body
}

/// How writing a body ends: a body that has no encoding is refused before
/// the buffer is looked at.
pub open spec fn body_outcome(encodable: bool, body_len: nat, room: nat) -> Result<(), Error> {
    if !encodable {
        Err(Error::LengthOverflow)
    } else if room < body_len {
        Err(Error::BufferOverflow)
    } else {
        Ok(())
    }
}

/// How framing a packet ends, from what decides it: whether the body can be
/// encoded at all, how long it is, and how many bytes the buffer has left.
///
/// The checks come in the order in which the envelope is written: room for
/// the header, the body, and last the length of the whole.
pub open spec fn framing_outcome(encodable: bool, body_len: nat, room: nat) -> Result<(), Error> {
    if room < HEADER_LEN {
        Err(Error::BufferOverflow)
    } else if !encodable {
        Err(Error::LengthOverflow)
    } else if room < HEADER_LEN + body_len {
        Err(Error::BufferOverflow)
    } else if HEADER_LEN + body_len > MAX_ENVELOPE_LEN {
        Err(Error::LengthOverflow)
    } else {
        Ok(())
    }
}

/// An envelope that has been begun: the two bytes of the length still
/// blank, the tag, the body.
pub open spec fn draft(tag: u8, body: Seq<u8>) -> Seq<u8> {
    seq![0u8, 0u8, tag] + body
}

/// How many bytes of the draft lie in the buffer when framing is given up:
/// none where not even the length has room, the blank length where the tag
/// has none, the header where the body is refused, and all of the draft
/// where only its length turns out too great.
pub open spec fn begun(encodable: bool, body_len: nat, room: nat) -> nat {
    if room < 2 {
        0
    } else if room < HEADER_LEN {
        2
    } else if !encodable || room < HEADER_LEN + body_len {
        HEADER_LEN as nat
    } else {
        (HEADER_LEN + body_len) as nat
    }
}

/// What `from_body` of the kind `P` promises of its result where it reads
/// at the front of `input`: a value whose body is the bytes that `body_span`
/// counts, or the error that `body_span` gives.
pub open spec fn reads_as<P: PacketBody>(input: Seq<u8>, r: Result<P, Error>) -> bool {
    match r {
        Ok(value) => {
            &&& value.encodable()
            &&& P::body_span(input) == Ok::<nat, Error>(value.body().len())
            &&& value.body() == input.take(value.body().len() as int)
        },
        Err(e) => P::body_span(input) == Err::<nat, Error>(e),
    }
}

/// Round trip: whatever reading the body of `value` comes to, it is `value`
/// again, and the read takes exactly the bytes that were written.
pub proof fn lemma_body_round_trip<P: PacketBody>(value: P, r: Result<P, Error>)
    requires
        value.encodable(),
        reads_as(value.body(), r),
    ensures
        r matches Ok(back) && back@ == value@ && back.body().len() == value.body().len(),
{
    value.lemma_body_span();
    let back = r->Ok_0;
    assert(value.body().take(value.body().len() as int) =~= value.body());
    back.lemma_body_injective(&value);
}

/// One kind of packet: its tag, and how its body is written and read.
///
/// A body is written without length and tag. It is read from a cursor that
/// stands just behind the tag, by a caller that has looked at the tag.
pub trait PacketBody: Sized + View {
    /// The byte that names this kind on the wire.
    const TAG: u8;

    /// The value of `TAG`, for use in specifications.
    spec fn tag() -> u8;

    /// Whether the value has a body at all. A string too long for its
    /// length byte, for one, has none.
    spec fn encodable(&self) -> bool;

    /// The bytes of the body.
    spec fn body(&self) -> Seq<u8>;

    /// The number of bytes at the front of `input` that a body of this kind
    /// takes up, or why `input` does not start with one.
    spec fn body_span(input: Seq<u8>) -> Result<nat, Error>;

    /// `tag()` is the value of `TAG`.
    proof fn lemma_tag()
        ensures
            Self::TAG == Self::tag(),
    ;

    /// A body is recognised as one that takes up all of its bytes.
    proof fn lemma_body_span(&self)
        requires
            self.encodable(),
        ensures
            Self::body_span(self.body()) == Ok::<nat, Error>(self.body().len()),
    ;

    /// Values with the same body are the same value.
    proof fn lemma_body_injective(&self, other: &Self)
        requires
            self.encodable(),
            other.encodable(),
            self.body() == other.body(),
        ensures
            self@ == other@,
    ;

    /// Writes the body at the cursor's position and moves the cursor past
    /// it. On failure the cursor is as it was.
    fn write_body(&self, cursor: &mut SliceCursor) -> (r: Result<(), Error>)
        requires
            old(cursor).wf(),
        ensures
            final(cursor).wf(),
            final(final(cursor).slice)@ == final(old(cursor).slice)@,
            r == body_outcome(self.encodable(), self.body().len(), old(cursor)@.room()),
            r is Ok ==> final(cursor)@ == old(cursor)@.wrote(self.body()),
            r is Err ==> final(cursor)@ == old(cursor)@,
    ;

    /// Reads a body at the cursor's position and moves the cursor past it.
    /// The value returned is the one whose body is the bytes read. On
    /// failure the cursor is as it was.
    fn from_body(cursor: &mut SliceCursor) -> (r: Result<Self, Error>)
        requires
            old(cursor).wf(),
        ensures
            final(cursor).wf(),
            final(final(cursor).slice)@ == final(old(cursor).slice)@,
            r matches Ok(value) ==> value.encodable(),
            r matches Ok(value) ==> Self::body_span(old(cursor)@.ahead()) == Ok::<nat, Error>(
                value.body().len(),
            ),
            r matches Ok(value) ==> value.body() == old(cursor)@.ahead().take(
                value.body().len() as int,
            ),
            r matches Ok(value) ==> final(cursor)@ == old(cursor)@.skipped(value.body().len()),
            r matches Err(e) ==> Self::body_span(old(cursor)@.ahead()) == Err::<nat, Error>(e),
            r is Err ==> final(cursor)@ == old(cursor)@,
    ;

    /// Writes the packet in its envelope at the cursor's position.
    ///
    /// Two bytes are set aside for the length, the tag and the body follow,
    /// and the length of all of it is then written into the two bytes, so
    /// that the length field counts exactly the bytes from its own first
    /// byte to the last byte of the body.
    ///
    /// On failure the position is where it was and no byte before it has
    /// changed: nothing was added to what the buffer held. What was begun
    /// lies behind the position, as [`begun`] says, and is scratch.
    fn serialize(&self, cursor: &mut SliceCursor) -> (r: Result<(), Error>)
        requires
            old(cursor).wf(),
        ensures
            final(cursor).wf(),
            final(final(cursor).slice)@ == final(old(cursor).slice)@,
            r == framing_outcome(self.encodable(), self.body().len(), old(cursor)@.room()),
            r is Ok ==> final(cursor)@ == old(cursor)@.wrote(envelope(Self::tag(), self.body())),
            r is Ok ==> le_value(
                final(cursor)@.bytes.subrange(old(cursor)@.pos as int, old(cursor)@.pos + 2 as int),
            ) == final(cursor)@.pos - old(cursor)@.pos,
            r is Err ==> final(cursor)@ == old(cursor)@.patched(
                old(cursor)@.pos,
                draft(Self::tag(), self.body()).take(
                    begun(self.encodable(), self.body().len(), old(cursor)@.room()) as int,
                ),
            ),
            r is Err ==> final(cursor)@.bytes.take(old(cursor)@.pos as int)
                == old(cursor)@.bytes.take(old(cursor)@.pos as int),
    {
        let length_pos = cursor.pos();
        let placeholder: u16 = 0;
        let tag: u8 = Self::TAG;
        let ghost draft = draft(Self::tag(), self.body());
        proof {
            Self::lemma_tag();
            placeholder.lemma_wire_width();
            tag.lemma_wire_width();
            reveal_with_fuel(le_bytes, 3);
            assert(placeholder.wire() =~= seq![0u8, 0u8]);
            assert(tag.wire() =~= seq![tag]);
        }
        if let Err(e) = cursor.write(&placeholder) {
            assert(cursor@.bytes =~= old(cursor)@.patched(length_pos as nat, draft.take(0)).bytes);
            return Err(e);
        }
        if let Err(e) = cursor.write(&tag) {
            cursor.pos = length_pos;
            assert(cursor@.bytes =~= old(cursor)@.patched(length_pos as nat, draft.take(2)).bytes);
            return Err(e);
        }
        if let Err(e) = self.write_body(cursor) {
            cursor.pos = length_pos;
            assert(cursor@.bytes =~= old(cursor)@.patched(length_pos as nat, draft.take(3)).bytes);
            return Err(e);
        }
        assert(cursor@.bytes =~= old(cursor)@.patched(length_pos as nat, draft).bytes);
        let span = cursor.pos() - length_pos;
        if span > MAX_ENVELOPE_LEN {
            cursor.pos = length_pos;
            assert(draft.take(span as int) =~= draft);
            return Err(Error::LengthOverflow);
        }
        let length: u16 = span as u16;
        proof {
            length.lemma_wire_width();
        }
        cursor.rewrite(length_pos, &length)?;
        proof {
            let image = envelope(Self::tag(), self.body());
            let prefix = le_bytes(span as nat, 2);
            lemma_le_bytes_len(span as nat, 2);
            lemma_radix_values();
            lemma_le_value_of_bytes(span as nat, 2);
            assert(cursor@.bytes =~= overlay(old(cursor)@.bytes, length_pos as int, image));
            assert(cursor@.bytes.subrange(length_pos as int, length_pos + 2) =~= prefix);
        }
        Ok(())
    }
}

} // verus!
