//! The catalogue of packet kinds, and the dispatch from a tag to its kind.

use vstd::prelude::*;
use crate::error::Error;
use crate::layout::lemma_le_bytes_one;
use crate::packets::{
    Magic, NPCTeleportPortal, PacketBody, PlayerNPCTeleport, RawBody, Unlock, UpdatePlayerBuff,
};
use crate::serialization::{Serializable, SliceCursor};

verus! {

/// The kind with tag 3; its body is carried as it travels.
pub type Packet3 = RawBody<3>;

/// The kind with tag 4; its body is carried as it travels.
pub type PlayerInfo = RawBody<4>;

/// The kind with tag 7; its body is carried as it travels.
pub type Packet7 = RawBody<7>;

/// The kind with tag 8; its body is carried as it travels.
pub type Packet8 = RawBody<8>;

/// The kind with tag 9; its body is carried as it travels.
pub type Packet9 = RawBody<9>;

/// The kind with tag 10; its body is carried as it travels.
pub type CompressedTileBlock = RawBody<10>;

/// The kind with tag 11; its body is carried as it travels.
pub type Packet11 = RawBody<11>;

/// The kind with tag 12; its body is carried as it travels.
pub type ToSpawn = RawBody<12>;

/// The kind with tag 21; its body is carried as it travels.
pub type ItemMoved = RawBody<21>;

/// The kind with tag 22; its body is carried as it travels.
pub type Packet22 = RawBody<22>;

/// The kind with tag 23; its body is carried as it travels.
pub type NpcInfo = RawBody<23>;

/// The kind with tag 42; its body is carried as it travels.
pub type PlayerMana = RawBody<42>;

/// The kind with tag 57; its body is carried as it travels.
pub type Packet57 = RawBody<57>;

/// The kind with tag 68; its body is carried as it travels.
pub type PlayerUuid = RawBody<68>;

/// The kind with tag 82; its body is carried as it travels.
pub type Packet82 = RawBody<82>;

/// The kind with tag 83; its body is carried as it travels.
pub type KillCount = RawBody<83>;

/// The tags of the kinds that are decoded, in the order of the catalogue.
pub open spec fn supported_tags() -> Seq<u8> {
    seq![
        1u8, 3, 4, 7, 8, 9, 10, 11, 12, 21, 22, 23, 42, 50, 52, 57, 65, 68, 82, 83, 100,
    ]
}

/// A tag of the catalogue: a message with such a tag is decoded.
pub open spec fn is_supported(tag: u8) -> bool {
    supported_tags().contains(tag)
}

/// A tag that the protocol is known to use and that is not decoded: a
/// message with such a tag is acknowledged and its body is left alone.
pub open spec fn is_acknowledged(tag: u8) -> bool {
    tag == 101 || tag == 136
}

/// Whether the protocol knows the tag at all.
pub open spec fn is_known(tag: u8) -> bool {
    is_supported(tag) || is_acknowledged(tag)
}

/// The place in the catalogue of the one kind that `tag` names, counted from
/// 0; the place behind all kinds where the tag is acknowledged; nothing
/// where the tag is not known.
pub open spec fn kind_of(tag: u8) -> Option<int> {
    if is_acknowledged(tag) {
        Some(supported_tags().len() as int)
    } else if is_supported(tag) {
        Some(supported_tags().index_of(tag))
    } else {
        None
    }
}

/// A decoded message: one variant for each kind of the catalogue, and one
/// that stands for a message whose tag is acknowledged but not decoded.
#[derive(Debug, Clone, PartialEq, Eq)]
pub enum Packet {
    /// Tag 1.
    Magic(Magic),
    /// Tag 3.
    Packet3(Packet3),
    /// Tag 4.
    PlayerInfo(PlayerInfo),
    /// Tag 7.
    Packet7(Packet7),
    /// Tag 8.
    Packet8(Packet8),
    /// Tag 9.
    Packet9(Packet9),
    /// Tag 10.
    CompressedTileBlock(CompressedTileBlock),
    /// Tag 11.
    Packet11(Packet11),
    /// Tag 12.
    ToSpawn(ToSpawn),
    /// Tag 21.
    ItemMoved(ItemMoved),
    /// Tag 22.
    Packet22(Packet22),
    /// Tag 23.
    NpcInfo(NpcInfo),
    /// Tag 42.
    PlayerMana(PlayerMana),
    /// Tag 50.
    PlayerBuffs(UpdatePlayerBuff),
    /// Tag 52.
    Unlock(Unlock),
    /// Tag 57.
    Packet57(Packet57),
    /// Tag 65.
    PlayerNPCTeleport(PlayerNPCTeleport),
    /// Tag 68.
    PlayerUuid(PlayerUuid),
    /// Tag 82.
    Packet82(Packet82),
    /// Tag 83.
    KillCount(KillCount),
    /// Tag 100.
    NPCTeleportPortal(NPCTeleportPortal),
    /// A message with one of the acknowledged tags, 101 or 136. It carries
    /// the tag and nothing of the body.
    Unsupported(u8),
}

impl Packet {
    /// The tag this packet travels under.
    pub open spec fn tag(&self) -> u8 {
        match self {
            Packet::Magic(_) => Magic::tag(),
            Packet::Packet3(_) => Packet3::tag(),
            Packet::PlayerInfo(_) => PlayerInfo::tag(),
            Packet::Packet7(_) => Packet7::tag(),
            Packet::Packet8(_) => Packet8::tag(),
            Packet::Packet9(_) => Packet9::tag(),
            Packet::CompressedTileBlock(_) => CompressedTileBlock::tag(),
            Packet::Packet11(_) => Packet11::tag(),
            Packet::ToSpawn(_) => ToSpawn::tag(),
            Packet::ItemMoved(_) => ItemMoved::tag(),
            Packet::Packet22(_) => Packet22::tag(),
            Packet::NpcInfo(_) => NpcInfo::tag(),
            Packet::PlayerMana(_) => PlayerMana::tag(),
            Packet::PlayerBuffs(_) => UpdatePlayerBuff::tag(),
            Packet::Unlock(_) => Unlock::tag(),
            Packet::Packet57(_) => Packet57::tag(),
            Packet::PlayerNPCTeleport(_) => PlayerNPCTeleport::tag(),
            Packet::PlayerUuid(_) => PlayerUuid::tag(),
            Packet::Packet82(_) => Packet82::tag(),
            Packet::KillCount(_) => KillCount::tag(),
            Packet::NPCTeleportPortal(_) => NPCTeleportPortal::tag(),
            Packet::Unsupported(tag) => *tag,
        }
    }

    /// The place of the packet's kind in the catalogue, counted from 0. The
    /// variant for acknowledged tags comes behind all kinds.
    pub open spec fn ordinal(&self) -> int {
        match self {
            Packet::Magic(_) => 0,
            Packet::Packet3(_) => 1,
            Packet::PlayerInfo(_) => 2,
            Packet::Packet7(_) => 3,
            Packet::Packet8(_) => 4,
            Packet::Packet9(_) => 5,
            Packet::CompressedTileBlock(_) => 6,
            Packet::Packet11(_) => 7,
            Packet::ToSpawn(_) => 8,
            Packet::ItemMoved(_) => 9,
            Packet::Packet22(_) => 10,
            Packet::NpcInfo(_) => 11,
            Packet::PlayerMana(_) => 12,
            Packet::PlayerBuffs(_) => 13,
            Packet::Unlock(_) => 14,
            Packet::Packet57(_) => 15,
            Packet::PlayerNPCTeleport(_) => 16,
            Packet::PlayerUuid(_) => 17,
            Packet::Packet82(_) => 18,
            Packet::KillCount(_) => 19,
            Packet::NPCTeleportPortal(_) => 20,
            Packet::Unsupported(_) => 21,
        }
    }

    /// Whether the packet is one that the wire can carry: a payload that has
    /// an encoding, or an acknowledged tag.
    pub open spec fn valid(&self) -> bool {
        match self {
            Packet::Magic(payload) => payload.encodable(),
            Packet::Packet3(payload) => payload.encodable(),
            Packet::PlayerInfo(payload) => payload.encodable(),
            Packet::Packet7(payload) => payload.encodable(),
            Packet::Packet8(payload) => payload.encodable(),
            Packet::Packet9(payload) => payload.encodable(),
            Packet::CompressedTileBlock(payload) => payload.encodable(),
            Packet::Packet11(payload) => payload.encodable(),
            Packet::ToSpawn(payload) => payload.encodable(),
            Packet::ItemMoved(payload) => payload.encodable(),
            Packet::Packet22(payload) => payload.encodable(),
            Packet::NpcInfo(payload) => payload.encodable(),
            Packet::PlayerMana(payload) => payload.encodable(),
            Packet::PlayerBuffs(payload) => payload.encodable(),
            Packet::Unlock(payload) => payload.encodable(),
            Packet::Packet57(payload) => payload.encodable(),
            Packet::PlayerNPCTeleport(payload) => payload.encodable(),
            Packet::PlayerUuid(payload) => payload.encodable(),
            Packet::Packet82(payload) => payload.encodable(),
            Packet::KillCount(payload) => payload.encodable(),
            Packet::NPCTeleportPortal(payload) => payload.encodable(),
            Packet::Unsupported(tag) => is_acknowledged(*tag),
        }
    }

    /// The bytes behind the tag. Of an acknowledged message nothing is
    /// kept, so it has none.
    pub open spec fn body(&self) -> Seq<u8> {
        match self {
            Packet::Magic(payload) => payload.body(),
            Packet::Packet3(payload) => payload.body(),
            Packet::PlayerInfo(payload) => payload.body(),
            Packet::Packet7(payload) => payload.body(),
            Packet::Packet8(payload) => payload.body(),
            Packet::Packet9(payload) => payload.body(),
            Packet::CompressedTileBlock(payload) => payload.body(),
            Packet::Packet11(payload) => payload.body(),
            Packet::ToSpawn(payload) => payload.body(),
            Packet::ItemMoved(payload) => payload.body(),
            Packet::Packet22(payload) => payload.body(),
            Packet::NpcInfo(payload) => payload.body(),
            Packet::PlayerMana(payload) => payload.body(),
            Packet::PlayerBuffs(payload) => payload.body(),
            Packet::Unlock(payload) => payload.body(),
            Packet::Packet57(payload) => payload.body(),
            Packet::PlayerNPCTeleport(payload) => payload.body(),
            Packet::PlayerUuid(payload) => payload.body(),
            Packet::Packet82(payload) => payload.body(),
            Packet::KillCount(payload) => payload.body(),
            Packet::NPCTeleportPortal(payload) => payload.body(),
            Packet::Unsupported(_) => Seq::empty(),
        }
    }

    /// Whether two packets are of the same kind and hold the same payload.
    pub open spec fn agrees(&self, other: &Packet) -> bool {
        match (self, other) {
            (Packet::Magic(a), Packet::Magic(b)) => a@ == b@,
            (Packet::Packet3(a), Packet::Packet3(b)) => a@ == b@,
            (Packet::PlayerInfo(a), Packet::PlayerInfo(b)) => a@ == b@,
            (Packet::Packet7(a), Packet::Packet7(b)) => a@ == b@,
            (Packet::Packet8(a), Packet::Packet8(b)) => a@ == b@,
            (Packet::Packet9(a), Packet::Packet9(b)) => a@ == b@,
            (Packet::CompressedTileBlock(a), Packet::CompressedTileBlock(b)) => a@ == b@,
            (Packet::Packet11(a), Packet::Packet11(b)) => a@ == b@,
            (Packet::ToSpawn(a), Packet::ToSpawn(b)) => a@ == b@,
            (Packet::ItemMoved(a), Packet::ItemMoved(b)) => a@ == b@,
            (Packet::Packet22(a), Packet::Packet22(b)) => a@ == b@,
            (Packet::NpcInfo(a), Packet::NpcInfo(b)) => a@ == b@,
            (Packet::PlayerMana(a), Packet::PlayerMana(b)) => a@ == b@,
            (Packet::PlayerBuffs(a), Packet::PlayerBuffs(b)) => a@ == b@,
            (Packet::Unlock(a), Packet::Unlock(b)) => a@ == b@,
            (Packet::Packet57(a), Packet::Packet57(b)) => a@ == b@,
            (Packet::PlayerNPCTeleport(a), Packet::PlayerNPCTeleport(b)) => a@ == b@,
            (Packet::PlayerUuid(a), Packet::PlayerUuid(b)) => a@ == b@,
            (Packet::Packet82(a), Packet::Packet82(b)) => a@ == b@,
            (Packet::KillCount(a), Packet::KillCount(b)) => a@ == b@,
            (Packet::NPCTeleportPortal(a), Packet::NPCTeleportPortal(b)) => a@ == b@,
            (Packet::Unsupported(a), Packet::Unsupported(b)) => a == b,
            _ => false,
        }
    }

    /// What `body_span` of the kind with the tag `tag` says of `input`.
    pub open spec fn body_span(tag: u8, input: Seq<u8>) -> Result<nat, Error>
        recommends
            is_supported(tag),
    {
        if tag == Magic::tag() {
            Magic::body_span(input)
        } else if tag == Packet3::tag() {
            Packet3::body_span(input)
        } else if tag == PlayerInfo::tag() {
            PlayerInfo::body_span(input)
        } else if tag == Packet7::tag() {
            Packet7::body_span(input)
        } else if tag == Packet8::tag() {
            Packet8::body_span(input)
        } else if tag == Packet9::tag() {
            Packet9::body_span(input)
        } else if tag == CompressedTileBlock::tag() {
            CompressedTileBlock::body_span(input)
        } else if tag == Packet11::tag() {
            Packet11::body_span(input)
        } else if tag == ToSpawn::tag() {
            ToSpawn::body_span(input)
        } else if tag == ItemMoved::tag() {
            ItemMoved::body_span(input)
        } else if tag == Packet22::tag() {
            Packet22::body_span(input)
        } else if tag == NpcInfo::tag() {
            NpcInfo::body_span(input)
        } else if tag == PlayerMana::tag() {
            PlayerMana::body_span(input)
        } else if tag == UpdatePlayerBuff::tag() {
            UpdatePlayerBuff::body_span(input)
        } else if tag == Unlock::tag() {
            Unlock::body_span(input)
        } else if tag == Packet57::tag() {
            Packet57::body_span(input)
        } else if tag == PlayerNPCTeleport::tag() {
            PlayerNPCTeleport::body_span(input)
        } else if tag == PlayerUuid::tag() {
            PlayerUuid::body_span(input)
        } else if tag == Packet82::tag() {
            Packet82::body_span(input)
        } else if tag == KillCount::tag() {
            KillCount::body_span(input)
        } else {
            NPCTeleportPortal::body_span(input)
        }
    }

    /// What decoding the message `input`, a tag and a body, comes to.
    ///
    /// An empty message is truncated. An acknowledged tag gives the variant
    /// that stands for it, whatever follows. A tag that is not known is an
    /// error that names it. Any other tag belongs to one kind: the result is
    /// what reading a body of that kind gives, a packet of that kind whose
    /// body is the bytes read, or the error of the read.
    pub open spec fn decodes(input: Seq<u8>, r: Result<Packet, Error>) -> bool {
        if input.len() == 0 {
            r == Err::<Packet, Error>(Error::TruncatedInput)
        } else if is_acknowledged(input[0]) {
            r == Ok::<Packet, Error>(Packet::Unsupported(input[0]))
        } else if !is_supported(input[0]) {
            r == Err::<Packet, Error>(Error::UnknownTag(input[0]))
        } else {
            match Packet::body_span(input[0], input.skip(1)) {
                Ok(n) => {
                    &&& r matches Ok(packet)
                    &&& !(packet is Unsupported)
                    &&& packet.valid()
                    &&& packet.tag() == input[0]
                    &&& packet.body().len() == n
                    &&& packet.body() == input.skip(1).take(n as int)
                },
                Err(e) => r == Err::<Packet, Error>(e),
            }
        }
    }

    /// The catalogue, tag by tag.
    pub proof fn lemma_supported_tags()
        ensures
            forall|tag: u8|
                is_supported(tag) <==> tag == 1 || tag == 3 || tag == 4 || tag == 7 || tag == 8
                    || tag == 9 || tag == 10 || tag == 11 || tag == 12 || tag == 21 || tag == 22
                    || tag == 23 || tag == 42 || tag == 50 || tag == 52 || tag == 57 || tag == 65
                    || tag == 68 || tag == 82 || tag == 83 || tag == 100,
    {
        let tags = supported_tags();
        assert(tags[0] == 1 && tags[1] == 3 && tags[2] == 4 && tags[3] == 7 && tags[4] == 8);
        assert(tags[5] == 9 && tags[6] == 10 && tags[7] == 11 && tags[8] == 12);
        assert(tags[9] == 21 && tags[10] == 22 && tags[11] == 23 && tags[12] == 42);
        assert(tags[13] == 50 && tags[14] == 52 && tags[15] == 57 && tags[16] == 65);
        assert(tags[17] == 68 && tags[18] == 82 && tags[19] == 83 && tags[20] == 100);
    }

    /// No tag stands twice in the catalogue, and no acknowledged tag stands
    /// in it.
    pub proof fn lemma_tags_unique()
        ensures
            supported_tags().no_duplicates(),
            forall|tag: u8| !(is_supported(tag) && is_acknowledged(tag)),
    {
        let tags = supported_tags();
        assert forall|tag: u8| !(is_supported(tag) && is_acknowledged(tag)) by {
            if is_supported(tag) {
                let i = choose|i: int| 0 <= i < tags.len() && tags[i] == tag;
                assert(tags[i] != 101 && tags[i] != 136);
            }
        }
    }

    /// The tag of a packet of the catalogue is the one that stands at the
    /// place of its kind, and the variant of a packet is the one that its
    /// tag names.
    pub proof fn lemma_tag_of_kind(&self)
        ensures
            !(self is Unsupported) ==> 0 <= self.ordinal() < supported_tags().len(),
            !(self is Unsupported) ==> supported_tags()[self.ordinal()] == self.tag(),
            self.valid() ==> (self is Unsupported <==> is_acknowledged(self.tag())),
            self.valid() ==> kind_of(self.tag()) == Some(self.ordinal()),
    {
        Self::lemma_tags_unique();
        if !(self is Unsupported) {
            assert(supported_tags()[self.ordinal()] == self.tag());
        }
    }

    /// Two packets with the same tag are of the same kind: every known tag
    /// names exactly one variant.
    pub proof fn lemma_tag_decides_kind(&self, other: &Packet)
        requires
            self.valid(),
            other.valid(),
            self.tag() == other.tag(),
        ensures
            self.ordinal() == other.ordinal(),
    {
        self.lemma_tag_of_kind();
        other.lemma_tag_of_kind();
    }

    /// Decoding what a packet is written as gives the packet back: the same
    /// kind with the same payload.
    pub proof fn lemma_round_trip(&self, r: Result<Packet, Error>)
        requires
            self.valid(),
            Packet::decodes(seq![self.tag()] + self.body(), r),
        ensures
            r matches Ok(packet) && packet.agrees(self),
    {
        let input = seq![self.tag()] + self.body();
        assert(input[0] == self.tag());
        assert(input.skip(1) =~= self.body());
        self.lemma_tag_of_kind();
        Self::lemma_tags_unique();
        match self {
            Packet::Magic(payload) => payload.lemma_body_span(),
            Packet::Packet3(payload) => payload.lemma_body_span(),
            Packet::PlayerInfo(payload) => payload.lemma_body_span(),
            Packet::Packet7(payload) => payload.lemma_body_span(),
            Packet::Packet8(payload) => payload.lemma_body_span(),
            Packet::Packet9(payload) => payload.lemma_body_span(),
            Packet::CompressedTileBlock(payload) => payload.lemma_body_span(),
            Packet::Packet11(payload) => payload.lemma_body_span(),
            Packet::ToSpawn(payload) => payload.lemma_body_span(),
            Packet::ItemMoved(payload) => payload.lemma_body_span(),
            Packet::Packet22(payload) => payload.lemma_body_span(),
            Packet::NpcInfo(payload) => payload.lemma_body_span(),
            Packet::PlayerMana(payload) => payload.lemma_body_span(),
            Packet::PlayerBuffs(payload) => payload.lemma_body_span(),
            Packet::Unlock(payload) => payload.lemma_body_span(),
            Packet::Packet57(payload) => payload.lemma_body_span(),
            Packet::PlayerNPCTeleport(payload) => payload.lemma_body_span(),
            Packet::PlayerUuid(payload) => payload.lemma_body_span(),
            Packet::Packet82(payload) => payload.lemma_body_span(),
            Packet::KillCount(payload) => payload.lemma_body_span(),
            Packet::NPCTeleportPortal(payload) => payload.lemma_body_span(),
            Packet::Unsupported(_) => {},
        }
        let packet = r->Ok_0;
        packet.lemma_tag_decides_kind(self);
        assert(packet.body() =~= self.body());
        match (self, packet) {
            (Packet::Magic(a), Packet::Magic(b)) => b.lemma_body_injective(a),
            (Packet::Packet3(a), Packet::Packet3(b)) => b.lemma_body_injective(a),
            (Packet::PlayerInfo(a), Packet::PlayerInfo(b)) => b.lemma_body_injective(a),
            (Packet::Packet7(a), Packet::Packet7(b)) => b.lemma_body_injective(a),
            (Packet::Packet8(a), Packet::Packet8(b)) => b.lemma_body_injective(a),
            (Packet::Packet9(a), Packet::Packet9(b)) => b.lemma_body_injective(a),
            (Packet::CompressedTileBlock(a), Packet::CompressedTileBlock(b)) => {
                b.lemma_body_injective(a)
            },
            (Packet::Packet11(a), Packet::Packet11(b)) => b.lemma_body_injective(a),
            (Packet::ToSpawn(a), Packet::ToSpawn(b)) => b.lemma_body_injective(a),
            (Packet::ItemMoved(a), Packet::ItemMoved(b)) => b.lemma_body_injective(a),
            (Packet::Packet22(a), Packet::Packet22(b)) => b.lemma_body_injective(a),
            (Packet::NpcInfo(a), Packet::NpcInfo(b)) => b.lemma_body_injective(a),
            (Packet::PlayerMana(a), Packet::PlayerMana(b)) => b.lemma_body_injective(a),
            (Packet::PlayerBuffs(a), Packet::PlayerBuffs(b)) => b.lemma_body_injective(a),
            (Packet::Unlock(a), Packet::Unlock(b)) => b.lemma_body_injective(a),
            (Packet::Packet57(a), Packet::Packet57(b)) => b.lemma_body_injective(a),
            (Packet::PlayerNPCTeleport(a), Packet::PlayerNPCTeleport(b)) => {
                b.lemma_body_injective(a)
            },
            (Packet::PlayerUuid(a), Packet::PlayerUuid(b)) => b.lemma_body_injective(a),
            (Packet::Packet82(a), Packet::Packet82(b)) => b.lemma_body_injective(a),
            (Packet::KillCount(a), Packet::KillCount(b)) => b.lemma_body_injective(a),
            (Packet::NPCTeleportPortal(a), Packet::NPCTeleportPortal(b)) => {
                b.lemma_body_injective(a)
            },
            _ => {},
        }
    }

    /// Decodes one message: `slice` holds its tag and its body, the length
    /// in front of them taken off by whoever received it. The slice is only
    /// read.
    pub fn from_slice(slice: &mut [u8]) -> (r: Result<Packet, Error>)
        ensures
            final(slice)@ == old(slice)@,
            Packet::decodes(old(slice)@, r),
    {
        let mut cursor = SliceCursor::new(slice);
        let ghost input = cursor@.bytes;
        let tag: u8 = cursor.read()?;
        proof {
            lemma_le_bytes_one(tag);
            assert(tag.wire() == seq![tag]);
            assert(input.skip(0) =~= input);
            assert(input.take(1)[0] == input[0]);
            assert(cursor@.ahead() =~= input.skip(1));
            Self::lemma_supported_tags();
        }
        match tag {
            1 => Ok(Packet::Magic(Magic::from_body(&mut cursor)?)),
            3 => Ok(Packet::Packet3(Packet3::from_body(&mut cursor)?)),
            4 => Ok(Packet::PlayerInfo(PlayerInfo::from_body(&mut cursor)?)),
            7 => Ok(Packet::Packet7(Packet7::from_body(&mut cursor)?)),
            8 => Ok(Packet::Packet8(Packet8::from_body(&mut cursor)?)),
            9 => Ok(Packet::Packet9(Packet9::from_body(&mut cursor)?)),
            10 => Ok(Packet::CompressedTileBlock(CompressedTileBlock::from_body(&mut cursor)?)),
            11 => Ok(Packet::Packet11(Packet11::from_body(&mut cursor)?)),
            12 => Ok(Packet::ToSpawn(ToSpawn::from_body(&mut cursor)?)),
            21 => Ok(Packet::ItemMoved(ItemMoved::from_body(&mut cursor)?)),
            22 => Ok(Packet::Packet22(Packet22::from_body(&mut cursor)?)),
            23 => Ok(Packet::NpcInfo(NpcInfo::from_body(&mut cursor)?)),
            42 => Ok(Packet::PlayerMana(PlayerMana::from_body(&mut cursor)?)),
            50 => Ok(Packet::PlayerBuffs(UpdatePlayerBuff::from_body(&mut cursor)?)),
            52 => Ok(Packet::Unlock(Unlock::from_body(&mut cursor)?)),
            57 => Ok(Packet::Packet57(Packet57::from_body(&mut cursor)?)),
            65 => Ok(Packet::PlayerNPCTeleport(PlayerNPCTeleport::from_body(&mut cursor)?)),
            68 => Ok(Packet::PlayerUuid(PlayerUuid::from_body(&mut cursor)?)),
            82 => Ok(Packet::Packet82(Packet82::from_body(&mut cursor)?)),
            83 => Ok(Packet::KillCount(KillCount::from_body(&mut cursor)?)),
            100 => Ok(Packet::NPCTeleportPortal(NPCTeleportPortal::from_body(&mut cursor)?)),
            101 | 136 => Ok(Packet::Unsupported(tag)),
            _ => Err(Error::UnknownTag(tag)),
        }
    }
}

} // verus!
