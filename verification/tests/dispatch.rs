use terraria_protocol::error::Error;
use terraria_protocol::packets::{
    Magic, NPCTeleportPortal, Packet, PacketBody, PlayerNPCTeleport, RawBody, Unlock,
    UpdatePlayerBuff,
};
use terraria_protocol::serialization::SliceCursor;

const SUPPORTED: [u8; 21] =
    [1, 3, 4, 7, 8, 9, 10, 11, 12, 21, 22, 23, 42, 50, 52, 57, 65, 68, 82, 83, 100];

fn decode(bytes: &[u8]) -> Result<Packet, Error> {
    let mut message = bytes.to_vec();
    let r = Packet::from_slice(message.as_mut_slice());
    assert_eq!(message, bytes);
    r
}

fn through_the_wire<P: PacketBody>(packet: &P) -> Result<Packet, Error> {
    let mut buffer = vec![0u8; 1024];
    let mut cursor = SliceCursor::new(buffer.as_mut_slice());
    assert_eq!(packet.serialize(&mut cursor), Ok(()));
    let n = cursor.finish();
    let length = u16::from_le_bytes([buffer[0], buffer[1]]) as usize;
    assert_eq!(length, n);
    Packet::from_slice(&mut buffer[2..n])
}

#[test]
fn decoding_the_magic_message() {
    let message = [
        0x0f, 0x00, 0x01, 0x0b, 0x54, 0x65, 0x72, 0x72, 0x61, 0x72, 0x69, 0x61, 0x32, 0x32, 0x38,
    ];
    assert_eq!(
        decode(&message[2..]),
        Ok(Packet::Magic(Magic { magic: "Terraria228".to_string() }))
    );
}

#[test]
fn a_lone_tag_with_a_body_owed_is_truncated() {
    assert_eq!(decode(&[1]), Err(Error::TruncatedInput));
    assert_eq!(decode(&[50]), Err(Error::TruncatedInput));
    assert_eq!(decode(&[52]), Err(Error::TruncatedInput));
    assert_eq!(decode(&[65]), Err(Error::TruncatedInput));
    assert_eq!(decode(&[100]), Err(Error::TruncatedInput));
    assert_eq!(decode(&[52, 1, 2, 3, 4]), Err(Error::TruncatedInput));
}

#[test]
fn an_empty_message_is_truncated() {
    assert_eq!(decode(&[]), Err(Error::TruncatedInput));
}

#[test]
fn tag_255_is_unknown() {
    assert_eq!(decode(&[255]), Err(Error::UnknownTag(255)));
    assert_eq!(decode(&[255, 1, 2, 3]), Err(Error::UnknownTag(255)));
}

#[test]
fn tag_101_is_acknowledged_and_not_decoded() {
    assert_eq!(decode(&[101]), Ok(Packet::Unsupported(101)));
    assert_eq!(decode(&[101, 1, 2, 3]), Ok(Packet::Unsupported(101)));
    assert_eq!(decode(&[136]), Ok(Packet::Unsupported(136)));
    assert_eq!(decode(&[136, 0xff]), Ok(Packet::Unsupported(136)));
}

#[test]
fn every_tag_is_decoded_acknowledged_or_refused() {
    for tag in 0..=u8::MAX {
        let mut message = vec![0u8; 65];
        message[0] = tag;
        let r = decode(&message);
        if tag == 101 || tag == 136 {
            assert_eq!(r, Ok(Packet::Unsupported(tag)));
        } else if SUPPORTED.contains(&tag) {
            let packet = r.unwrap();
            assert!(!matches!(packet, Packet::Unsupported(_)));
        } else {
            assert_eq!(r, Err(Error::UnknownTag(tag)));
        }
    }
}

#[test]
fn every_supported_tag_gives_its_own_variant() {
    let body = vec![0u8; 64];
    let mut seen: Vec<String> = Vec::new();
    for tag in SUPPORTED {
        let mut message = vec![tag];
        message.extend_from_slice(&body);
        let packet = decode(&message).unwrap();
        let expected = match tag {
            1 => Packet::Magic(Magic { magic: String::new() }),
            3 => Packet::Packet3(RawBody { bytes: body.clone() }),
            4 => Packet::PlayerInfo(RawBody { bytes: body.clone() }),
            7 => Packet::Packet7(RawBody { bytes: body.clone() }),
            8 => Packet::Packet8(RawBody { bytes: body.clone() }),
            9 => Packet::Packet9(RawBody { bytes: body.clone() }),
            10 => Packet::CompressedTileBlock(RawBody { bytes: body.clone() }),
            11 => Packet::Packet11(RawBody { bytes: body.clone() }),
            12 => Packet::ToSpawn(RawBody { bytes: body.clone() }),
            21 => Packet::ItemMoved(RawBody { bytes: body.clone() }),
            22 => Packet::Packet22(RawBody { bytes: body.clone() }),
            23 => Packet::NpcInfo(RawBody { bytes: body.clone() }),
            42 => Packet::PlayerMana(RawBody { bytes: body.clone() }),
            50 => Packet::PlayerBuffs(UpdatePlayerBuff { player_id: 0, bufftype: [0; 22] }),
            52 => Packet::Unlock(Unlock { kind: 0, x: 0, y: 0 }),
            57 => Packet::Packet57(RawBody { bytes: body.clone() }),
            65 => Packet::PlayerNPCTeleport(PlayerNPCTeleport {
                flags: 0,
                target_id: 0,
                x: 0,
                y: 0,
                style: 0,
                extrainfo: 0,
            }),
            68 => Packet::PlayerUuid(RawBody { bytes: body.clone() }),
            82 => Packet::Packet82(RawBody { bytes: body.clone() }),
            83 => Packet::KillCount(RawBody { bytes: body.clone() }),
            100 => Packet::NPCTeleportPortal(NPCTeleportPortal {
                npc_id: 0,
                portal_color_index: 0,
                new_position_x: 0,
                new_position_y: 0,
                velocity_x: 0,
                velocity_y: 0,
            }),
            _ => unreachable!(),
        };
        assert_eq!(packet, expected);
        let name = format!("{:?}", packet);
        let variant = name.split('(').next().unwrap().to_string();
        assert!(!seen.contains(&variant));
        seen.push(variant);
    }
    assert_eq!(seen.len(), 21);
}

#[test]
fn what_is_written_is_read_back() {
    let magic = Magic { magic: "Terraria228".to_string() };
    assert_eq!(through_the_wire(&magic), Ok(Packet::Magic(magic)));
    let unlock = Unlock { kind: 1, x: -300, y: 4000 };
    assert_eq!(through_the_wire(&unlock), Ok(Packet::Unlock(unlock)));
    let teleport = PlayerNPCTeleport {
        flags: 8,
        target_id: i16::MIN,
        x: 0x4248_0000,
        y: -0x3db8_0000,
        style: 255,
        extrainfo: -7,
    };
    assert_eq!(through_the_wire(&teleport), Ok(Packet::PlayerNPCTeleport(teleport)));
    let portal = NPCTeleportPortal {
        npc_id: 65535,
        portal_color_index: i16::MAX,
        new_position_x: i32::MIN,
        new_position_y: i32::MAX,
        velocity_x: 0,
        velocity_y: -1,
    };
    assert_eq!(through_the_wire(&portal), Ok(Packet::NPCTeleportPortal(portal)));
    let mut bufftype = [0u16; 22];
    bufftype[0] = 1;
    bufftype[21] = u16::MAX;
    let buffs = UpdatePlayerBuff { player_id: 200, bufftype };
    assert_eq!(through_the_wire(&buffs), Ok(Packet::PlayerBuffs(buffs)));
    let info: RawBody<4> = RawBody { bytes: vec![9, 8, 7] };
    assert_eq!(through_the_wire(&info), Ok(Packet::PlayerInfo(info)));
    let tiles: RawBody<10> = RawBody { bytes: (0..=255).collect() };
    assert_eq!(through_the_wire(&tiles), Ok(Packet::CompressedTileBlock(tiles)));
    let kills: RawBody<83> = RawBody { bytes: vec![] };
    assert_eq!(through_the_wire(&kills), Ok(Packet::KillCount(kills)));
}

#[test]
fn bytes_behind_a_body_of_fixed_length_are_left_alone() {
    assert_eq!(
        decode(&[52, 2, 1, 0, 0xff, 0xff, 9, 9, 9]),
        Ok(Packet::Unlock(Unlock { kind: 2, x: 1, y: -1 }))
    );
    assert_eq!(decode(&[1, 1, b'a', b'b']), Ok(Packet::Magic(Magic { magic: "a".to_string() })));
}

#[test]
fn a_string_that_is_not_utf8_is_an_error_of_its_own() {
    assert_eq!(decode(&[1, 2, 0xff, 0xff]), Err(Error::InvalidUtf8));
}
