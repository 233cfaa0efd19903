use azalea_protocol::connect::PacketFlow;
use azalea_protocol::error::DecodeError;
use azalea_protocol::game::{GamePacket, ServerboundJigsawGeneratePacket};
use azalea_protocol::handshake::{ClientIntentionPacket, HandshakePacket};
use azalea_protocol::login::{ClientboundGameProfilePacket, LoginPacket};
use azalea_protocol::mc_buf::{read_bool, read_i16, read_i64, read_i8, read_u16, read_u32, read_u64, write_bool, write_i16, write_i64, write_i8, write_u32};
use azalea_protocol::packets::{read_packet, write_packet, ConnectionProtocol, Packet, ProtocolPacket};
use azalea_protocol::position::{read_block_pos, write_block_pos, BlockPos};
use azalea_protocol::profile::{GameProfile, Uuid};
use azalea_protocol::status::{ClientboundStatusResponsePacket, ServerboundStatusRequestPacket, StatusPacket};
use azalea_protocol::strings::{read_utf_with_len, write_utf};
use azalea_protocol::varint::{read_varint_i32, read_varint_i64, read_varint_u32, read_varint_u64, write_varint_i32, write_varint_i64, write_varint_u32, write_varint_u64};

fn varint_u32_round_trip(v: u32) -> Vec<u8> {
    let mut buf: Vec<u8> = Vec::new();
    write_varint_u32(v, &mut buf);
    let mut pos: usize = 0;
    let got = read_varint_u32(buf.as_slice(), &mut pos).unwrap();
    assert_eq!(got, v);
    assert_eq!(pos, buf.len());
    buf
}

#[test]
fn varint_boundary_values_round_trip() {
    assert_eq!(varint_u32_round_trip(0), vec![0x00]);
    assert_eq!(varint_u32_round_trip(127), vec![0x7f]);
    assert_eq!(varint_u32_round_trip(128), vec![0x80, 0x01]);
    assert_eq!(varint_u32_round_trip(16383), vec![0xff, 0x7f]);
    assert_eq!(varint_u32_round_trip(16384), vec![0x80, 0x80, 0x01]);
    assert_eq!(
        varint_u32_round_trip(2_147_483_647),
        vec![0xff, 0xff, 0xff, 0xff, 0x07]
    );
    // -1 carried as its unsigned bit pattern
    assert_eq!(
        varint_u32_round_trip(u32::MAX),
        vec![0xff, 0xff, 0xff, 0xff, 0x0f]
    );
}

#[test]
fn varint_signed_minus_one_round_trips() {
    let mut buf: Vec<u8> = Vec::new();
    write_varint_i32(-1, &mut buf);
    assert_eq!(buf, vec![0xff, 0xff, 0xff, 0xff, 0x0f]);
    let mut pos: usize = 0;
    assert_eq!(read_varint_i32(buf.as_slice(), &mut pos), Ok(-1));
    assert_eq!(pos, 5);
}

#[test]
fn varint_six_continuation_bytes_is_malformed() {
    let data: Vec<u8> = vec![0x80, 0x80, 0x80, 0x80, 0x80, 0x80];
    let mut pos: usize = 0;
    assert_eq!(
        read_varint_u32(data.as_slice(), &mut pos),
        Err(DecodeError::MalformedVarInt)
    );
}

#[test]
fn varint_truncated_stream_is_eof() {
    let data: Vec<u8> = vec![0x80, 0x80];
    let mut pos: usize = 0;
    assert_eq!(
        read_varint_u32(data.as_slice(), &mut pos),
        Err(DecodeError::UnexpectedEof)
    );
}

#[test]
fn varint_u64_wide_value_round_trips() {
    let mut buf: Vec<u8> = Vec::new();
    write_varint_u64(u64::MAX, &mut buf);
    assert_eq!(buf.len(), 10);
    let mut pos: usize = 0;
    assert_eq!(read_varint_u64(buf.as_slice(), &mut pos), Ok(u64::MAX));
    assert_eq!(pos, 10);
}

#[test]
fn fixed_ints_are_big_endian() {
    let mut buf: Vec<u8> = Vec::new();
    write_u32(0x0102_0304, &mut buf);
    assert_eq!(buf, vec![1, 2, 3, 4]);
    let mut pos: usize = 0;
    assert_eq!(read_u32(buf.as_slice(), &mut pos), Ok(0x0102_0304));
    assert_eq!(pos, 4);

    let mut pos2: usize = 0;
    assert_eq!(
        read_u16(vec![0xab, 0xcd].as_slice(), &mut pos2),
        Ok(0xabcd)
    );

    let mut pos3: usize = 0;
    assert_eq!(
        read_u64(vec![0, 0, 0, 0, 0, 0, 1, 0].as_slice(), &mut pos3),
        Ok(256)
    );
}

#[test]
fn fixed_int_truncated_is_eof() {
    let mut pos: usize = 0;
    assert_eq!(
        read_u32(vec![1, 2, 3].as_slice(), &mut pos),
        Err(DecodeError::UnexpectedEof)
    );
    assert_eq!(pos, 0);
}

#[test]
fn bool_lenient_read_strict_write() {
    let mut buf: Vec<u8> = Vec::new();
    write_bool(true, &mut buf);
    write_bool(false, &mut buf);
    assert_eq!(buf, vec![1, 0]);
    let mut pos: usize = 0;
    assert_eq!(read_bool(vec![2].as_slice(), &mut pos), Ok(true));
}

#[test]
fn string_bound_rejected_before_payload() {
    // length prefix claims 1000 bytes; bound of 16 characters allows 64
    let data: Vec<u8> = vec![0xe8, 0x07];
    let mut pos: usize = 0;
    assert_eq!(
        read_utf_with_len(data.as_slice(), &mut pos, 16),
        Err(DecodeError::StringTooLong)
    );
}

#[test]
fn string_invalid_utf8_rejected() {
    let data: Vec<u8> = vec![0x01, 0xff];
    let mut pos: usize = 0;
    assert_eq!(
        read_utf_with_len(data.as_slice(), &mut pos, 16),
        Err(DecodeError::InvalidUtf8)
    );
}

#[test]
fn string_multibyte_round_trips() {
    let mut buf: Vec<u8> = Vec::new();
    write_utf("héllo", &mut buf).unwrap();
    assert_eq!(buf[0] as usize, buf.len() - 1);
    let mut pos: usize = 0;
    let got = read_utf_with_len(buf.as_slice(), &mut pos, 16).unwrap();
    assert_eq!(got, "héllo");
    assert_eq!(pos, buf.len());
}

#[test]
fn position_extremes_round_trip() {
    let p = BlockPos {
        x: -33554432,
        y: -2048,
        z: 33554431,
    };
    let mut buf: Vec<u8> = Vec::new();
    write_block_pos(&p, &mut buf);
    assert_eq!(buf.len(), 8);
    let mut pos: usize = 0;
    assert_eq!(read_block_pos(buf.as_slice(), &mut pos), Ok(p));
    assert_eq!(pos, 8);
}

#[test]
fn position_one_past_boundary_wraps() {
    // x = 33554432 does not fit 26 bits; the fixed policy wraps it modulo
    // the field width, landing on the minimum representable value.
    let p = BlockPos {
        x: 33554432,
        y: 0,
        z: 0,
    };
    let mut buf: Vec<u8> = Vec::new();
    write_block_pos(&p, &mut buf);
    let mut pos: usize = 0;
    let got = read_block_pos(buf.as_slice(), &mut pos).unwrap();
    assert_eq!(
        got,
        BlockPos {
            x: -33554432,
            y: 0,
            z: 0
        }
    );
}

#[test]
fn uuid_words_round_trip() {
    let words: [u32; 4] = [0x01020304, 0xa1b2c3d4, 0x00000000, 0xffffffff];
    let u = Uuid::from_int_array(words);
    assert_eq!(u.to_int_array(), words);
    assert_eq!(u.raw, 0x01020304_a1b2c3d4_00000000_ffffffff_u128);
}

#[test]
fn jigsaw_generate_dispatches_from_game_serverbound_table() {
    // pos-bits ++ varint(levels) ++ bool-byte, led by the packet's id
    let p = BlockPos {
        x: 5,
        y: -7,
        z: 1000,
    };
    let mut body: Vec<u8> = Vec::new();
    write_varint_u32(0x0e, &mut body);
    write_block_pos(&p, &mut body);
    write_varint_u32(3, &mut body);
    write_bool(true, &mut body);

    let mut pos: usize = 0;
    let got = read_packet(
        &ConnectionProtocol::Game,
        &PacketFlow::ClientToServer,
        body.as_slice(),
        &mut pos,
    )
    .unwrap();
    assert_eq!(pos, body.len());
    match got {
        Packet::Game(GamePacket::ServerboundJigsawGeneratePacket(j)) => {
            assert_eq!(j.pos, p);
            assert_eq!(j.levels, 3);
            assert!(j.keep_jigsaws);
        }
        other => panic!("wrong packet: {:?}", other),
    }
}

#[test]
fn unassigned_id_is_unknown_packet() {
    let mut body: Vec<u8> = Vec::new();
    write_varint_u32(0x0d, &mut body);
    let mut pos: usize = 0;
    assert_eq!(
        read_packet(
            &ConnectionProtocol::Game,
            &PacketFlow::ClientToServer,
            body.as_slice(),
            &mut pos,
        ),
        Err(DecodeError::UnknownPacketId)
    );
}

#[test]
fn game_profile_packet_round_trips() {
    let profile = GameProfile::new(
        Uuid::from_int_array([1, 2, 3, 4]),
        String::from("Notchy_Player_16"),
    );
    let packet = ClientboundGameProfilePacket {
        game_profile: profile,
    };
    let envelope = Packet::Login(packet.clone().get());
    let mut buf: Vec<u8> = Vec::new();
    write_packet(&envelope, &mut buf).unwrap();
    let mut pos: usize = 0;
    let got = read_packet(
        &ConnectionProtocol::Login,
        &PacketFlow::ServerToClient,
        buf.as_slice(),
        &mut pos,
    )
    .unwrap();
    assert_eq!(pos, buf.len());
    assert_eq!(got, envelope);
}

#[test]
fn game_profile_empty_name_encodes_byte_identically() {
    let packet = ClientboundGameProfilePacket {
        game_profile: GameProfile::new(Uuid { raw: 7 }, String::new()),
    };
    let mut buf: Vec<u8> = Vec::new();
    packet.write(&mut buf).unwrap();
    // four 32-bit words then a zero-length string
    assert_eq!(
        buf,
        vec![0, 0, 0, 0, 0, 0, 0, 0, 0, 0, 0, 0, 0, 0, 0, 7, 0]
    );
    let mut pos: usize = 0;
    let got = ClientboundGameProfilePacket::read(buf.as_slice(), &mut pos).unwrap();
    let LoginPacket::ClientboundGameProfilePacket(q) = got;
    assert_eq!(q, packet);
    let mut buf2: Vec<u8> = Vec::new();
    q.write(&mut buf2).unwrap();
    assert_eq!(buf2, buf);
}

#[test]
fn client_intention_packet_round_trips() {
    let packet = ClientIntentionPacket {
        protocol_version: azalea_protocol::PROTOCOL_VERSION,
        hostname: String::from("play.example.net"),
        port: 25565,
        intention: ConnectionProtocol::Login,
    };
    let envelope = Packet::Handshake(HandshakePacket::ClientIntentionPacket(packet.clone()));
    let mut buf: Vec<u8> = Vec::new();
    write_packet(&envelope, &mut buf).unwrap();
    let mut pos: usize = 0;
    let got = read_packet(
        &ConnectionProtocol::Handshake,
        &PacketFlow::ClientToServer,
        buf.as_slice(),
        &mut pos,
    )
    .unwrap();
    assert_eq!(pos, buf.len());
    assert_eq!(got, envelope);
}

#[test]
fn status_packets_round_trip_in_both_directions() {
    let response = Packet::Status(StatusPacket::ClientboundStatusResponsePacket(
        ClientboundStatusResponsePacket {
            status: String::from("{\"description\":{\"text\":\"hi\"}}"),
        },
    ));
    let mut buf: Vec<u8> = Vec::new();
    write_packet(&response, &mut buf).unwrap();
    let mut pos: usize = 0;
    let got = read_packet(
        &ConnectionProtocol::Status,
        &PacketFlow::ServerToClient,
        buf.as_slice(),
        &mut pos,
    )
    .unwrap();
    assert_eq!(pos, buf.len());
    assert_eq!(got, response);

    let request = Packet::Status(StatusPacket::ServerboundStatusRequestPacket(
        ServerboundStatusRequestPacket {},
    ));
    let mut buf2: Vec<u8> = Vec::new();
    write_packet(&request, &mut buf2).unwrap();
    assert_eq!(buf2, vec![0x00]);
    let mut pos2: usize = 0;
    let got2 = read_packet(
        &ConnectionProtocol::Status,
        &PacketFlow::ClientToServer,
        buf2.as_slice(),
        &mut pos2,
    )
    .unwrap();
    assert_eq!(got2, request);
}

#[test]
fn connection_protocol_tags_round_trip() {
    for phase in [
        ConnectionProtocol::Handshake,
        ConnectionProtocol::Game,
        ConnectionProtocol::Status,
        ConnectionProtocol::Login,
    ] {
        let mut buf: Vec<u8> = Vec::new();
        phase.write_into(&mut buf).unwrap();
        let mut pos: usize = 0;
        assert_eq!(
            ConnectionProtocol::read_into(buf.as_slice(), &mut pos),
            Ok(phase)
        );
        assert_eq!(pos, buf.len());
    }
    assert_eq!(ConnectionProtocol::from_i32(-1), Some(ConnectionProtocol::Handshake));
    assert_eq!(ConnectionProtocol::from_i32(0), Some(ConnectionProtocol::Game));
    assert_eq!(ConnectionProtocol::from_i32(1), Some(ConnectionProtocol::Status));
    assert_eq!(ConnectionProtocol::from_i32(2), Some(ConnectionProtocol::Login));
    assert_eq!(ConnectionProtocol::from_i32(3), None);
}

#[test]
fn invalid_intention_tag_is_rejected() {
    let mut buf: Vec<u8> = Vec::new();
    write_varint_i32(5, &mut buf);
    let mut pos: usize = 0;
    assert_eq!(
        ConnectionProtocol::read_into(buf.as_slice(), &mut pos),
        Err(DecodeError::InvalidIntention)
    );
}

#[test]
fn every_envelope_variant_is_reachable_by_decode() {
    // one decodable packet per phase table that holds one, matched
    // exhaustively on the envelope
    let packets: Vec<(ConnectionProtocol, PacketFlow, Packet)> = vec![
        (
            ConnectionProtocol::Game,
            PacketFlow::ClientToServer,
            Packet::Game(GamePacket::ServerboundJigsawGeneratePacket(
                ServerboundJigsawGeneratePacket {
                    pos: BlockPos { x: 1, y: 2, z: 3 },
                    levels: 4,
                    keep_jigsaws: false,
                },
            )),
        ),
        (
            ConnectionProtocol::Handshake,
            PacketFlow::ClientToServer,
            Packet::Handshake(HandshakePacket::ClientIntentionPacket(ClientIntentionPacket {
                protocol_version: 758,
                hostname: String::from("localhost"),
                port: 25565,
                intention: ConnectionProtocol::Status,
            })),
        ),
        (
            ConnectionProtocol::Login,
            PacketFlow::ServerToClient,
            Packet::Login(LoginPacket::ClientboundGameProfilePacket(
                ClientboundGameProfilePacket {
                    game_profile: GameProfile::new(Uuid { raw: 42 }, String::from("player")),
                },
            )),
        ),
        (
            ConnectionProtocol::Status,
            PacketFlow::ServerToClient,
            Packet::Status(StatusPacket::ClientboundStatusResponsePacket(
                ClientboundStatusResponsePacket {
                    status: String::from("{}"),
                },
            )),
        ),
    ];
    for (phase, flow, packet) in packets {
        let mut buf: Vec<u8> = Vec::new();
        write_packet(&packet, &mut buf).unwrap();
        let mut pos: usize = 0;
        let got = read_packet(&phase, &flow, buf.as_slice(), &mut pos).unwrap();
        assert_eq!(pos, buf.len());
        match &got {
            Packet::Game(GamePacket::ServerboundJigsawGeneratePacket(_)) => {
                assert_eq!(phase, ConnectionProtocol::Game)
            }
            Packet::Handshake(HandshakePacket::ClientIntentionPacket(_)) => {
                assert_eq!(phase, ConnectionProtocol::Handshake)
            }
            Packet::Login(LoginPacket::ClientboundGameProfilePacket(_)) => {
                assert_eq!(phase, ConnectionProtocol::Login)
            }
            Packet::Status(StatusPacket::ClientboundStatusResponsePacket(_))
            | Packet::Status(StatusPacket::ServerboundStatusRequestPacket(_)) => {
                assert_eq!(phase, ConnectionProtocol::Status)
            }
        }
        assert_eq!(got, packet);
    }
}

#[test]
fn packet_ids_match_their_tables() {
    assert_eq!(
        GamePacket::ServerboundJigsawGeneratePacket(ServerboundJigsawGeneratePacket {
            pos: BlockPos { x: 0, y: 0, z: 0 },
            levels: 0,
            keep_jigsaws: false,
        })
        .id(),
        0x0e
    );
    assert_eq!(
        LoginPacket::ClientboundGameProfilePacket(ClientboundGameProfilePacket {
            game_profile: GameProfile::new(Uuid { raw: 0 }, String::new()),
        })
        .id(),
        0x02
    );
    assert_eq!(
        HandshakePacket::ClientIntentionPacket(ClientIntentionPacket {
            protocol_version: 0,
            hostname: String::new(),
            port: 0,
            intention: ConnectionProtocol::Handshake,
        })
        .id(),
        0x00
    );
}

#[test]
fn truncated_packet_body_is_eof_not_garbage() {
    // a jigsaw-generate id followed by only four of the eight position bytes
    let body: Vec<u8> = vec![0x0e, 1, 2, 3, 4];
    let mut pos: usize = 0;
    assert_eq!(
        read_packet(
            &ConnectionProtocol::Game,
            &PacketFlow::ClientToServer,
            body.as_slice(),
            &mut pos,
        ),
        Err(DecodeError::UnexpectedEof)
    );
}

#[test]
fn identifier_word_order_matches_external_uuid_bytes() {
    let raw: u128 = 0x0102_0304_0506_0708_090a_0b0c_0d0e_0f10;
    let ours = Uuid { raw };
    let theirs = uuid::Uuid::from_u128(raw);
    let bytes = theirs.as_bytes();
    let words = ours.to_int_array();
    for i in 0..4 {
        let w = u32::from_be_bytes([
            bytes[4 * i],
            bytes[4 * i + 1],
            bytes[4 * i + 2],
            bytes[4 * i + 3],
        ]);
        assert_eq!(words[i], w);
    }
}

#[test]
fn signed_fixed_ints_reinterpret_bit_patterns() {
    let mut buf: Vec<u8> = Vec::new();
    write_i8(-1, &mut buf);
    write_i16(-2, &mut buf);
    write_i64(-3, &mut buf);
    assert_eq!(buf[0], 0xff);
    assert_eq!(&buf[1..3], &[0xff, 0xfe]);
    let mut pos: usize = 0;
    assert_eq!(read_i8(buf.as_slice(), &mut pos), Ok(-1));
    assert_eq!(read_i16(buf.as_slice(), &mut pos), Ok(-2));
    assert_eq!(read_i64(buf.as_slice(), &mut pos), Ok(-3));
    assert_eq!(pos, buf.len());
}

#[test]
fn signed_varint_i64_round_trips() {
    let mut buf: Vec<u8> = Vec::new();
    write_varint_i64(-1, &mut buf);
    assert_eq!(buf.len(), 10);
    let mut pos: usize = 0;
    assert_eq!(read_varint_i64(buf.as_slice(), &mut pos), Ok(-1));
    assert_eq!(pos, 10);
}
