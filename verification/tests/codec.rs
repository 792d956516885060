use blaze::packet::decode;
use blaze::packet::get_qualified_string;
use blaze::packet::CPE;
use blaze::packet::BasePacket;
use blaze::packet::DecodeError;
use blaze::packet::LevelDataChunkPacket;
use blaze::packet::LevelFinalizePacket;
use blaze::packet::LevelInitializePacket;
use blaze::packet::Packet;
use blaze::packet::PacketType;
use blaze::packet::PingPacket;
use blaze::packet::PlayerIdentificationPacket;
use blaze::packet::Serializable;
use blaze::packet::ServerIdentificationPacket;
use blaze::packet::SpawnPlayerPacket;
use blaze::response::Response;

fn canonical_player_identification(username: &str, key: &str) -> PlayerIdentificationPacket {
    PlayerIdentificationPacket {
        base: BasePacket { packet_type: PacketType::Upstream, packet_id: 0x00 },
        protocol_version: 0x07,
        username: get_qualified_string(username),
        verification_key: get_qualified_string(key),
        unused: 0x00,
    }
}

#[test]
fn player_identification_round_trip() {
    let sixty_three = "a".repeat(63);
    let sixty_four = "b".repeat(64);
    let cases = ["", "m", sixty_three.as_str(), sixty_four.as_str()];
    for username in cases {
        for key in cases {
            let p = canonical_player_identification(username, key);
            let frame = p.build();
            assert_eq!(frame.len(), 131);
            match decode(&frame) {
                Ok(Packet::PlayerIdentification(q)) => {
                    assert_eq!(q.protocol_version, p.protocol_version);
                    assert_eq!(q.username, p.username);
                    assert_eq!(q.verification_key, p.verification_key);
                    assert_eq!(q.unused, p.unused);
                    assert_eq!(q.base.packet_id, p.base.packet_id);
                }
                Err(e) => panic!("round trip failed: {:?}", e),
            }
        }
    }
}

#[test]
fn text_padding_five_byte_username() {
    let padded = get_qualified_string("admin");
    let bytes = padded.as_bytes();
    assert_eq!(bytes.len(), 64);
    assert_eq!(&bytes[..5], b"admin");
    for i in 5..64 {
        assert_eq!(bytes[i], 0x20);
    }
}

#[test]
fn text_padding_boundaries() {
    assert_eq!(get_qualified_string("").as_bytes(), " ".repeat(64).as_bytes());
    let full = "c".repeat(64);
    assert_eq!(get_qualified_string(&full), full);
}

#[test]
fn unknown_opcode_is_an_error_not_a_default() {
    let mut frame = [0u8; 1024];
    frame[0] = 0x05;
    assert_eq!(decode(&frame).unwrap_err(), DecodeError::UnknownOpcode);
    let resp = Response { data: frame };
    assert_eq!(resp.read_packet().unwrap_err(), DecodeError::UnknownOpcode);
}

#[test]
fn truncated_frames() {
    assert_eq!(decode(&[]).unwrap_err(), DecodeError::Truncated);
    assert_eq!(decode(&[0x00; 130]).unwrap_err(), DecodeError::Truncated);
    assert!(decode(&[0x00; 131]).is_ok());
}

#[test]
fn decode_replaces_invalid_utf8() {
    let mut frame = [0u8; 1024];
    // opcode 0x00, protocol version 0x07, then a username of 64 invalid bytes
    frame[1] = 0x07;
    for i in 2..66 {
        frame[i] = 0xff;
    }
    for i in 66..130 {
        frame[i] = 0x20;
    }
    match decode(&frame) {
        Ok(Packet::PlayerIdentification(q)) => {
            assert_eq!(q.username, "\u{fffd}".repeat(64));
            assert_eq!(q.verification_key, " ".repeat(64));
        }
        Err(e) => panic!("decode failed: {:?}", e),
    }
}

#[test]
fn to_packet_reads_the_handshake_fields() {
    let mut frame = [0x20u8; 1024];
    frame[0] = 0x00;
    frame[1] = 0x07;
    frame[2] = b'm';
    frame[3] = b'o';
    frame[130] = CPE;
    let resp = Response { data: frame };
    match resp.to_packet() {
        Packet::PlayerIdentification(q) => {
            let mut expected = String::from("mo");
            expected.push_str(&" ".repeat(62));
            assert_eq!(q.protocol_version, 0x07);
            assert_eq!(q.username, expected);
            assert_eq!(q.verification_key, " ".repeat(64));
            assert_eq!(q.unused, CPE);
        }
    }
}

#[test]
fn server_identification_wire_layout() {
    let p = ServerIdentificationPacket::new("Blaze", "A server", 0x64);
    let w = p.build();
    assert_eq!(w.len(), 131);
    assert_eq!(w[0], 0x00);
    assert_eq!(w[1], 0x07);
    assert_eq!(&w[2..7], b"Blaze");
    for i in 7..66 {
        assert_eq!(w[i], 0x20);
    }
    assert_eq!(&w[66..74], b"A server");
    for i in 74..130 {
        assert_eq!(w[i], 0x20);
    }
    assert_eq!(w[130], 0x64);
}

#[test]
fn level_initialize_and_ping_wire_layout() {
    assert_eq!(LevelInitializePacket::new().build(), vec![0x02]);
    assert_eq!(PingPacket::new().build(), vec![0x01]);
}

#[test]
fn level_data_chunk_wire_layout() {
    let data: Vec<u8> = (0..1024u32).map(|i| (i % 251) as u8).collect();
    let p = LevelDataChunkPacket::new(1024, data.clone(), 50);
    let w = p.build();
    assert_eq!(w.len(), 1028);
    assert_eq!(w[0], 0x03);
    // 1024 in big-endian
    assert_eq!(w[1], 0x04);
    assert_eq!(w[2], 0x00);
    assert_eq!(&w[3..1027], data.as_slice());
    assert_eq!(w[1027], 50);
}

#[test]
fn level_data_chunk_short_payload_is_zero_filled() {
    let p = LevelDataChunkPacket::new(3, vec![9, 8, 7], 100);
    let w = p.build();
    assert_eq!(w.len(), 1028);
    assert_eq!(w[1], 0x00);
    assert_eq!(w[2], 0x03);
    assert_eq!(&w[3..6], &[9, 8, 7]);
    for i in 6..1027 {
        assert_eq!(w[i], 0x00);
    }
}

#[test]
fn level_finalize_wire_layout() {
    let p = LevelFinalizePacket::new();
    assert_eq!((p.x, p.y, p.z), (256, 64, 256));
    let w = p.build();
    assert_eq!(w, vec![0x04, 0x01, 0x00, 0x00, 0x40, 0x01, 0x00]);
}

#[test]
fn spawn_player_wire_layout() {
    let p = SpawnPlayerPacket::new("explorer");
    let w = p.build();
    assert_eq!(w.len(), 74);
    assert_eq!(w[0], 0x07);
    // player id -1 in two's complement
    assert_eq!(w[1], 0xff);
    assert_eq!(&w[2..10], b"explorer");
    for i in 10..66 {
        assert_eq!(w[i], 0x20);
    }
    // x = 256, y = 1090, z = 256, yaw = 90, pitch = 30
    assert_eq!(&w[66..74], &[0x01, 0x00, 0x04, 0x42, 0x01, 0x00, 90, 30]);
}
