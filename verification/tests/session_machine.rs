use blaze::packet::get_qualified_string;
use blaze::packet::BasePacket;
use blaze::packet::PacketType;
use blaze::packet::PlayerIdentificationPacket;
use blaze::packet::Serializable;
use blaze::response::Response;
use blaze::session::Session;
use blaze::session::SessionState;

fn handshake_frame() -> Response {
    let p = PlayerIdentificationPacket {
        base: BasePacket { packet_type: PacketType::Upstream, packet_id: 0x00 },
        protocol_version: 0x07,
        username: get_qualified_string("explorer"),
        verification_key: get_qualified_string(""),
        unused: 0x00,
    };
    let bytes = p.build();
    let mut data = [0u8; 1024];
    data[..bytes.len()].copy_from_slice(&bytes);
    Response { data }
}

fn fresh_session() -> Session {
    Session::new(String::from("Blaze"), String::from("A blazing fast server"))
}

#[test]
fn handshake_advances_to_streaming_and_replies() {
    let mut session = fresh_session();
    assert_eq!(session.state, SessionState::AwaitingHandshake);
    let reply = session.handle_frame(&handshake_frame());
    assert_eq!(session.state, SessionState::Streaming);
    let reply = reply.expect("a server identification is owed");
    assert_eq!(reply.len(), 131);
    assert_eq!(reply[0], 0x00);
    assert_eq!(reply[1], 0x07);
    assert_eq!(&reply[2..7], b"Blaze");
    for i in 7..66 {
        assert_eq!(reply[i], 0x20);
    }
    assert_eq!(&reply[66..87], b"A blazing fast server");
    assert_eq!(reply[130], 0x64);
}

#[test]
fn handshake_gate_closes_on_wrong_opcode() {
    // A level-data-chunk-shaped frame arriving instead of the handshake.
    let mut data = [0u8; 1024];
    data[0] = 0x03;
    let mut session = fresh_session();
    let reply = session.handle_frame(&Response { data });
    assert!(reply.is_none());
    assert_eq!(session.state, SessionState::Closed);
}

#[test]
fn empty_world_still_frames_the_transfer() {
    // L = 0: no chunks, but the transfer is still framed by level initialize
    // and level finalize.
    let mut session = fresh_session();
    session.handle_frame(&handshake_frame());
    let frames = session.stream_world(&Vec::new(), 256, 64, 256);
    assert_eq!(session.state, SessionState::Connected);
    assert_eq!(frames.len(), 2);
    assert_eq!(frames[0], vec![0x02]);
    assert_eq!(frames[1], vec![0x04, 0x01, 0x00, 0x00, 0x40, 0x01, 0x00]);
}

#[test]
fn world_push_sends_every_chunk_in_order() {
    let buffer: Vec<u8> = (0..2500usize).map(|i| (i % 249) as u8).collect();
    let mut session = fresh_session();
    session.handle_frame(&handshake_frame());
    let frames = session.stream_world(&buffer, 512, 128, 512);
    assert_eq!(session.state, SessionState::Connected);
    assert_eq!(frames.len(), 5);
    assert_eq!(frames[0], vec![0x02]);
    let mut last_percent: u8 = 0;
    for (i, frame) in frames[1..4].iter().enumerate() {
        assert_eq!(frame.len(), 1028);
        assert_eq!(frame[0], 0x03);
        assert_eq!(frame[1], 0x04);
        assert_eq!(frame[2], 0x00);
        let start = 1024 * i;
        let real = if start + 1024 <= buffer.len() { 1024 } else { buffer.len() - start };
        assert_eq!(&frame[3..3 + real], &buffer[start..start + real]);
        assert!(frame[1027] >= last_percent);
        last_percent = frame[1027];
    }
    assert_eq!(last_percent, 100);
    // finalize with extents 512, 128, 512
    assert_eq!(frames[4], vec![0x04, 0x02, 0x00, 0x00, 0x80, 0x02, 0x00]);
}

#[test]
fn close_is_terminal() {
    let mut session = fresh_session();
    session.close();
    assert_eq!(session.state, SessionState::Closed);
}
