//! The per-connection session state machine.  A session is created awaiting a
//! handshake; a player identification frame advances it to streaming, any
//! other frame closes it.  Streaming is a one-shot push of the whole world —
//! level initialize, every data chunk in order, level finalize — after which
//! the session counts as connected.  A protocol violation or a transport
//! failure is fatal to the one session, never to the process.

use vstd::prelude::*;
use vstd::utf8::encode_utf8;

use crate::packet::BasePacket;
use crate::packet::LevelFinalizePacket;
use crate::packet::LevelInitializePacket;
use crate::packet::Packet;
use crate::packet::PacketType;
use crate::packet::Serializable;
use crate::packet::ServerIdentificationPacket;
use crate::response::Response;
use crate::wire::be_u16;
use crate::wire::lemma_right_padded;
use crate::wire::padded_chunk;
use crate::wire::padded_text;
use crate::wire::u16_of_i16;
use crate::world::chunk_progress;
use crate::world::chunk_slice;
use crate::world::lemma_progress_bounds;
use crate::world::num_chunks;
use crate::world::World;

verus! {

/// The protocol state of one connection.
#[derive(Clone, Copy, Debug, PartialEq, Eq, Structural)]
pub enum SessionState {
    /// Initial: nothing received yet.
    AwaitingHandshake,
    /// Handshake replied; the world push is owed.
    Streaming,
    /// World pushed; the client has joined.  Terminal here.
    Connected,
    /// Torn down after a violation or a transport failure.  Terminal.
    Closed,
}

/// Server-side state for one connected client.
pub struct Session {
    pub state: SessionState,
    pub server_name: String,
    pub server_motd: String,
}

/// The handshake reply frame: a server identification under protocol version
/// 7, carrying the server's name and message of the day as 64-byte text
/// fields and the operator user type.
pub open spec fn handshake_reply(name: Seq<char>, motd: Seq<char>) -> Seq<u8> {
    seq![0x00u8, 0x07u8] + padded_text(encode_utf8(name)) + padded_text(encode_utf8(motd))
        + seq![0x64u8]
}

/// The frame of the `i`-th (0-indexed) of `total` chunks of buffer `b`.
pub open spec fn chunk_frame(b: Seq<u8>, i: int, total: int) -> Seq<u8> {
    seq![0x03u8] + be_u16(1024u16) + padded_chunk(chunk_slice(b, i)) + seq![
        chunk_progress(i + 1, total) as u8,
    ]
}

/// The level finalize frame carrying the world's extents.
pub open spec fn finalize_frame(x: i16, y: i16, z: i16) -> Seq<u8> {
    seq![0x04u8] + be_u16(u16_of_i16(x)) + be_u16(u16_of_i16(y)) + be_u16(u16_of_i16(z))
}

impl Session {
    /// Both stored texts fit a 64-byte field.
    pub open spec fn wf(self) -> bool {
        encode_utf8(self.server_name@).len() <= 64 && encode_utf8(self.server_motd@).len() <= 64
    }

    /// Opens a session for a freshly accepted connection.
    pub fn new(server_name: String, server_motd: String) -> (r: Session)
        requires
            encode_utf8(server_name@).len() <= 64,
            encode_utf8(server_motd@).len() <= 64,
        ensures
            r.state is AwaitingHandshake,
            r.server_name == server_name,
            r.server_motd == server_motd,
            r.wf(),
    {
        Session { state: SessionState::AwaitingHandshake, server_name, server_motd }
    }

    /// Consumes the one frame a session awaiting its handshake may receive.
    /// A player identification advances the session to streaming and yields
    /// the encoded server identification reply; any other frame closes the
    /// session and yields no reply.
    pub fn handle_frame(&mut self, frame: &Response) -> (reply: Option<Vec<u8>>)
        requires
            old(self).wf(),
            old(self).state is AwaitingHandshake,
        ensures
            final(self).wf(),
            final(self).server_name == old(self).server_name,
            final(self).server_motd == old(self).server_motd,
            frame.data@[0] == 0x00 ==> final(self).state is Streaming && (reply matches Some(b)
                && b@ == handshake_reply(old(self).server_name@, old(self).server_motd@)),
            frame.data@[0] != 0x00 ==> final(self).state is Closed && reply is None,
    {
        match frame.read_packet() {
            Ok(p) => match p {
                Packet::PlayerIdentification(_) => {
                    let sid = ServerIdentificationPacket::new(
                        self.server_name.as_str(),
                        self.server_motd.as_str(),
                        0x64,
                    );
                    let reply_bytes = sid.build();
                    self.state = SessionState::Streaming;
                    proof {
                        lemma_right_padded(encode_utf8(sid.server_name@), 64, 0x20);
                        lemma_right_padded(encode_utf8(sid.server_motd@), 64, 0x20);
                        assert(reply_bytes@ =~= handshake_reply(
                            self.server_name@,
                            self.server_motd@,
                        ));
                    }
                    Some(reply_bytes)
                },
            },
            Err(_) => {
                self.state = SessionState::Closed;
                None
            },
        }
    }

    /// Performs the one-shot world push owed by a streaming session.
    /// Returns, in order: the encoded level initialize frame, one frame per
    /// world chunk, and the level finalize frame carrying the world's
    /// extents.  An empty world yields exactly the initialize and finalize
    /// frames.  The session is then connected.
    pub fn stream_world(&mut self, buffer: &Vec<u8>, x: i16, y: i16, z: i16) -> (frames: Vec<
        Vec<u8>,
    >)
        requires
            old(self).state is Streaming,
        ensures
            final(self).state is Connected,
            final(self).server_name == old(self).server_name,
            final(self).server_motd == old(self).server_motd,
            frames@.len() == 2 + num_chunks(buffer@.len() as int),
            frames@[0]@ == seq![0x02u8],
            forall|i: int|
                0 <= i < num_chunks(buffer@.len() as int) ==> (#[trigger] frames@[i + 1])@
                    == chunk_frame(buffer@, i, num_chunks(buffer@.len() as int)),
            frames@[frames@.len() - 1]@ == finalize_frame(x, y, z),
    {
        let mut frames: Vec<Vec<u8>> = Vec::new();
        let init = LevelInitializePacket::new();
        let init_bytes = init.build();
        proof {
            assert(init_bytes@ =~= seq![0x02u8]);
        }
        frames.push(init_bytes);
        let packets = World::generate_packets(buffer);
        let total = packets.len();
        let mut i: usize = 0;
        while i < total
            invariant
                total == num_chunks(buffer@.len() as int),
                packets@.len() == total,
                forall|m: int|
                    0 <= m < total ==> crate::world::is_chunk_packet(
                        buffer@,
                        m,
                        total as int,
                        #[trigger] packets@[m],
                    ),
                i <= total,
                frames@.len() == 1 + i,
                frames@[0]@ == seq![0x02u8],
                forall|m: int|
                    0 <= m < i ==> (#[trigger] frames@[m + 1])@ == chunk_frame(
                        buffer@,
                        m,
                        total as int,
                    ),
            decreases total - i,
        {
            let chunk_bytes = packets[i].build();
            proof {
                lemma_right_padded(packets@[i as int].chunk_data@, 1024, 0x00);
                lemma_progress_bounds(i + 1, total as int);
                assert(chunk_bytes@ =~= chunk_frame(buffer@, i as int, total as int));
            }
            frames.push(chunk_bytes);
            i += 1;
        }
        let fin = LevelFinalizePacket {
            base: BasePacket { packet_type: PacketType::Downstream, packet_id: 0x04 },
            x,
            y,
            z,
        };
        let fin_bytes = fin.build();
        proof {
            assert(fin_bytes@ =~= finalize_frame(x, y, z));
        }
        frames.push(fin_bytes);
        self.state = SessionState::Connected;
        frames
    }

    /// Tears the session down after a transport failure or once the
    /// surrounding collaborator releases the connection.
    pub fn close(&mut self)
        ensures
            final(self).state is Closed,
            final(self).server_name == old(self).server_name,
            final(self).server_motd == old(self).server_motd,
    {
        self.state = SessionState::Closed;
    }
}

} // verus!
