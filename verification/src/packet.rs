//! The packet codec: one struct per opcode, an exact wire layout for each, and
//! the inbound decoder.
//!
//! Every fixed text field occupies exactly 64 bytes on the wire, right-padded
//! with the space byte when the logical string is shorter and truncated to its
//! first 64 bytes when longer.  Multi-byte integers are big-endian.  Encoding
//! never fails; decoding fails with [`DecodeError::UnknownOpcode`] on an
//! unrecognised inbound opcode and with [`DecodeError::Truncated`] when fewer
//! bytes are available than the variant requires.

use vstd::prelude::*;
use vstd::string::StringExecFns;
use vstd::utf8::decode_utf8;
use vstd::utf8::encode_utf8;
use vstd::utf8::encode_utf8_decode_utf8;
use vstd::utf8::encode_utf8_valid_utf8;
use vstd::utf8::is_ascii_chars;
use vstd::utf8::is_ascii_chars_encode_utf8;
use vstd::utf8::valid_utf8;

use crate::wire::be_u16;
use crate::wire::i16_from_u16;
use crate::wire::i8_from_u8;
use crate::wire::lemma_be_u16_round_trip;
use crate::wire::lemma_encode_utf8_concat;
use crate::wire::lemma_i16_wire_round_trip;
use crate::wire::lemma_i8_wire_round_trip;
use crate::wire::lemma_right_padded;
use crate::wire::padded_chunk;
use crate::wire::padded_text;
use crate::wire::push_be_i16;
use crate::wire::push_right_padded;
use crate::wire::u16_from_be;
use crate::wire::u16_of_i16;
use crate::wire::u8_of_i8;

verus! {

/// Magic value of the trailing identification byte by which a client announces
/// protocol-extension support.
pub const CPE: u8 = 0x42;

/// Direction of a packet: `Downstream` is server to client, `Upstream` is
/// client to server.
#[derive(Clone, Copy, Debug, PartialEq, Eq, Structural)]
pub enum PacketType {
    Downstream,
    Upstream,
}

/// Direction and opcode shared by every packet.
#[derive(Clone, Copy, Debug, PartialEq, Eq, Structural)]
pub struct BasePacket {
    pub packet_type: PacketType,
    pub packet_id: u8,
}

/// Why an inbound frame failed to decode.  Either error is fatal to the one
/// session that received the frame, never to the process.
#[derive(Clone, Copy, Debug, PartialEq, Eq, Structural)]
pub enum DecodeError {
    /// The opcode byte matches no recognised inbound variant.
    UnknownOpcode,
    /// Fewer bytes are available than the variant requires.
    Truncated,
}

/// An outbound message with an exact byte representation.
pub trait Serializable {
    /// The exact bytes this message occupies on the wire.
    spec fn wire(&self) -> Seq<u8>;

    /// Encodes the message.  Encoding never fails.
    fn build(&self) -> (r: Vec<u8>)
        ensures
            r@ == self.wire(),
    ;
}

/// An inbound message that can be read back out of a fixed 1024-byte frame.
pub trait Deserializable: Sized {
    /// Whether a full frame of this variant's opcode parses successfully.
    spec fn accepts(frame: Seq<u8>) -> bool;

    /// How a successfully parsed value relates to the frame it came from.
    spec fn decoded_from(self, frame: Seq<u8>) -> bool;

    /// Parses one full frame, whose opcode byte the caller has already read
    /// into `base`.
    fn build(frame: &[u8; 1024], base: BasePacket) -> (r: Result<Self, DecodeError>)
        requires
            base.packet_type is Upstream,
            base.packet_id == frame@[0],
        ensures
            r is Ok <==> Self::accepts(frame@),
            r matches Ok(p) ==> p.decoded_from(frame@),
    ;
}

/// What `String::from_utf8_lossy` decodes a byte sequence to.  The result
/// depends on the bytes alone.
pub uninterp spec fn lossy_of(bytes: Seq<u8>) -> Seq<char>;

/// Relies on `String::from_utf8_lossy`: the result is a function of the bytes
/// alone, and a valid UTF-8 byte sequence is decoded unchanged.
#[verifier::external_body]
fn lossy_string(bytes: &[u8]) -> (r: String)
    ensures
        r@ == lossy_of(bytes@),
        valid_utf8(bytes@) ==> r@ == decode_utf8(bytes@),
{
    String::from_utf8_lossy(bytes).to_string()
}

/// Reads the 64-byte text field starting at byte `at` of a frame, decoding it
/// lossily: invalid byte sequences are not an error, they are replaced.
pub fn read_next_string(frame: &[u8], at: usize) -> (r: String)
    requires
        at + 64 <= frame@.len(),
    ensures
        r@ == lossy_of(frame@.subrange(at as int, at + 64)),
        valid_utf8(frame@.subrange(at as int, at + 64)) ==> r@ == decode_utf8(
            frame@.subrange(at as int, at + 64),
        ),
{
    let end = frame.len();
    let mut field: Vec<u8> = Vec::new();
    let mut i: usize = 0;
    while i < 64
        invariant
            i <= 64,
            at + 64 <= end == frame@.len(),
            field@ == frame@.subrange(at as int, at + i),
        decreases 64 - i,
    {
        field.push(frame[at + i]);
        proof {
            assert(field@ =~= frame@.subrange(at as int, at + i + 1));
        }
        i += 1;
    }
    lossy_string(field.as_slice())
}

/// Pads a logical string with spaces on the right so that its UTF-8 bytes fill
/// a 64-byte text field exactly.
pub fn get_qualified_string(string: &str) -> (r: String)
    requires
        encode_utf8(string@).len() <= 64,
    ensures
        r@ == string@ + Seq::new((64 - encode_utf8(string@).len()) as nat, |j: int| ' '),
        encode_utf8(r@) == padded_text(encode_utf8(string@)),
{
    let n = string.len();
    let mut r = string.to_owned();
    let mut i: usize = n;
    proof {
        assert(r@ =~= string@ + Seq::new(0, |j: int| ' '));
        assert(encode_utf8(string@) + Seq::new(0, |j: int| 0x20u8) =~= encode_utf8(string@));
    }
    while i < 64
        invariant
            n == encode_utf8(string@).len(),
            n <= i <= 64,
            r@ == string@ + Seq::new((i - n) as nat, |j: int| ' '),
            encode_utf8(r@) == encode_utf8(string@) + Seq::new((i - n) as nat, |j: int| 0x20u8),
        decreases 64 - i,
    {
        let ghost prev = r@;
        r.append(" ");
        proof {
            reveal_strlit(" ");
            assert(" "@ =~= seq![' ']);
            lemma_encode_utf8_concat(prev, seq![' ']);
            assert(is_ascii_chars(seq![' '])) by {
                assert(seq![' '][0] == ' ');
            }
            is_ascii_chars_encode_utf8(seq![' ']);
            assert(encode_utf8(seq![' ']) =~= seq![0x20u8]);
            assert(r@ =~= string@ + Seq::new((i + 1 - n) as nat, |j: int| ' '));
            assert(encode_utf8(r@) =~= encode_utf8(string@) + Seq::new(
                (i + 1 - n) as nat,
                |j: int| 0x20u8,
            ));
        }
        i += 1;
    }
    proof {
        assert(encode_utf8(r@) =~= padded_text(encode_utf8(string@)));
    }
    r
}

/// Client to server: the handshake request that opens a session.
#[derive(Debug)]
pub struct PlayerIdentificationPacket {
    pub base: BasePacket,
    pub protocol_version: u8,
    pub username: String,
    pub verification_key: String,
    pub unused: u8,
}

/// The field-by-field relation between a parsed player identification and the
/// frame it was read from.
pub open spec fn player_identification_fields(
    p: PlayerIdentificationPacket,
    frame: Seq<u8>,
) -> bool {
    &&& p.base.packet_type is Upstream
    &&& p.base.packet_id == frame[0]
    &&& p.protocol_version == frame[1]
    &&& p.username@ == lossy_of(frame.subrange(2, 66))
    &&& (valid_utf8(frame.subrange(2, 66)) ==> p.username@ == decode_utf8(frame.subrange(2, 66)))
    &&& p.verification_key@ == lossy_of(frame.subrange(66, 130))
    &&& (valid_utf8(frame.subrange(66, 130)) ==> p.verification_key@ == decode_utf8(
        frame.subrange(66, 130),
    ))
    &&& p.unused == frame[130]
}

/// Parses the body of a player identification out of a frame whose opcode byte
/// is already in `base`.
fn parse_player_identification(frame: &[u8], base: BasePacket) -> (p: PlayerIdentificationPacket)
    requires
        frame@.len() >= 131,
        base.packet_type is Upstream,
        base.packet_id == frame@[0],
    ensures
        player_identification_fields(p, frame@),
{
    let protocol_version = frame[1];
    let username = read_next_string(frame, 2);
    let verification_key = read_next_string(frame, 66);
    let unused = frame[130];
    PlayerIdentificationPacket { base, protocol_version, username, verification_key, unused }
}

impl Serializable for PlayerIdentificationPacket {
    open spec fn wire(&self) -> Seq<u8> {
        seq![self.base.packet_id, self.protocol_version] + padded_text(encode_utf8(self.username@))
            + padded_text(encode_utf8(self.verification_key@)) + seq![self.unused]
    }

    fn build(&self) -> (r: Vec<u8>) {
        let mut w: Vec<u8> = Vec::new();
        w.push(self.base.packet_id);
        w.push(self.protocol_version);
        push_right_padded(&mut w, self.username.as_str().as_bytes(), 64, 0x20);
        push_right_padded(&mut w, self.verification_key.as_str().as_bytes(), 64, 0x20);
        w.push(self.unused);
        proof {
            assert(w@ =~= self.wire());
        }
        w
    }
}

impl Deserializable for PlayerIdentificationPacket {
    /// A full 1024-byte frame always holds the 131 bytes this variant needs.
    open spec fn accepts(frame: Seq<u8>) -> bool {
        frame.len() >= 131
    }

    open spec fn decoded_from(self, frame: Seq<u8>) -> bool {
        player_identification_fields(self, frame)
    }

    fn build(frame: &[u8; 1024], base: BasePacket) -> (r: Result<Self, DecodeError>) {
        Ok(parse_player_identification(frame.as_slice(), base))
    }
}

/// Server to client: the handshake response.
pub struct ServerIdentificationPacket {
    pub base: BasePacket,
    pub protocol_version: u8,
    pub server_name: String,
    pub server_motd: String,
    pub user_type: u8,
}

impl Serializable for ServerIdentificationPacket {
    open spec fn wire(&self) -> Seq<u8> {
        seq![self.base.packet_id, self.protocol_version] + padded_text(
            encode_utf8(self.server_name@),
        ) + padded_text(encode_utf8(self.server_motd@)) + seq![self.user_type]
    }

    fn build(&self) -> (r: Vec<u8>) {
        let mut w: Vec<u8> = Vec::new();
        w.push(self.base.packet_id);
        w.push(self.protocol_version);
        push_right_padded(&mut w, self.server_name.as_str().as_bytes(), 64, 0x20);
        push_right_padded(&mut w, self.server_motd.as_str().as_bytes(), 64, 0x20);
        w.push(self.user_type);
        proof {
            assert(w@ =~= self.wire());
        }
        w
    }
}

impl ServerIdentificationPacket {
    pub fn new(server_name: &str, server_motd: &str, user_type: u8) -> (r: Self)
        requires
            encode_utf8(server_name@).len() <= 64,
            encode_utf8(server_motd@).len() <= 64,
        ensures
            r.base.packet_type is Downstream,
            r.base.packet_id == 0x00,
            r.protocol_version == 0x07,
            encode_utf8(r.server_name@) == padded_text(encode_utf8(server_name@)),
            encode_utf8(r.server_motd@) == padded_text(encode_utf8(server_motd@)),
            r.user_type == user_type,
    {
        Self {
            base: BasePacket { packet_type: PacketType::Downstream, packet_id: 0x00 },
            protocol_version: 0x07,
            server_name: get_qualified_string(server_name),
            server_motd: get_qualified_string(server_motd),
            user_type,
        }
    }
}

/// Server to client: announces that the world transfer is about to begin.
pub struct LevelInitializePacket {
    pub base: BasePacket,
}

impl Serializable for LevelInitializePacket {
    open spec fn wire(&self) -> Seq<u8> {
        seq![self.base.packet_id]
    }

    fn build(&self) -> (r: Vec<u8>) {
        let mut w: Vec<u8> = Vec::new();
        w.push(self.base.packet_id);
        proof {
            assert(w@ =~= self.wire());
        }
        w
    }
}

impl LevelInitializePacket {
    pub fn new() -> (r: Self)
        ensures
            r.base.packet_type is Downstream,
            r.base.packet_id == 0x02,
    {
        Self { base: BasePacket { packet_type: PacketType::Downstream, packet_id: 0x02 } }
    }
}

/// Server to client: a keep-alive with no fields.
pub struct PingPacket {
    pub base: BasePacket,
}

impl Serializable for PingPacket {
    open spec fn wire(&self) -> Seq<u8> {
        seq![self.base.packet_id]
    }

    fn build(&self) -> (r: Vec<u8>) {
        let mut w: Vec<u8> = Vec::new();
        w.push(self.base.packet_id);
        proof {
            assert(w@ =~= self.wire());
        }
        w
    }
}

impl PingPacket {
    pub fn new() -> (r: Self)
        ensures
            r.base.packet_type is Downstream,
            r.base.packet_id == 0x01,
    {
        Self { base: BasePacket { packet_type: PacketType::Downstream, packet_id: 0x01 } }
    }
}

/// Server to client: one 1024-byte transfer unit of the world buffer, with a
/// progress indicator.
#[derive(Debug)]
pub struct LevelDataChunkPacket {
    pub base: BasePacket,
    pub chunk_length: i16,
    pub chunk_data: Vec<u8>,
    pub percent_complete: u8,
}

impl Serializable for LevelDataChunkPacket {
    open spec fn wire(&self) -> Seq<u8> {
        seq![self.base.packet_id] + be_u16(u16_of_i16(self.chunk_length)) + padded_chunk(
            self.chunk_data@,
        ) + seq![self.percent_complete]
    }

    fn build(&self) -> (r: Vec<u8>) {
        let mut w: Vec<u8> = Vec::new();
        w.push(self.base.packet_id);
        push_be_i16(&mut w, self.chunk_length);
        push_right_padded(&mut w, self.chunk_data.as_slice(), 1024, 0x00);
        w.push(self.percent_complete);
        proof {
            assert(w@ =~= self.wire());
        }
        w
    }
}

impl LevelDataChunkPacket {
    pub fn new(chunk_length: i16, chunk_data: Vec<u8>, percent_complete: u8) -> (r: Self)
        ensures
            r.base.packet_type is Downstream,
            r.base.packet_id == 0x03,
            r.chunk_length == chunk_length,
            r.chunk_data == chunk_data,
            r.percent_complete == percent_complete,
    {
        Self {
            base: BasePacket { packet_type: PacketType::Downstream, packet_id: 0x03 },
            chunk_length,
            chunk_data,
            percent_complete,
        }
    }
}

/// Server to client: closes the world transfer and announces the world's
/// extents.
pub struct LevelFinalizePacket {
    pub base: BasePacket,
    pub x: i16,
    pub y: i16,
    pub z: i16,
}

impl Serializable for LevelFinalizePacket {
    open spec fn wire(&self) -> Seq<u8> {
        seq![self.base.packet_id] + be_u16(u16_of_i16(self.x)) + be_u16(u16_of_i16(self.y))
            + be_u16(u16_of_i16(self.z))
    }

    fn build(&self) -> (r: Vec<u8>) {
        let mut w: Vec<u8> = Vec::new();
        w.push(self.base.packet_id);
        push_be_i16(&mut w, self.x);
        push_be_i16(&mut w, self.y);
        push_be_i16(&mut w, self.z);
        proof {
            assert(w@ =~= self.wire());
        }
        w
    }
}

impl LevelFinalizePacket {
    pub fn new() -> (r: Self)
        ensures
            r.base.packet_type is Downstream,
            r.base.packet_id == 0x04,
            r.x == 256 && r.y == 64 && r.z == 256,
    {
        Self {
            base: BasePacket { packet_type: PacketType::Downstream, packet_id: 0x04 },
            x: 256,
            y: 64,
            z: 256,
        }
    }
}

/// Server to client: spawns a named player at a position and orientation.
#[derive(Debug)]
pub struct SpawnPlayerPacket {
    pub base: BasePacket,
    pub player_id: i8,
    pub player_name: String,
    pub x: i16,
    pub y: i16,
    pub z: i16,
    pub yaw: u8,
    pub pitch: u8,
}

impl Serializable for SpawnPlayerPacket {
    open spec fn wire(&self) -> Seq<u8> {
        seq![self.base.packet_id, u8_of_i8(self.player_id)] + padded_text(
            encode_utf8(self.player_name@),
        ) + be_u16(u16_of_i16(self.x)) + be_u16(u16_of_i16(self.y)) + be_u16(u16_of_i16(self.z))
            + seq![self.yaw, self.pitch]
    }

    fn build(&self) -> (r: Vec<u8>) {
        let mut w: Vec<u8> = Vec::new();
        w.push(self.base.packet_id);
        let id: u8 = if self.player_id >= 0 {
            self.player_id as u8
        } else {
            ((self.player_id as i16) + 0x100) as u8
        };
        w.push(id);
        push_right_padded(&mut w, self.player_name.as_str().as_bytes(), 64, 0x20);
        push_be_i16(&mut w, self.x);
        push_be_i16(&mut w, self.y);
        push_be_i16(&mut w, self.z);
        w.push(self.yaw);
        w.push(self.pitch);
        proof {
            assert(w@ =~= self.wire());
        }
        w
    }
}

impl SpawnPlayerPacket {
    pub fn new(player_name: &str) -> (r: Self)
        requires
            encode_utf8(player_name@).len() <= 64,
        ensures
            r.base.packet_type is Downstream,
            r.base.packet_id == 0x07,
            r.player_id == -1,
            encode_utf8(r.player_name@) == padded_text(encode_utf8(player_name@)),
            r.x == 256 && r.y == 1090 && r.z == 256,
            r.yaw == 90 && r.pitch == 30,
    {
        Self {
            base: BasePacket { packet_type: PacketType::Downstream, packet_id: 0x07 },
            player_id: -1,
            player_name: get_qualified_string(player_name),
            x: 256,
            y: 1090,
            z: 256,
            yaw: 90,
            pitch: 30,
        }
    }
}

/// The closed union of inbound messages.
#[derive(Debug)]
pub enum Packet {
    PlayerIdentification(PlayerIdentificationPacket),
}

/// Decodes one inbound frame.  The opcode is byte 0; the only recognised
/// inbound opcode is 0x00, player identification, which requires 131 bytes.
pub fn decode(frame: &[u8]) -> (r: Result<Packet, DecodeError>)
    ensures
        r is Ok <==> frame@.len() >= 131 && frame@[0] == 0x00,
        frame@.len() == 0 ==> r == Err::<Packet, DecodeError>(DecodeError::Truncated),
        frame@.len() > 0 && frame@[0] != 0x00 ==> r == Err::<Packet, DecodeError>(
            DecodeError::UnknownOpcode,
        ),
        0 < frame@.len() < 131 && frame@[0] == 0x00 ==> r == Err::<Packet, DecodeError>(
            DecodeError::Truncated,
        ),
        r matches Ok(p) ==> p matches Packet::PlayerIdentification(q)
            && player_identification_fields(q, frame@),
{
    if frame.len() == 0 {
        return Err(DecodeError::Truncated);
    }
    let opcode = frame[0];
    if opcode != 0x00 {
        return Err(DecodeError::UnknownOpcode);
    }
    if frame.len() < 131 {
        return Err(DecodeError::Truncated);
    }
    let base = BasePacket { packet_type: PacketType::Upstream, packet_id: opcode };
    Ok(Packet::PlayerIdentification(parse_player_identification(frame, base)))
}

/// A player identification in canonical wire form: the inbound identification
/// opcode, and both text fields already occupying exactly 64 bytes.
pub open spec fn canonical_player_identification(p: PlayerIdentificationPacket) -> bool {
    &&& p.base.packet_id == 0x00
    &&& encode_utf8(p.username@).len() == 64
    &&& encode_utf8(p.verification_key@).len() == 64
}

/// Round trip: any value parsed back out of the encoding of a canonical player
/// identification carries the same fields.
pub proof fn lemma_player_identification_round_trip(
    p: PlayerIdentificationPacket,
    q: PlayerIdentificationPacket,
)
    requires
        canonical_player_identification(p),
        player_identification_fields(q, p.wire()),
    ensures
        q.base.packet_id == p.base.packet_id,
        q.protocol_version == p.protocol_version,
        q.username@ == p.username@,
        q.verification_key@ == p.verification_key@,
        q.unused == p.unused,
{
    let w = p.wire();
    let u = encode_utf8(p.username@);
    let k = encode_utf8(p.verification_key@);
    lemma_right_padded(u, 64, 0x20);
    lemma_right_padded(k, 64, 0x20);
    assert(w.subrange(2, 66) =~= u);
    assert(w.subrange(66, 130) =~= k);
    encode_utf8_valid_utf8(p.username@);
    encode_utf8_valid_utf8(p.verification_key@);
    encode_utf8_decode_utf8(p.username@);
    encode_utf8_decode_utf8(p.verification_key@);
}

/// Round trip for the server identification layout: every field of a message
/// with canonical 64-byte text fields is recovered exactly from its wire
/// bytes.
pub proof fn lemma_server_identification_round_trip(p: ServerIdentificationPacket)
    requires
        encode_utf8(p.server_name@).len() == 64,
        encode_utf8(p.server_motd@).len() == 64,
    ensures
        p.wire().len() == 131,
        p.wire()[0] == p.base.packet_id,
        p.wire()[1] == p.protocol_version,
        decode_utf8(p.wire().subrange(2, 66)) == p.server_name@,
        decode_utf8(p.wire().subrange(66, 130)) == p.server_motd@,
        p.wire()[130] == p.user_type,
{
    let w = p.wire();
    let n = encode_utf8(p.server_name@);
    let m = encode_utf8(p.server_motd@);
    lemma_right_padded(n, 64, 0x20);
    lemma_right_padded(m, 64, 0x20);
    assert(w.subrange(2, 66) =~= n);
    assert(w.subrange(66, 130) =~= m);
    encode_utf8_decode_utf8(p.server_name@);
    encode_utf8_decode_utf8(p.server_motd@);
}

/// Round trip for the level-data-chunk layout: the chunk length, the 1024
/// payload bytes and the progress byte are recovered exactly from the wire
/// bytes.
pub proof fn lemma_level_data_chunk_round_trip(p: LevelDataChunkPacket)
    requires
        p.chunk_data@.len() == 1024,
    ensures
        p.wire().len() == 1028,
        p.wire()[0] == p.base.packet_id,
        i16_from_u16(u16_from_be(p.wire()[1], p.wire()[2])) == p.chunk_length,
        p.wire().subrange(3, 1027) == p.chunk_data@,
        p.wire()[1027] == p.percent_complete,
{
    let w = p.wire();
    lemma_be_u16_round_trip(u16_of_i16(p.chunk_length));
    lemma_i16_wire_round_trip(p.chunk_length);
    lemma_right_padded(p.chunk_data@, 1024, 0x00);
    assert(w.subrange(3, 1027) =~= p.chunk_data@);
}

/// Round trip for the level-finalize layout: the three world extents are
/// recovered exactly from the wire bytes.
pub proof fn lemma_level_finalize_round_trip(p: LevelFinalizePacket)
    ensures
        p.wire().len() == 7,
        p.wire()[0] == p.base.packet_id,
        i16_from_u16(u16_from_be(p.wire()[1], p.wire()[2])) == p.x,
        i16_from_u16(u16_from_be(p.wire()[3], p.wire()[4])) == p.y,
        i16_from_u16(u16_from_be(p.wire()[5], p.wire()[6])) == p.z,
{
    lemma_be_u16_round_trip(u16_of_i16(p.x));
    lemma_be_u16_round_trip(u16_of_i16(p.y));
    lemma_be_u16_round_trip(u16_of_i16(p.z));
    lemma_i16_wire_round_trip(p.x);
    lemma_i16_wire_round_trip(p.y);
    lemma_i16_wire_round_trip(p.z);
}

/// Round trip for the spawn-player layout: every field of a message with a
/// canonical 64-byte name field is recovered exactly from its wire bytes.
pub proof fn lemma_spawn_player_round_trip(p: SpawnPlayerPacket)
    requires
        encode_utf8(p.player_name@).len() == 64,
    ensures
        p.wire().len() == 74,
        p.wire()[0] == p.base.packet_id,
        i8_from_u8(p.wire()[1]) == p.player_id,
        decode_utf8(p.wire().subrange(2, 66)) == p.player_name@,
        i16_from_u16(u16_from_be(p.wire()[66], p.wire()[67])) == p.x,
        i16_from_u16(u16_from_be(p.wire()[68], p.wire()[69])) == p.y,
        i16_from_u16(u16_from_be(p.wire()[70], p.wire()[71])) == p.z,
        p.wire()[72] == p.yaw,
        p.wire()[73] == p.pitch,
{
    let w = p.wire();
    let n = encode_utf8(p.player_name@);
    lemma_right_padded(n, 64, 0x20);
    assert(w.subrange(2, 66) =~= n);
    encode_utf8_decode_utf8(p.player_name@);
    lemma_i8_wire_round_trip(p.player_id);
    lemma_be_u16_round_trip(u16_of_i16(p.x));
    lemma_be_u16_round_trip(u16_of_i16(p.y));
    lemma_be_u16_round_trip(u16_of_i16(p.z));
    lemma_i16_wire_round_trip(p.x);
    lemma_i16_wire_round_trip(p.y);
    lemma_i16_wire_round_trip(p.z);
}

} // verus!
