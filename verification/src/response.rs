//! One inbound frame as read off the transport: the protocol always reads
//! fixed 1024-byte frames, so a frame held here is never truncated.

use vstd::prelude::*;

use crate::packet::decode;
use crate::packet::player_identification_fields;
use crate::packet::DecodeError;
use crate::packet::Packet;

verus! {

/// A full 1024-byte frame received from a client.
pub struct Response {
    pub data: [u8; 1024],
}

impl Response {
    /// Decodes the frame.  A full frame is never truncated, so the only
    /// possible failure is an unrecognised opcode.
    pub fn read_packet(&self) -> (r: Result<Packet, DecodeError>)
        ensures
            r is Ok <==> self.data@[0] == 0x00,
            self.data@[0] != 0x00 ==> r == Err::<Packet, DecodeError>(DecodeError::UnknownOpcode),
            r matches Ok(p) ==> p matches Packet::PlayerIdentification(q)
                && player_identification_fields(q, self.data@),
    {
        decode(self.data.as_slice())
    }

    /// Decodes a frame already known to carry a recognised inbound opcode.
    pub fn to_packet(&self) -> (r: Packet)
        requires
            self.data@[0] == 0x00,
        ensures
            r matches Packet::PlayerIdentification(q) && player_identification_fields(
                q,
                self.data@,
            ),
    {
        match self.read_packet() {
            Ok(p) => p,
            Err(_) => unreached(),
        }
    }
}

} // verus!
