//! Server-side core of a Minecraft-Classic-compatible wire protocol: a binary
//! packet codec, a world-chunking algorithm that splits a raw world buffer into
//! bounded transfer units with monotonic progress reporting, and the
//! per-connection session state machine that sequences the handshake and the
//! world transfer.

pub mod packet;
pub mod response;
pub mod session;
pub mod wire;
pub mod world;
