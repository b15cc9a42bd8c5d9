//! Bridge between a chat platform and a running game server.
//!
//! The library holds the verified core of the bridge: the varint codec and
//! handshake framing of the status-ping protocol, the fixed-layout packet
//! framing and session discipline of the remote-console protocol, the parsing
//! of status responses into snapshots, the rendering of channel updates, and
//! the service registry with its persistence format.  The surrounding process
//! (network transport, timers, the chat platform itself) stays outside and
//! drives these functions.

pub mod monitor;
pub mod persist;
pub mod rcon;
pub mod render;
pub mod status;
pub mod text;
pub mod varint;
