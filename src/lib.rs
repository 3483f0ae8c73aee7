//! Transport core of a game server: VarInt codec, packet framing, threshold
//! compression, the connection phase machine, per-connection sessions and the
//! broadcast layer over the set of live connections.

pub mod varint;
pub mod codec;
pub mod compression;
pub mod state;
pub mod pipeline;
pub mod bytebuf;
pub mod handshake;
pub mod packets;
pub mod client;
pub mod client_packet;
pub mod clientbound;
pub mod server;
pub mod listing;
pub mod error;
pub mod entity;
pub mod reason;
