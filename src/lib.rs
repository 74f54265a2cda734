//! A protocol front door for a block-game server: varint framing, the
//! handshake, status and login message codecs, and the per-connection state
//! machine that negotiates encryption and hands the client a transfer.
pub mod codec;
pub mod connection;
pub mod crypto;
pub mod error;
pub mod protocol;
pub mod receptionist;
pub mod status;
