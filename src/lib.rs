//! Peer session engine of a BitTorrent leech client: the wire codec, the
//! peer bitfield, the piece assembler, the shared piece queue and the
//! per-peer session decisions, each with a verified contract.
pub mod bitfield;
pub mod bytes;
pub mod client;
pub mod errors;
pub mod handshake;
pub mod message;
pub mod piece;
pub mod piece_msg;
pub mod piece_queue;
pub mod session;
