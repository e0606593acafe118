//! A BitTorrent peer wire-protocol engine: length-prefixed message framing,
//! the 68-byte handshake, per-connection flow-control state, block-by-block
//! piece download, and hash-verified assembly of the finished file.
//!
//! Network transport, tracker HTTP and bencode parsing live outside this
//! crate; the logic here works on plain byte buffers and is verified.

pub mod client;
pub mod error;
pub mod message;
pub mod peer;
pub mod piece;
pub mod response;
pub mod torrent;
pub mod tracker;
