//! The failure taxonomy of a download run.

use vstd::prelude::*;
use vstd::string::StringExecFns;

use crate::message::MessageTag;
use crate::tracker::PeerAddress;

verus! {

/// Everything that can go wrong between tracker discovery and the last
/// verified piece. Connection-level failures are local to one peer; an
/// unavailable piece or a hash mismatch concerns the whole run.
#[derive(Clone, Copy, Debug, PartialEq, Eq)]
pub enum Error {
    /// The socket to this peer could not be opened.
    ConnectFailed(PeerAddress),
    /// The handshake exchange broke down before any tagged message flowed.
    HandshakeFailed,
    /// No Bitfield message arrived within the framer's deadline.
    BitfieldTimeout,
    /// No well-formed frame of a recognized tag arrived within the framer's
    /// deadline; carries the tag the caller was waiting for.
    ProtocolTimeout(MessageTag),
    /// A tag byte outside the closed 0..=8 set.
    UnrecognizedTag,
    /// No connected peer advertises this piece index.
    PieceUnavailable(usize),
    /// The fetched piece's digest does not match the expected hash table
    /// entry for this index.
    HashMismatch(usize),
    /// A byte payload whose length does not divide into whole records.
    InvalidLength(usize),
}

impl Error {
    /// A short human-readable rendering, one line per variant.
    pub fn describe(&self) -> String {
        match self {
            Error::ConnectFailed(_) => String::from_str("could not connect to peer"),
            Error::HandshakeFailed => String::from_str("handshake failed"),
            Error::BitfieldTimeout => String::from_str("no bitfield arrived in time"),
            Error::ProtocolTimeout(_) => String::from_str("no acceptable message arrived in time"),
            Error::UnrecognizedTag => String::from_str("unrecognized message tag"),
            Error::PieceUnavailable(_) => String::from_str("no peer advertises this piece"),
            Error::HashMismatch(_) => String::from_str("piece bytes do not match the expected hash"),
            Error::InvalidLength(_) => String::from_str("payload length does not divide into records"),
        }
    }
}

} // verus!
