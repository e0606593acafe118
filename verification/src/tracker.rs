//! Tracker exchange data: the request parameters, the response shape, and
//! the compact peer list — 6 bytes per peer, a 4-byte IPv4 address followed
//! by a 2-byte big-endian port.

use vstd::prelude::*;

use crate::error::Error;

verus! {

/// An IPv4 address and port identifying a candidate peer.
#[derive(Clone, Copy, Debug, PartialEq, Eq)]
pub struct PeerAddress {
    pub octets: [u8; 4],
    pub port: u16,
}

/// The query parameters of one tracker announce.
#[derive(Clone, Debug)]
pub struct TrackerRequest {
    pub peer_id: String,
    pub port: u16,
    pub uploaded: usize,
    pub downloaded: usize,
    pub left: usize,
    pub compact: u8,
}

/// What the tracker answers: a polling interval and the peer list.
#[derive(Clone, Debug)]
pub struct TrackerResponse {
    pub interval: usize,
    pub peers: Peers,
}

/// The decoded compact peer list.
#[derive(Clone, Debug)]
pub struct Peers(pub Vec<PeerAddress>);

/// The big-endian u16 read from two bytes.
pub open spec fn spec_be_u16(b0: u8, b1: u8) -> u16 {
    ((b0 as u16) << 8) | (b1 as u16)
}

/// Decodes a compact peer list: each whole 6-byte record is one peer, the
/// first 4 bytes its IPv4 octets, the last 2 its big-endian port. A payload
/// that does not divide into 6-byte records is rejected.
pub fn parse_compact_peers(v: &Vec<u8>) -> (r: Result<Peers, Error>)
    ensures
        (match r {
            Ok(peers) => {
                &&& v@.len() % 6 == 0
                &&& peers.0@.len() == v@.len() / 6
                &&& forall|k: int|
                    0 <= k < peers.0@.len() ==> {
                        &&& (#[trigger] peers.0@[k]).octets@ == v@.subrange(6 * k, 6 * k + 4)
                        &&& peers.0@[k].port == spec_be_u16(v@[6 * k + 4], v@[6 * k + 5])
                    }
            },
            Err(e) => {
                &&& e == Error::InvalidLength(v@.len() as usize)
                &&& v@.len() % 6 != 0
            },
        }),
{
    if v.len() % 6 != 0 {
        return Err(Error::InvalidLength(v.len()));
    }
    let n = v.len() / 6;
    proof {
        assert(6 * (n as int) <= v@.len());
    }
    let mut peers: Vec<PeerAddress> = Vec::new();
    let mut i: usize = 0;
    while i < n
        invariant
            i <= n,
            v@.len() <= usize::MAX,
            v@.len() % 6 == 0,
            n == v@.len() / 6,
            6 * (n as int) <= v@.len(),
            peers@.len() == i,
            forall|k: int|
                0 <= k < i ==> {
                    &&& (#[trigger] peers@[k]).octets@ == v@.subrange(6 * k, 6 * k + 4)
                    &&& peers@[k].port == spec_be_u16(v@[6 * k + 4], v@[6 * k + 5])
                },
        decreases n - i,
    {
        let base = 6 * i;
        let octets: [u8; 4] = [v[base], v[base + 1], v[base + 2], v[base + 3]];
        let port: u16 = ((v[base + 4] as u16) << 8) | (v[base + 5] as u16);
        let addr = PeerAddress { octets, port };
        proof {
            assert(addr.octets@ =~= v@.subrange(6 * (i as int), 6 * (i as int) + 4));
        }
        peers.push(addr);
        i = i + 1;
    }
    Ok(Peers(peers))
}

} // verus!
