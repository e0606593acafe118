//! One peer connection: the 68-byte handshake, the bitfield of advertised
//! pieces, and the once-per-connection Interested/Unchoke exchange.

use rand::Rng;
use vstd::prelude::*;

use crate::tracker::PeerAddress;

verus! {

/// The 19 bytes of the protocol identifier literal.
pub open spec fn spec_protocol_name() -> Seq<u8> {
    seq![
        66u8,
        105u8,
        116u8,
        84u8,
        111u8,
        114u8,
        114u8,
        101u8,
        110u8,
        116u8,
        32u8,
        112u8,
        114u8,
        111u8,
        116u8,
        111u8,
        99u8,
        111u8,
        108u8,
    ]
}

/// The full 68-byte greeting: length byte 19, the protocol identifier,
/// 8 zero reserved bytes, the info-hash, the peer id.
pub open spec fn spec_handshake_bytes(info_hash: Seq<u8>, peer_id: Seq<u8>) -> Seq<u8> {
    seq![19u8] + spec_protocol_name() + seq![0u8, 0u8, 0u8, 0u8, 0u8, 0u8, 0u8, 0u8] + info_hash
        + peer_id
}

/// The fixed greeting exchanged once per connection before any tagged
/// message flows.
pub struct HandShake {
    pub length: u8,
    pub bittorrent: [u8; 19],
    pub reserved: [u8; 8],
    pub info_hash: [u8; 20],
    pub peer_id: [u8; 20],
}

impl HandShake {
    pub fn new(info_hash: &[u8; 20], peer_id: &[u8; 20]) -> (r: Self)
        ensures
            r.length == 19,
            r.bittorrent@ == spec_protocol_name(),
            r.reserved@ == seq![0u8, 0u8, 0u8, 0u8, 0u8, 0u8, 0u8, 0u8],
            r.info_hash@ == info_hash@,
            r.peer_id@ == peer_id@,
    {
        let bittorrent: [u8; 19] = [
            66u8,
            105u8,
            116u8,
            84u8,
            111u8,
            114u8,
            114u8,
            101u8,
            110u8,
            116u8,
            32u8,
            112u8,
            114u8,
            111u8,
            116u8,
            111u8,
            99u8,
            111u8,
            108u8,
        ];
        let reserved: [u8; 8] = [0u8, 0u8, 0u8, 0u8, 0u8, 0u8, 0u8, 0u8];
        let r = Self {
            length: 19,
            bittorrent,
            reserved,
            info_hash: *info_hash,
            peer_id: *peer_id,
        };
        proof {
            assert(r.bittorrent@ =~= spec_protocol_name());
            assert(r.reserved@ =~= seq![0u8, 0u8, 0u8, 0u8, 0u8, 0u8, 0u8, 0u8]);
        }
        r
    }

    /// Serializes the greeting: exactly 68 bytes in wire order.
    pub fn to_bytes(&self) -> (r: Vec<u8>)
        ensures
            r@ == seq![self.length] + self.bittorrent@ + self.reserved@ + self.info_hash@
                + self.peer_id@,
            r@.len() == 68,
    {
        let mut buffer: Vec<u8> = Vec::new();
        buffer.push(self.length);
        buffer.extend_from_slice(self.bittorrent.as_slice());
        buffer.extend_from_slice(self.reserved.as_slice());
        buffer.extend_from_slice(self.info_hash.as_slice());
        buffer.extend_from_slice(self.peer_id.as_slice());
        proof {
            assert(buffer@ =~= seq![self.length] + self.bittorrent@ + self.reserved@
                + self.info_hash@ + self.peer_id@);
        }
        buffer
    }
}

/// Relies on rand's thread_rng and Rng::gen to draw 20 random bytes; nothing
/// is promised of the value.
#[verifier::external_body]
fn random_peer_id() -> (r: [u8; 20]) {
    rand::thread_rng().gen()
}

/// Builds the greeting for a connection under a freshly drawn peer id, and
/// hands that id back beside the bytes.
pub fn fresh_handshake(info_hash: &[u8; 20]) -> (r: (Vec<u8>, [u8; 20]))
    ensures
        r.0@ == spec_handshake_bytes(info_hash@, r.1@),
        r.0@.len() == 68,
{
    let peer_id = random_peer_id();
    let handshake = HandShake::new(info_hash, &peer_id);
    let bytes = handshake.to_bytes();
    proof {
        assert(bytes@ =~= spec_handshake_bytes(info_hash@, peer_id@));
    }
    (bytes, peer_id)
}

/// Whether global bit position `i` is set in a bitfield payload, scanning
/// each byte most-significant-bit first.
pub open spec fn spec_bitfield_has(payload: Seq<u8>, i: int) -> bool {
    &&& 0 <= i < 8 * payload.len()
    &&& (payload[i / 8] >> (7 - (i % 8)) as u8) & 1u8 == 1u8
}

/// One connection's negotiation state: where it lives, whether Interested
/// was already sent, and which piece indices its bitfield advertised.
#[derive(Debug)]
pub struct Peer {
    pub addr: PeerAddress,
    pub sent_interested: bool,
    pub pieces: Vec<usize>,
}

/// What one `ensure_interested` call does to a connection: the flag is set,
/// and the Interested/Unchoke exchange happens only if it was not yet.
pub open spec fn spec_interested_step(p: Peer) -> (Peer, bool) {
    (Peer { sent_interested: true, ..p }, !p.sent_interested)
}

impl Peer {
    /// Builds the connection state from a decoded Bitfield payload: bit `i`
    /// of the payload, scanned most-significant-bit first, advertises piece
    /// index `i`. The recorded indices are exactly the set bits, in
    /// ascending order, and Interested has not been sent yet.
    pub fn new(addr: PeerAddress, bitfield: &Vec<u8>) -> (r: Peer)
        requires
            8 * bitfield@.len() <= usize::MAX,
        ensures
            r.addr == addr,
            r.sent_interested == false,
            forall|k: int|
                0 <= k < r.pieces@.len() ==> spec_bitfield_has(
                    bitfield@,
                    #[trigger] r.pieces@[k] as int,
                ),
            forall|i: int|
                spec_bitfield_has(bitfield@, i) ==> r.pieces@.contains(i as usize),
            forall|k1: int, k2: int|
                0 <= k1 < k2 < r.pieces@.len() ==> r.pieces@[k1] < r.pieces@[k2],
    {
        let mut pieces: Vec<usize> = Vec::new();
        let n = bitfield.len();
        let mut byte_idx: usize = 0;
        while byte_idx < n
            invariant
                byte_idx <= n,
                n == bitfield@.len(),
                8 * bitfield@.len() <= usize::MAX,
                forall|k: int|
                    0 <= k < pieces@.len() ==> spec_bitfield_has(
                        bitfield@,
                        #[trigger] pieces@[k] as int,
                    ),
                forall|i: int|
                    0 <= i < 8 * byte_idx && spec_bitfield_has(bitfield@, i) ==> pieces@.contains(
                        i as usize,
                    ),
                forall|k: int|
                    0 <= k < pieces@.len() ==> pieces@[k] < 8 * byte_idx,
                forall|k1: int, k2: int|
                    0 <= k1 < k2 < pieces@.len() ==> pieces@[k1] < pieces@[k2],
            decreases n - byte_idx,
        {
            let chunk = bitfield[byte_idx];
            let mut bit: usize = 0;
            while bit < 8
                invariant
                    bit <= 8,
                    byte_idx < n,
                    n == bitfield@.len(),
                    8 * bitfield@.len() <= usize::MAX,
                    chunk == bitfield@[byte_idx as int],
                    forall|k: int|
                        0 <= k < pieces@.len() ==> spec_bitfield_has(
                            bitfield@,
                            #[trigger] pieces@[k] as int,
                        ),
                    forall|i: int|
                        0 <= i < 8 * byte_idx + bit && spec_bitfield_has(bitfield@, i)
                            ==> pieces@.contains(i as usize),
                    forall|k: int|
                        0 <= k < pieces@.len() ==> pieces@[k] < 8 * byte_idx + bit,
                    forall|k1: int, k2: int|
                        0 <= k1 < k2 < pieces@.len() ==> pieces@[k1] < pieces@[k2],
                decreases 8 - bit,
            {
                let shift: u8 = (7 - bit) as u8;
                let pos = 8 * byte_idx + bit;
                let set = (chunk >> shift) & 1u8 == 1u8;
                proof {
                    assert(pos as int / 8 == byte_idx as int);
                    assert(pos as int % 8 == bit as int);
                    assert(set == spec_bitfield_has(bitfield@, pos as int));
                }
                let ghost prior = pieces@;
                if set {
                    pieces.push(pos);
                }
                proof {
                    assert forall|i: int|
                        0 <= i < pos + 1 && spec_bitfield_has(bitfield@, i) implies pieces@.contains(
                        i as usize,
                    ) by {
                        if i < pos {
                            assert(prior.contains(i as usize));
                            let k = choose|k: int|
                                0 <= k < prior.len() && prior[k] == i as usize;
                            assert(pieces@[k] == i as usize);
                        } else {
                            assert(set);
                            assert(pieces@[pieces@.len() - 1] == pos);
                        }
                    }
                }
                bit = bit + 1;
            }
            byte_idx = byte_idx + 1;
        }
        Peer { addr, sent_interested: false, pieces }
    }

    /// Pure membership query on the advertised piece set.
    pub fn has_piece(&self, idx: usize) -> (r: bool)
        ensures
            r == self.pieces@.contains(idx),
    {
        let n = self.pieces.len();
        let mut k: usize = 0;
        while k < n
            invariant
                k <= n,
                n == self.pieces@.len(),
                forall|j: int| 0 <= j < k ==> self.pieces@[j] != idx,
            decreases n - k,
        {
            if self.pieces[k] == idx {
                return true;
            }
            k = k + 1;
        }
        false
    }

    /// Idempotent interest: reports whether the Interested/Unchoke exchange
    /// must be performed now, and records that it has been. Only the first
    /// call on a connection answers true.
    pub fn ensure_interested(&mut self) -> (send: bool)
        ensures
            *final(self) == spec_interested_step(*old(self)).0,
            send == spec_interested_step(*old(self)).1,
    {
        let send = !self.sent_interested;
        self.sent_interested = true;
        send
    }
}

/// A bitfield payload of `k` bytes advertises piece indices over the range
/// `[0, 8k)` only.
pub proof fn lemma_bitfield_range(payload: Seq<u8>, i: int)
    ensures
        spec_bitfield_has(payload, i) ==> 0 <= i < 8 * payload.len(),
{
}

/// Idempotent interest: however many times the exchange step runs on one
/// connection, only a first run — on a connection that has not sent
/// Interested — performs the exchange; a second run never does, and leaves
/// the connection exactly as the first left it.
pub proof fn lemma_interest_idempotent(p: Peer)
    ensures
        spec_interested_step(p).1 == !p.sent_interested,
        spec_interested_step(spec_interested_step(p).0).1 == false,
        spec_interested_step(spec_interested_step(p).0).0 == spec_interested_step(p).0,
{
}

} // verus!
