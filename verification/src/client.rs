//! The download orchestrator: it owns the peer connections and the piece
//! index space, assigns each piece to the first connection advertising it,
//! verifies every fetched piece against the expected hash table, and
//! accumulates verified bytes in ascending piece order.
//!
//! The standing invariant (`Client::wf`) is that the output buffer holds
//! exactly the pieces accepted so far, laid out at their offsets, and that
//! every one of them hashes to its expected table entry — unverified bytes
//! are never appended.

use sha1::Digest;
use vstd::prelude::*;

use crate::error::Error;
use crate::peer::Peer;

verus! {

/// The digest of the cryptographic hash used for piece integrity.
pub uninterp spec fn sha1_of(data: Seq<u8>) -> Seq<u8>;

/// Relies on sha1::Sha1::digest: a 20-byte digest that depends on the
/// input bytes alone.
#[verifier::external_body]
fn sha1_digest(data: &Vec<u8>) -> (r: Vec<u8>)
    ensures
        r@ == sha1_of(data@),
        r@.len() == 20,
{
    sha1::Sha1::digest(data.as_slice()).to_vec()
}

/// Byte-for-byte comparison of a computed digest against a table entry.
pub fn digest_matches(digest: &Vec<u8>, expected: &[u8; 20]) -> (r: bool)
    ensures
        r == (digest@ == expected@),
{
    if digest.len() != 20 {
        return false;
    }
    let mut k: usize = 0;
    while k < 20
        invariant
            k <= 20,
            digest@.len() == 20,
            expected@.len() == 20,
            forall|j: int| 0 <= j < k ==> digest@[j] == expected@[j],
        decreases 20 - k,
    {
        if digest[k] != expected[k] {
            return false;
        }
        k = k + 1;
    }
    proof {
        assert(digest@ =~= expected@);
    }
    true
}

/// The file being assembled: its name, its total length, and how many
/// bytes of it have been verified and accumulated so far.
pub struct File {
    pub file_name: String,
    pub total_size: usize,
    pub downloaded: usize,
}

/// The per-run piece bookkeeping: how many pieces, their expected hashes,
/// and the nominal piece length.
pub struct Data {
    pub piece_count: usize,
    pub piece_hashes: Vec<[u8; 20]>,
    pub plength: usize,
}

/// Where piece `i` starts in the output, for a layout of `count` pieces of
/// nominal length `p` making `total` bytes; `i == count` gives the end.
pub open spec fn spec_offset(count: int, p: int, total: int, i: int) -> int {
    if i >= count {
        total
    } else {
        i * p
    }
}

/// The true length of piece `i`: nominal, except the last piece takes the
/// remainder.
pub open spec fn spec_len(count: int, p: int, total: int, i: int) -> int {
    if i == count - 1 {
        total - (count - 1) * p
    } else {
        p
    }
}

/// Arithmetic soundness of the piece layout.
pub open spec fn layout_wf(count: int, p: int, total: int) -> bool {
    &&& p >= 1
    &&& count >= 0
    &&& count >= 1 ==> (count - 1) * p < total <= count * p
    &&& count == 0 ==> total == 0
}

/// Pieces tile the output: each piece ends where the next begins, is at
/// least one byte and at most the nominal length, and stays inside the
/// total.
pub proof fn lemma_layout(count: int, p: int, total: int, i: int)
    requires
        layout_wf(count, p, total),
        0 <= i < count,
    ensures
        spec_offset(count, p, total, i) + spec_len(count, p, total, i) == spec_offset(
            count,
            p,
            total,
            i + 1,
        ),
        1 <= spec_len(count, p, total, i) <= p,
        0 <= spec_offset(count, p, total, i),
        spec_offset(count, p, total, i + 1) <= total,
{
    assert((i + 1) * p == i * p + p) by (nonlinear_arith);
    assert(count * p == (count - 1) * p + p) by (nonlinear_arith);
    assert(i <= count - 1 ==> i * p <= (count - 1) * p) by (nonlinear_arith)
        requires
            p >= 1,
    ;
    assert(i + 1 <= count - 1 ==> (i + 1) * p <= (count - 1) * p) by (nonlinear_arith)
        requires
            p >= 1,
    ;
    assert(0 <= i ==> 0 <= i * p) by (nonlinear_arith)
        requires
            p >= 1,
    ;
}

/// Offsets grow with the piece index.
pub proof fn lemma_offset_mono(count: int, p: int, total: int, j: int, k: int)
    requires
        layout_wf(count, p, total),
        0 <= j <= k <= count,
    ensures
        spec_offset(count, p, total, j) <= spec_offset(count, p, total, k),
    decreases k - j,
{
    if j < k {
        lemma_layout(count, p, total, j);
        lemma_offset_mono(count, p, total, j + 1, k);
    }
}

/// The orchestrator's whole state: the connections, the file bookkeeping,
/// the piece table, the growing verified output, and the next piece index
/// to fetch.
pub struct Client {
    pub peers: Vec<Peer>,
    pub file: File,
    pub data: Data,
    pub buffer: Vec<u8>,
    pub next_piece: usize,
}

impl Client {
    /// Shorthand for this client's layout parameters.
    pub open spec fn count(self) -> int {
        self.data.piece_count as int
    }

    pub open spec fn plen(self) -> int {
        self.data.plength as int
    }

    pub open spec fn total(self) -> int {
        self.file.total_size as int
    }

    /// Where piece `i` starts in this client's output buffer.
    pub open spec fn piece_offset(self, i: int) -> int {
        spec_offset(self.count(), self.plen(), self.total(), i)
    }

    /// The true length of this client's piece `i`.
    pub open spec fn piece_len(self, i: int) -> int {
        spec_len(self.count(), self.plen(), self.total(), i)
    }

    /// The standing invariant: consistent layout, a hash per piece, and an
    /// output buffer holding exactly the pieces accepted so far — each at
    /// its offset, each hashing to its expected table entry.
    pub open spec fn wf(self) -> bool {
        &&& layout_wf(self.count(), self.plen(), self.total())
        &&& self.data.piece_count == self.data.piece_hashes@.len()
        &&& self.next_piece <= self.data.piece_count
        &&& self.buffer@.len() == self.piece_offset(self.next_piece as int)
        &&& self.file.downloaded == self.buffer@.len()
        &&& forall|i: int|
            0 <= i < self.next_piece ==> sha1_of(
                self.buffer@.subrange(
                    self.piece_offset(i),
                    self.piece_offset(i) + self.piece_len(i),
                ),
            ) == (#[trigger] self.data.piece_hashes@[i])@
    }

    /// Builds the orchestrator over already-connected peers and the
    /// metadata's piece table. Nothing is downloaded yet.
    pub fn new(
        peers: Vec<Peer>,
        file_name: String,
        total_size: usize,
        piece_hashes: Vec<[u8; 20]>,
        plength: usize,
    ) -> (r: Client)
        requires
            plength >= 1,
            piece_hashes@.len() >= 1 ==> (piece_hashes@.len() - 1) * plength < total_size
                <= piece_hashes@.len() * plength,
            piece_hashes@.len() == 0 ==> total_size == 0,
        ensures
            r.wf(),
            r.peers == peers,
            r.file.file_name == file_name,
            r.file.total_size == total_size,
            r.file.downloaded == 0,
            r.data.piece_count == piece_hashes@.len(),
            r.data.piece_hashes == piece_hashes,
            r.data.plength == plength,
            r.next_piece == 0,
            r.buffer@ == Seq::<u8>::empty(),
    {
        let piece_count = piece_hashes.len();
        Client {
            peers,
            file: File { file_name, total_size, downloaded: 0 },
            data: Data { piece_count, piece_hashes, plength },
            buffer: Vec::new(),
            next_piece: 0,
        }
    }

    /// Whether every piece has been fetched and verified.
    pub fn finished(&self) -> (r: bool)
        ensures
            r == (self.next_piece == self.data.piece_count),
    {
        self.next_piece == self.data.piece_count
    }

    /// The true length of piece `idx`: the nominal piece length, except
    /// the last piece takes what remains of the total.
    pub fn piece_length(&self, idx: usize) -> (r: usize)
        requires
            self.wf(),
            idx < self.data.piece_count,
        ensures
            r == self.piece_len(idx as int),
            1 <= r <= self.data.plength,
    {
        proof {
            lemma_layout(self.count(), self.plen(), self.total(), idx as int);
        }
        if idx == self.data.piece_count - 1 {
            let prior = self.data.plength * (self.data.piece_count - 1);
            self.file.total_size - prior
        } else {
            self.data.plength
        }
    }

    /// First-match peer selection: the lowest-numbered connection whose
    /// bitfield advertised the piece, if any does.
    pub fn select_peer(&self, idx: usize) -> (r: Option<usize>)
        ensures
            (match r {
                Some(k) => {
                    &&& k < self.peers@.len()
                    &&& self.peers@[k as int].pieces@.contains(idx)
                    &&& forall|j: int|
                        0 <= j < k ==> !(#[trigger] self.peers@[j]).pieces@.contains(idx)
                },
                None => forall|j: int|
                    0 <= j < self.peers@.len() ==> !(#[trigger] self.peers@[j]).pieces@.contains(
                        idx,
                    ),
            }),
    {
        let n = self.peers.len();
        let mut k: usize = 0;
        while k < n
            invariant
                k <= n,
                n == self.peers@.len(),
                forall|j: int| 0 <= j < k ==> !(#[trigger] self.peers@[j]).pieces@.contains(idx),
            decreases n - k,
        {
            if self.peers[k].has_piece(idx) {
                return Some(k);
            }
            k = k + 1;
        }
        None
    }

    /// As `select_peer`, but an absent piece is the run-fatal
    /// `PieceUnavailable` error: discovery happened once up front, so no
    /// second peer pool exists to re-query.
    pub fn require_peer(&self, idx: usize) -> (r: Result<usize, Error>)
        ensures
            (match r {
                Ok(k) => {
                    &&& k < self.peers@.len()
                    &&& self.peers@[k as int].pieces@.contains(idx)
                    &&& forall|j: int|
                        0 <= j < k ==> !(#[trigger] self.peers@[j]).pieces@.contains(idx)
                },
                Err(e) => {
                    &&& e == Error::PieceUnavailable(idx)
                    &&& forall|j: int|
                        0 <= j < self.peers@.len() ==> !(
                        #[trigger] self.peers@[j]).pieces@.contains(idx)
                },
            }),
    {
        match self.select_peer(idx) {
            Some(k) => Ok(k),
            None => Err(Error::PieceUnavailable(idx)),
        }
    }

    /// Verifies a fetched piece and accumulates it. The piece's digest is
    /// compared against the expected table entry for the current index: on
    /// a match the bytes are appended and the index advances; on a mismatch
    /// nothing changes and the typed `HashMismatch` error is returned, so a
    /// caller can re-fetch from another peer instead of halting.
    pub fn accept_piece(&mut self, data: Vec<u8>) -> (r: Result<(), Error>)
        requires
            old(self).wf(),
            old(self).next_piece < old(self).data.piece_count,
            data@.len() == old(self).piece_len(old(self).next_piece as int),
        ensures
            final(self).wf(),
            (match r {
                Ok(()) => {
                    &&& sha1_of(data@) == old(self).data.piece_hashes@[old(
                        self,
                    ).next_piece as int]@
                    &&& final(self).buffer@ == old(self).buffer@ + data@
                    &&& final(self).next_piece == old(self).next_piece + 1
                    &&& final(self).file.downloaded == old(self).file.downloaded + data@.len()
                    &&& final(self).peers == old(self).peers
                    &&& final(self).data == old(self).data
                    &&& final(self).file.file_name == old(self).file.file_name
                    &&& final(self).file.total_size == old(self).file.total_size
                },
                Err(e) => {
                    &&& e == Error::HashMismatch(old(self).next_piece)
                    &&& sha1_of(data@) != old(self).data.piece_hashes@[old(
                        self,
                    ).next_piece as int]@
                    &&& *final(self) == *old(self)
                },
            }),
    {
        let idx = self.next_piece;
        let digest = sha1_digest(&data);
        if digest_matches(&digest, &self.data.piece_hashes[idx]) {
            let ghost prior = *self;
            proof {
                lemma_layout(prior.count(), prior.plen(), prior.total(), idx as int);
            }
            let len = data.len();
            let mut d = data;
            self.buffer.append(&mut d);
            self.file.downloaded = self.file.downloaded + len;
            self.next_piece = idx + 1;
            proof {
                assert forall|i: int| 0 <= i < self.next_piece implies sha1_of(
                    self.buffer@.subrange(
                        self.piece_offset(i),
                        self.piece_offset(i) + self.piece_len(i),
                    ),
                ) == (#[trigger] self.data.piece_hashes@[i])@ by {
                    lemma_layout(prior.count(), prior.plen(), prior.total(), i);
                    if i < idx {
                        lemma_offset_mono(prior.count(), prior.plen(), prior.total(), i + 1, idx as int);
                        assert(self.buffer@.subrange(
                            self.piece_offset(i),
                            self.piece_offset(i) + self.piece_len(i),
                        ) =~= prior.buffer@.subrange(
                            prior.piece_offset(i),
                            prior.piece_offset(i) + prior.piece_len(i),
                        ));
                    } else {
                        assert(self.buffer@.subrange(
                            self.piece_offset(idx as int),
                            self.piece_offset(idx as int) + self.piece_len(idx as int),
                        ) =~= data@);
                    }
                }
            }
            Ok(())
        } else {
            Err(Error::HashMismatch(idx))
        }
    }

    /// Hands out the finished file: every piece fetched, verified, and laid
    /// end to end in ascending index order.
    pub fn take_file(self) -> (r: Vec<u8>)
        requires
            self.wf(),
            self.next_piece == self.data.piece_count,
        ensures
            r@ == self.buffer@,
            r@.len() == self.file.total_size,
    {
        proof {
            if self.data.piece_count > 0 {
                lemma_layout(self.count(), self.plen(), self.total(), self.count() - 1);
            }
        }
        self.buffer
    }
}

} // verus!
