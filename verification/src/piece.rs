//! The block request loop's state: one piece downloaded over one
//! already-interested-and-unchoked connection, split into blocks of at most
//! 16 KiB, requested strictly in ascending offset order with one request
//! outstanding at a time.

use vstd::prelude::*;

use crate::response::{Request, Response};

verus! {

/// Fixed block size (16 KiB): every block but a piece's last is exactly
/// this long.
pub const BLOCK_SIZE: usize = 16384;

/// The download of one piece in progress. The buffer grows block by block;
/// its length is the bytes-downloaded counter that drives the loop.
pub struct PieceDownload {
    pub piece_idx: u32,
    pub plength: usize,
    pub bytes_downloaded: usize,
    pub buffer: Vec<u8>,
}

impl PieceDownload {
    /// Structural soundness: the counter matches the buffer and never
    /// passes the piece length, and every field the wire carries fits u32.
    pub open spec fn wf(self) -> bool {
        &&& self.bytes_downloaded == self.buffer@.len()
        &&& self.bytes_downloaded <= self.plength
        &&& self.plength <= u32::MAX
    }

    /// The length of the block starting at `offset`: the fixed block size,
    /// truncated to the remainder for the piece's last block.
    pub open spec fn spec_block_length(plength: int, offset: int) -> int {
        if plength - offset < BLOCK_SIZE {
            plength - offset
        } else {
            BLOCK_SIZE as int
        }
    }

    pub fn new(piece_idx: u32, plength: usize) -> (r: Self)
        requires
            plength <= u32::MAX,
        ensures
            r.wf(),
            r.piece_idx == piece_idx,
            r.plength == plength,
            r.bytes_downloaded == 0,
            r.buffer@ == Seq::<u8>::empty(),
    {
        PieceDownload { piece_idx, plength, bytes_downloaded: 0, buffer: Vec::new() }
    }

    /// Whether the whole piece has arrived.
    pub fn done(&self) -> (r: bool)
        ensures
            r == (self.bytes_downloaded == self.plength),
    {
        self.bytes_downloaded == self.plength
    }

    /// The next Request to send: it asks for the block at the current
    /// download offset, of the fixed size or the remainder, whichever is
    /// smaller.
    pub fn next_request(&self) -> (r: Request)
        requires
            self.wf(),
            self.bytes_downloaded < self.plength,
        ensures
            r.piece_idx == self.piece_idx,
            r.block_offset == self.bytes_downloaded as u32,
            r.block_length == Self::spec_block_length(
                self.plength as int,
                self.bytes_downloaded as int,
            ),
            1 <= r.block_length <= BLOCK_SIZE,
    {
        let remaining = self.plength - self.bytes_downloaded;
        let block_length = if remaining < BLOCK_SIZE {
            remaining
        } else {
            BLOCK_SIZE
        };
        Request::new(self.piece_idx, self.bytes_downloaded as u32, block_length as u32)
    }

    /// Feeds one decoded Piece payload into the download. The block is
    /// accepted — copied at its offset, advancing the counter by its length
    /// — exactly when its piece index and offset match the outstanding
    /// request and its data fits in what remains; any other response is
    /// discarded and changes nothing, costing one extra wait cycle rather
    /// than corrupting the buffer.
    pub fn on_response(&mut self, resp: &Response) -> (accepted: bool)
        requires
            old(self).wf(),
        ensures
            final(self).wf(),
            accepted <==> (resp.idx == old(self).piece_idx && resp.offset == old(
                self,
            ).bytes_downloaded as u32 && resp.data@.len() <= old(self).plength - old(
                self,
            ).bytes_downloaded),
            accepted ==> final(self).buffer@ == old(self).buffer@ + resp.data@,
            accepted ==> final(self).bytes_downloaded == old(self).bytes_downloaded
                + resp.data@.len(),
            !accepted ==> *final(self) == *old(self),
            final(self).piece_idx == old(self).piece_idx,
            final(self).plength == old(self).plength,
    {
        if resp.idx == self.piece_idx && resp.offset == self.bytes_downloaded as u32
            && resp.data.len() <= self.plength - self.bytes_downloaded {
            self.buffer.extend_from_slice(resp.data.as_slice());
            self.bytes_downloaded = self.bytes_downloaded + resp.data.len();
            true
        } else {
            false
        }
    }

    /// Hands out the assembled piece once every byte has arrived.
    pub fn take_piece(self) -> (r: Vec<u8>)
        requires
            self.wf(),
            self.bytes_downloaded == self.plength,
        ensures
            r@ == self.buffer@,
            r@.len() == self.plength,
    {
        self.buffer
    }
}

/// Block splitting: from any mid-download offset, the next block is the
/// fixed size whenever at least that much remains, and exactly the remainder
/// otherwise — so blocks tile the piece with only the last one short.
pub proof fn lemma_block_splitting(plength: int, offset: int)
    requires
        0 <= offset < plength,
    ensures
        plength - offset >= BLOCK_SIZE ==> PieceDownload::spec_block_length(plength, offset)
            == BLOCK_SIZE,
        plength - offset < BLOCK_SIZE ==> PieceDownload::spec_block_length(plength, offset)
            == plength - offset,
        offset + PieceDownload::spec_block_length(plength, offset) <= plength,
        PieceDownload::spec_block_length(plength, offset) >= 1,
{
}

} // verus!
