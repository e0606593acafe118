//! The Request payload (outbound) and the Piece payload (inbound): piece
//! index, byte offset, and for a Piece the block data.

use vstd::prelude::*;

use crate::error::Error;
use crate::message::{spec_be_u32, spec_u32_be_bytes, Message};

verus! {

/// One outbound block request: all three fields are encoded big-endian as a
/// 12-byte payload for the Request tag.
#[derive(Clone, Copy, Debug)]
pub struct Request {
    pub piece_idx: u32,
    pub block_offset: u32,
    pub block_length: u32,
}

impl Request {
    pub fn new(piece_idx: u32, block_offset: u32, block_length: u32) -> (r: Self)
        ensures
            r.piece_idx == piece_idx,
            r.block_offset == block_offset,
            r.block_length == block_length,
    {
        Self { piece_idx, block_offset, block_length }
    }

    /// The 12-byte Request payload: index, offset, length, each big-endian.
    pub fn encode(&self) -> (r: Vec<u8>)
        ensures
            r@ == spec_u32_be_bytes(self.piece_idx) + spec_u32_be_bytes(self.block_offset)
                + spec_u32_be_bytes(self.block_length),
            r@.len() == 12,
    {
        let mut r: Vec<u8> = Vec::new();
        push_be_u32(&mut r, self.piece_idx);
        push_be_u32(&mut r, self.block_offset);
        push_be_u32(&mut r, self.block_length);
        r
    }
}

/// Appends the four big-endian bytes of `n`.
fn push_be_u32(out: &mut Vec<u8>, n: u32)
    ensures
        final(out)@ == old(out)@ + spec_u32_be_bytes(n),
{
    out.push((n >> 24) as u8);
    out.push((n >> 16) as u8);
    out.push((n >> 8) as u8);
    out.push(n as u8);
    proof {
        assert(out@ =~= old(out)@ + spec_u32_be_bytes(n));
    }
}

/// One inbound block: the Piece payload's index and offset, then the data.
#[derive(Clone, Debug)]
pub struct Response {
    pub idx: u32,
    pub offset: u32,
    pub data: Vec<u8>,
}

impl Response {
    /// Reads a Piece payload: 4 bytes of index, 4 bytes of offset, and the
    /// remainder as block data. The payload must hold both header fields.
    pub fn decode(message: &Message) -> (r: Result<Self, Error>)
        requires
            message.payload@.len() >= 8,
        ensures
            (match r {
                Ok(resp) => {
                    &&& resp.idx == spec_be_u32(
                        message.payload@[0],
                        message.payload@[1],
                        message.payload@[2],
                        message.payload@[3],
                    )
                    &&& resp.offset == spec_be_u32(
                        message.payload@[4],
                        message.payload@[5],
                        message.payload@[6],
                        message.payload@[7],
                    )
                    &&& resp.data@ == message.payload@.subrange(8, message.payload@.len() as int)
                },
                Err(_) => false,
            }),
    {
        let p = &message.payload;
        let idx: u32 = ((p[0] as u32) << 24) | ((p[1] as u32) << 16) | ((p[2] as u32) << 8) | (
        p[3] as u32);
        let offset: u32 = ((p[4] as u32) << 24) | ((p[5] as u32) << 16) | ((p[6] as u32) << 8) | (
        p[7] as u32);
        let mut data: Vec<u8> = Vec::new();
        data.extend_from_slice(&p.as_slice()[8..p.len()]);
        proof {
            assert(data@ =~= message.payload@.subrange(8, message.payload@.len() as int));
        }
        Ok(Response { idx, offset, data })
    }
}

} // verus!
