//! Length-prefixed, tagged message framing.
//!
//! Wire form of one frame: a 4-byte big-endian length covering the tag byte
//! and the payload, then the tag byte, then the payload. A length of zero is
//! a keep-alive and is skipped; a length above the sanity ceiling is treated
//! as desync and skipped the same way.

use vstd::prelude::*;

use crate::error::Error;

verus! {

/// Sanity ceiling on the length field: anything above it is treated as
/// corruption or desync rather than a frame to read.
pub const MAX_FRAME_LEN: u32 = 18000;

/// The closed set of message tags, numbered 0 through 8 on the wire.
#[derive(Clone, Copy, Debug, PartialEq, Eq)]
pub enum MessageTag {
    Choke,
    Unchoke,
    Interested,
    NotInterested,
    Have,
    Bitfield,
    Request,
    Piece,
    Cancel,
}

impl MessageTag {
    /// The wire byte of this tag.
    pub open spec fn spec_byte(self) -> u8 {
        match self {
            MessageTag::Choke => 0,
            MessageTag::Unchoke => 1,
            MessageTag::Interested => 2,
            MessageTag::NotInterested => 3,
            MessageTag::Have => 4,
            MessageTag::Bitfield => 5,
            MessageTag::Request => 6,
            MessageTag::Piece => 7,
            MessageTag::Cancel => 8,
        }
    }

    /// The tag a wire value stands for, if any; values outside 0..=8 are
    /// unrecognized and must be rejected, never mapped.
    pub open spec fn tag_of(v: int) -> Option<MessageTag> {
        if v == 0 {
            Some(MessageTag::Choke)
        } else if v == 1 {
            Some(MessageTag::Unchoke)
        } else if v == 2 {
            Some(MessageTag::Interested)
        } else if v == 3 {
            Some(MessageTag::NotInterested)
        } else if v == 4 {
            Some(MessageTag::Have)
        } else if v == 5 {
            Some(MessageTag::Bitfield)
        } else if v == 6 {
            Some(MessageTag::Request)
        } else if v == 7 {
            Some(MessageTag::Piece)
        } else if v == 8 {
            Some(MessageTag::Cancel)
        } else {
            None
        }
    }

    /// The wire byte of this tag, executable form.
    pub fn byte(&self) -> (r: u8)
        ensures
            r == self.spec_byte(),
    {
        match self {
            MessageTag::Choke => 0,
            MessageTag::Unchoke => 1,
            MessageTag::Interested => 2,
            MessageTag::NotInterested => 3,
            MessageTag::Have => 4,
            MessageTag::Bitfield => 5,
            MessageTag::Request => 6,
            MessageTag::Piece => 7,
            MessageTag::Cancel => 8,
        }
    }

    /// Maps a wire value to its tag, rejecting everything outside 0..=8.
    pub fn from(idx: usize) -> (r: Result<Self, Error>)
        ensures
            (match Self::tag_of(idx as int) {
                Some(t) => r == Ok::<MessageTag, Error>(t),
                None => r == Err::<MessageTag, Error>(Error::UnrecognizedTag),
            }),
    {
        match idx {
            0 => Ok(Self::Choke),
            1 => Ok(Self::Unchoke),
            2 => Ok(Self::Interested),
            3 => Ok(Self::NotInterested),
            4 => Ok(Self::Have),
            5 => Ok(Self::Bitfield),
            6 => Ok(Self::Request),
            7 => Ok(Self::Piece),
            8 => Ok(Self::Cancel),
            _ => Err(Error::UnrecognizedTag),
        }
    }
}

/// Round trip of the tag numbering: every tag's wire byte maps back to it.
pub proof fn lemma_tag_byte_round_trip(t: MessageTag)
    ensures
        MessageTag::tag_of(t.spec_byte() as int) == Some(t),
{
}

/// One framed message: a tag and an opaque payload.
#[derive(Debug)]
pub struct Message {
    pub tag: MessageTag,
    pub payload: Vec<u8>,
}

/// The big-endian u32 read from four bytes.
pub open spec fn spec_be_u32(b0: u8, b1: u8, b2: u8, b3: u8) -> u32 {
    ((b0 as u32) << 24) | ((b1 as u32) << 16) | ((b2 as u32) << 8) | (b3 as u32)
}

/// The four big-endian bytes of a u32.
pub open spec fn spec_u32_be_bytes(n: u32) -> Seq<u8> {
    seq![(n >> 24) as u8, (n >> 16) as u8, (n >> 8) as u8, n as u8]
}

/// Writing a u32 big-endian and reading it back gives the same value.
pub proof fn lemma_be_u32_round_trip(n: u32)
    ensures
        spec_be_u32(
            spec_u32_be_bytes(n)[0],
            spec_u32_be_bytes(n)[1],
            spec_u32_be_bytes(n)[2],
            spec_u32_be_bytes(n)[3],
        ) == n,
{
    assert((((n >> 24) as u8) as u32) << 24 | (((n >> 16) as u8) as u32) << 16 | (((n >> 8)
        as u8) as u32) << 8 | ((n as u8) as u32) == n) by (bit_vector);
}

/// The wire form of one frame: length prefix, tag byte, payload.
pub open spec fn spec_encode(tag: MessageTag, payload: Seq<u8>) -> Seq<u8> {
    spec_u32_be_bytes((payload.len() + 1) as u32) + seq![tag.spec_byte()] + payload
}

/// What scanning a byte buffer from `start` yields: the first well-formed
/// frame of a recognized tag, as (tag, payload, position after the frame).
/// Keep-alives (length 0), lengths above the ceiling, and frames with an
/// unrecognized tag byte are skipped; `None` means the buffer holds no
/// complete acceptable frame, so more bytes are needed.
pub open spec fn spec_decode(buf: Seq<u8>, start: int) -> Option<(MessageTag, Seq<u8>, int)>
    decreases buf.len() - start,
{
    if start < 0 || start + 4 > buf.len() {
        None
    } else {
        let len = spec_be_u32(buf[start], buf[start + 1], buf[start + 2], buf[start + 3]) as int;
        if len == 0 || len > MAX_FRAME_LEN {
            spec_decode(buf, start + 4)
        } else if start + 4 + len > buf.len() {
            None
        } else {
            match MessageTag::tag_of(buf[start + 4] as int) {
                Some(t) => Some((t, buf.subrange(start + 5, start + 4 + len), start + 4 + len)),
                None => spec_decode(buf, start + 4 + len),
            }
        }
    }
}

impl Message {
    /// Encodes one frame: `u32_be(len(payload) + 1) || tag_byte || payload`.
    pub fn encode(tag: MessageTag, payload: &Vec<u8>) -> (r: Vec<u8>)
        requires
            payload@.len() + 1 <= u32::MAX,
        ensures
            r@ == spec_encode(tag, payload@),
            r@.len() == payload@.len() + 5,
    {
        let len: u32 = (payload.len() + 1) as u32;
        let mut r: Vec<u8> = Vec::new();
        r.push((len >> 24) as u8);
        r.push((len >> 16) as u8);
        r.push((len >> 8) as u8);
        r.push(len as u8);
        r.push(tag.byte());
        r.extend_from_slice(payload.as_slice());
        proof {
            assert(r@ =~= spec_encode(tag, payload@));
        }
        r
    }

    /// Scans `buf` from `start` for the first well-formed frame of a
    /// recognized tag, exactly as `spec_decode` describes. When the buffer
    /// holds no complete acceptable frame the caller has run out of arrived
    /// bytes, and the await of `awaited` has timed out.
    pub fn decode(buf: &Vec<u8>, start: usize, awaited: MessageTag) -> (r: Result<
        (Message, usize),
        Error,
    >)
        requires
            start <= buf@.len(),
        ensures
            (match r {
                Ok((m, end)) => {
                    &&& spec_decode(buf@, start as int) == Some((m.tag, m.payload@, end as int))
                    &&& start < end <= buf@.len()
                },
                Err(e) => {
                    &&& e == Error::ProtocolTimeout(awaited)
                    &&& spec_decode(buf@, start as int) is None
                },
            }),
    {
        let mut pos = start;
        loop
            invariant
                start <= pos <= buf@.len(),
                spec_decode(buf@, start as int) == spec_decode(buf@, pos as int),
            decreases buf@.len() - pos,
        {
            if buf.len() - pos < 4 {
                return Err(Error::ProtocolTimeout(awaited));
            }
            let len: u32 = ((buf[pos] as u32) << 24) | ((buf[pos + 1] as u32) << 16) | ((buf[pos
                + 2] as u32) << 8) | (buf[pos + 3] as u32);
            if len == 0 || len > MAX_FRAME_LEN {
                pos = pos + 4;
            } else {
                let len_us = len as usize;
                if buf.len() - (pos + 4) < len_us {
                    return Err(Error::ProtocolTimeout(awaited));
                }
                match MessageTag::from(buf[pos + 4] as usize) {
                    Ok(tag) => {
                        let mut payload: Vec<u8> = Vec::new();
                        payload.extend_from_slice(&buf.as_slice()[pos + 5..pos + 4 + len_us]);
                        let end = pos + 4 + len_us;
                        return Ok((Message { tag, payload }, end));
                    },
                    Err(_) => {
                        pos = pos + 4 + len_us;
                    },
                }
            }
        }
    }
}

/// Framing round trip: a frame encoded from any tag and any payload short
/// enough to pass the sanity ceiling decodes back to exactly that tag and
/// payload, consuming the whole frame.
pub proof fn lemma_frame_round_trip(tag: MessageTag, payload: Seq<u8>)
    requires
        payload.len() + 1 <= MAX_FRAME_LEN,
    ensures
        spec_decode(spec_encode(tag, payload), 0) == Some(
            (tag, payload, payload.len() + 5 as int),
        ),
{
    let buf = spec_encode(tag, payload);
    let n = (payload.len() + 1) as u32;
    lemma_be_u32_round_trip(n);
    assert(buf[0] == spec_u32_be_bytes(n)[0]);
    assert(buf[1] == spec_u32_be_bytes(n)[1]);
    assert(buf[2] == spec_u32_be_bytes(n)[2]);
    assert(buf[3] == spec_u32_be_bytes(n)[3]);
    assert(spec_be_u32(buf[0], buf[1], buf[2], buf[3]) == n);
    assert(buf[4] == tag.spec_byte());
    lemma_tag_byte_round_trip(tag);
    assert(buf.subrange(5, 4 + n as int) =~= payload);
}

/// Keep-alive skip: a zero length field is stepped over, so decoding from a
/// keep-alive's first byte yields whatever decoding past it yields — never
/// an error of its own.
pub proof fn lemma_keep_alive_skip(buf: Seq<u8>, start: int)
    requires
        0 <= start,
        start + 4 <= buf.len(),
        spec_be_u32(buf[start], buf[start + 1], buf[start + 2], buf[start + 3]) == 0,
    ensures
        spec_decode(buf, start) == spec_decode(buf, start + 4),
{
}

} // verus!


