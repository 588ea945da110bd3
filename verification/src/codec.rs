//! Framed wire codec: every control message, in either direction, travels as
//! a 4-byte little-endian length prefix followed by exactly that many payload
//! bytes. This module states and verifies the framing itself; turning a
//! payload into a structured message is the serializer's business and happens
//! outside the verified core.

use vstd::prelude::*;

verus! {

/// Errors the framed codec can report.
#[derive(Debug, PartialEq, Eq, Structural, Clone, Copy)]
pub enum CodecError {
    /// The buffer ends before the length prefix or the announced payload.
    Truncated,
}

/// The four little-endian bytes of a 32-bit length prefix.
pub open spec fn u32_le_bytes(n: u32) -> Seq<u8> {
    seq![
        (n & 0xff) as u8,
        ((n >> 8) & 0xff) as u8,
        ((n >> 16) & 0xff) as u8,
        ((n >> 24) & 0xff) as u8,
    ]
}

/// The 32-bit value carried by four little-endian bytes.
pub open spec fn u32_from_le_bytes(b: Seq<u8>) -> u32
    recommends
        b.len() == 4,
{
    ((b[0] as u32) | ((b[1] as u32) << 8) | ((b[2] as u32) << 16) | ((b[3] as u32) << 24)) as u32
}

/// A whole frame: the length prefix, then the payload.
pub open spec fn frame_bytes(payload: Seq<u8>) -> Seq<u8>
    recommends
        payload.len() <= u32::MAX,
{
    u32_le_bytes(payload.len() as u32) + payload
}

/// Reading four little-endian bytes back gives the value they were made from.
pub proof fn lemma_u32_le_round_trip(n: u32)
    ensures
        u32_from_le_bytes(u32_le_bytes(n)) == n,
{
    assert((((n & 0xff) as u8 as u32) | ((((n >> 8) & 0xff) as u8 as u32) << 8) | ((((n >> 16)
        & 0xff) as u8 as u32) << 16) | ((((n >> 24) & 0xff) as u8 as u32) << 24)) as u32 == n)
        by (bit_vector);
}

/// Encode the four little-endian prefix bytes of `n`.
pub fn encode_u32_le(n: u32) -> (r: Vec<u8>)
    ensures
        r@ == u32_le_bytes(n),
{
    proof {
        assert(n & 0xff <= 0xff) by (bit_vector);
        assert((n >> 8) & 0xff <= 0xff) by (bit_vector);
        assert((n >> 16) & 0xff <= 0xff) by (bit_vector);
        assert((n >> 24) & 0xff <= 0xff) by (bit_vector);
    }
    let mut r: Vec<u8> = Vec::new();
    r.push((n & 0xff) as u8);
    r.push(((n >> 8) & 0xff) as u8);
    r.push(((n >> 16) & 0xff) as u8);
    r.push(((n >> 24) & 0xff) as u8);
    proof {
        assert(r@ =~= u32_le_bytes(n));
    }
    r
}

/// Read a 32-bit little-endian value out of `buf` at offset `at`.
pub fn read_u32_le_at(buf: &Vec<u8>, at: usize) -> (r: u32)
    requires
        at + 4 <= buf@.len(),
    ensures
        r == u32_from_le_bytes(buf@.subrange(at as int, at as int + 4)),
{
    // `len` pins the vector's length to a machine word, so `at + 3` fits.
    let len = buf.len();
    let r: u32 = (buf[at] as u32) | ((buf[at + 1] as u32) << 8) | ((buf[at + 2] as u32) << 16) | (
    (buf[at + 3] as u32) << 24);
    proof {
        assert(at + 4 <= len);
    }
    proof {
        let b = buf@.subrange(at as int, at as int + 4);
        assert(b[0] == buf@[at as int] && b[1] == buf@[at as int + 1] && b[2] == buf@[at as int + 2]
            && b[3] == buf@[at as int + 3]);
    }
    r
}

/// Encode one frame: the little-endian length prefix, then the payload bytes.
pub fn encode_frame(payload: &Vec<u8>) -> (r: Vec<u8>)
    requires
        payload@.len() <= u32::MAX,
    ensures
        r@ == frame_bytes(payload@),
{
    let n: u32 = payload.len() as u32;
    let mut r = encode_u32_le(n);
    let mut i: usize = 0;
    while i < payload.len()
        invariant
            i <= payload@.len(),
            payload@.len() <= u32::MAX,
            r@ == u32_le_bytes(payload@.len() as u32) + payload@.subrange(0, i as int),
        decreases payload@.len() - i,
    {
        r.push(payload[i]);
        i = i + 1;
        proof {
            assert(r@ =~= u32_le_bytes(payload@.len() as u32) + payload@.subrange(0, i as int));
        }
    }
    proof {
        assert(payload@.subrange(0, payload@.len() as int) =~= payload@);
        assert(r@ =~= frame_bytes(payload@));
    }
    r
}

/// The length the prefix at the front of `buf` announces.
pub open spec fn announced_len(buf: Seq<u8>) -> int
    recommends
        buf.len() >= 4,
{
    u32_from_le_bytes(buf.subrange(0, 4)) as int
}

/// Split one frame off the front of `buf`. Succeeds with the payload and the
/// number of bytes consumed exactly when the buffer holds the whole prefix
/// and the whole announced payload; bytes after the frame are left alone.
pub fn decode_frame(buf: &Vec<u8>) -> (r: Result<(Vec<u8>, usize), CodecError>)
    ensures
        match r {
            Ok(pc) => {
                &&& buf@.len() >= 4
                &&& 4 + announced_len(buf@) <= buf@.len()
                &&& pc.1 == 4 + announced_len(buf@)
                &&& pc.0@ == buf@.subrange(4, pc.1 as int)
            },
            Err(e) => {
                &&& e == CodecError::Truncated
                &&& (buf@.len() < 4 || buf@.len() < 4 + announced_len(buf@))
            },
        },
{
    if buf.len() < 4 {
        return Err(CodecError::Truncated);
    }
    let len = read_u32_le_at(buf, 0);
    if (buf.len() - 4) < len as usize {
        return Err(CodecError::Truncated);
    }
    let consumed: usize = 4 + len as usize;
    let mut payload: Vec<u8> = Vec::new();
    let mut i: usize = 4;
    while i < consumed
        invariant
            4 <= i <= consumed,
            consumed <= buf@.len(),
            payload@ == buf@.subrange(4, i as int),
        decreases consumed - i,
    {
        payload.push(buf[i]);
        i = i + 1;
        proof {
            assert(payload@ =~= buf@.subrange(4, i as int));
        }
    }
    Ok((payload, consumed))
}

/// Law: a frame decodes back to the payload it was built from, and consumes
/// exactly the frame, whatever bytes follow it on the stream.
pub proof fn lemma_frame_round_trip(payload: Seq<u8>, rest: Seq<u8>)
    requires
        payload.len() <= u32::MAX,
    ensures
        (frame_bytes(payload) + rest).len() >= 4,
        announced_len(frame_bytes(payload) + rest) == payload.len(),
        (frame_bytes(payload) + rest).subrange(4, 4 + payload.len() as int) == payload,
{
    let buf = frame_bytes(payload) + rest;
    assert(buf.subrange(0, 4) =~= u32_le_bytes(payload.len() as u32));
    lemma_u32_le_round_trip(payload.len() as u32);
    assert(buf.subrange(4, 4 + payload.len() as int) =~= payload);
}

} // verus!
