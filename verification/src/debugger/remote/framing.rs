//! Frames on the wire: a length of four bytes, least significant byte
//! first, and then as many bytes of message.
use crate::debugger::remote::protocol::ProtocolError;
use vstd::bytes::{
    lemma_auto_spec_u32_to_from_le_bytes, spec_u32_from_le_bytes, spec_u32_to_le_bytes,
    u32_from_le_bytes, u32_to_le_bytes,
};
use vstd::prelude::*;

verus! {

/// Number of bytes of the length that starts a frame.
pub const LENGTH_PREFIX: usize = 4;

/// The frame of a message of at most `u32::MAX` bytes.
pub open spec fn framed(payload: Seq<u8>) -> Seq<u8> {
    spec_u32_to_le_bytes(payload.len() as u32) + payload
}

/// What the start of a buffer holds.
pub enum Decoded {
    /// No whole frame yet: at least `missing` more bytes are needed.
    Incomplete { missing: usize },
    /// A whole frame, which with its length takes up `consumed` bytes.
    Frame { payload: Vec<u8>, consumed: usize },
}

/// The length that the first four bytes of a buffer announce.
pub open spec fn announced(buffer: Seq<u8>) -> int {
    spec_u32_from_le_bytes(buffer.take(4)) as int
}

/// Whether `decoded` is what the start of `buffer` holds: a frame where
/// the length and as many bytes as it announces are there, else the number
/// of bytes that are missing for the length or for the message.
pub open spec fn decodes(buffer: Seq<u8>, decoded: Decoded) -> bool {
    if buffer.len() < 4 {
        decoded == (Decoded::Incomplete { missing: (4 - buffer.len()) as usize })
    } else if buffer.len() - 4 < announced(buffer) {
        decoded == (Decoded::Incomplete {
            missing: (announced(buffer) - (buffer.len() - 4)) as usize,
        })
    } else {
        &&& decoded matches Decoded::Frame { payload, consumed }
        &&& payload@ == buffer.subrange(4, 4 + announced(buffer))
        &&& consumed == 4 + announced(buffer)
    }
}

/// Putting a message into a frame and taking the frame off the start of a
/// buffer gives the message back, whatever follows the frame.
pub proof fn lemma_frame_round_trip(payload: Seq<u8>, rest: Seq<u8>)
    requires
        payload.len() <= u32::MAX,
    ensures
        framed(payload).len() == payload.len() + 4,
        (framed(payload) + rest).len() >= 4,
        announced(framed(payload) + rest) == payload.len(),
        (framed(payload) + rest).subrange(4, 4 + announced(framed(payload) + rest)) == payload,
        (framed(payload) + rest).skip(4 + announced(framed(payload) + rest)) == rest,
{
    lemma_auto_spec_u32_to_from_le_bytes();
    let prefix = spec_u32_to_le_bytes(payload.len() as u32);
    let buffer = framed(payload) + rest;
    assert(prefix.len() == 4);
    assert(buffer.take(4) =~= prefix);
    assert(buffer.subrange(4, 4 + payload.len() as int) =~= payload);
    assert(buffer.skip(4 + payload.len() as int) =~= rest);
}

/// The frame of a message.  A message of more than `u32::MAX` bytes has
/// no frame.
pub fn encode_frame(payload: &[u8]) -> (r: Result<Vec<u8>, ProtocolError>)
    ensures
        payload@.len() <= u32::MAX ==> r is Ok && r->Ok_0@ == framed(payload@),
        payload@.len() > u32::MAX ==> r == Err::<Vec<u8>, ProtocolError>(
            ProtocolError::Serialization,
        ),
{
    if payload.len() > 0xffff_ffff {
        return Err(ProtocolError::Serialization);
    }
    let mut frame = u32_to_le_bytes(payload.len() as u32);
    let ghost prefix = frame@;
    let mut i: usize = 0;
    while i < payload.len()
        invariant
            i <= payload@.len(),
            frame@ == prefix + payload@.take(i as int),
        decreases payload@.len() - i,
    {
        frame.push(payload[i]);
        assert(payload@.take(i as int + 1) == payload@.take(i as int).push(payload@[i as int]));
        i += 1;
    }
    assert(payload@.take(payload@.len() as int) == payload@);
    Ok(frame)
}

/// The length of the message that the four bytes of a length announce.
pub fn frame_length(prefix: &[u8]) -> (length: usize)
    requires
        prefix@.len() == 4,
    ensures
        length == spec_u32_from_le_bytes(prefix@),
{
    u32_from_le_bytes(prefix) as usize
}

/// Takes the first frame off a buffer of received bytes.
pub fn decode_frame(buffer: &[u8]) -> (decoded: Decoded)
    ensures
        decodes(buffer@, decoded),
{
    if buffer.len() < LENGTH_PREFIX {
        return Decoded::Incomplete { missing: LENGTH_PREFIX - buffer.len() };
    }
    let prefix = vstd::slice::slice_subrange(buffer, 0, LENGTH_PREFIX);
    assert(prefix@ == buffer@.take(4));
    let length = frame_length(prefix);
    let available = buffer.len() - LENGTH_PREFIX;
    if available < length {
        return Decoded::Incomplete { missing: length - available };
    }
    let mut payload: Vec<u8> = Vec::new();
    let mut i: usize = 0;
    let total: usize = buffer.len();
    while i < length
        invariant
            i <= length,
            total == buffer@.len(),
            4 + length <= buffer@.len(),
            payload@ == buffer@.subrange(4, 4 + i),
        decreases length - i,
    {
        payload.push(buffer[LENGTH_PREFIX + i]);
        assert(buffer@.subrange(4, 4 + i + 1) == buffer@.subrange(4, 4 + i).push(buffer@[4 + i]));
        i += 1;
    }
    Decoded::Frame { payload, consumed: LENGTH_PREFIX + length }
}

} // verus!
