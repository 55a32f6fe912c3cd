//! Frames exchanged over the frame socket and their wire form.
//!
//! A frame travels as bincode (fixed-width integer encoding, little endian)
//! encodes a struct whose only field is a byte vector: an eight-byte
//! little-endian length followed by that many bytes.

use vstd::prelude::*;
use vstd::slice::slice_subrange;

verus! {

#[verifier::external_type_specification]
#[verifier::external_body]
pub struct ExBincodeErrorKind(bincode::ErrorKind);

/// One frame of data received from a sender.
#[derive(Clone, Debug)]
pub struct FrameData {
    pub frame: Vec<u8>,
}

/// Why received bytes could not be turned into a frame.
#[derive(Debug)]
pub enum FrameError {
    /// bincode refused the bytes.
    Decode(Box<bincode::ErrorKind>),
}

/// The eight little-endian bytes of `n`.
pub open spec fn u64_le_bytes(n: u64) -> Seq<u8> {
    seq![
        n as u8,
        (n >> 8u64) as u8,
        (n >> 16u64) as u8,
        (n >> 24u64) as u8,
        (n >> 32u64) as u8,
        (n >> 40u64) as u8,
        (n >> 48u64) as u8,
        (n >> 56u64) as u8,
    ]
}

/// The value of the first eight bytes of `b` read as a little-endian `u64`.
pub open spec fn u64_from_le(b: Seq<u8>) -> u64
    recommends
        b.len() >= 8,
{
    le_word(b[0], b[1], b[2], b[3], b[4], b[5], b[6], b[7])
}

/// Eight bytes, least significant first, combined into a `u64`.
pub open spec fn le_word(b0: u8, b1: u8, b2: u8, b3: u8, b4: u8, b5: u8, b6: u8, b7: u8) -> u64 {
    (b0 as u64) | ((b1 as u64) << 8u64) | ((b2 as u64) << 16u64) | ((b3 as u64) << 24u64) | ((
    b4 as u64) << 32u64) | ((b5 as u64) << 40u64) | ((b6 as u64) << 48u64) | ((b7 as u64)
        << 56u64)
}

/// The wire form of a frame whose bytes are `payload`: its length as eight
/// little-endian bytes, then the bytes.
pub open spec fn frame_encoding(payload: Seq<u8>) -> Seq<u8> {
    u64_le_bytes(payload.len() as u64) + payload
}

/// The frame bytes that `b` holds, if any: `b` must start with an eight-byte
/// little-endian length `n` followed by at least `n` bytes; bytes after those
/// are ignored.
pub open spec fn decoded_frame(b: Seq<u8>) -> Option<Seq<u8>> {
    if b.len() >= 8 && u64_from_le(b) <= b.len() - 8 {
        Some(b.subrange(8, 8 + u64_from_le(b)))
    } else {
        None
    }
}

/// Calls `bincode::deserialize::<Vec<u8>>` on `bytes`.
/// Trusted: bincode's default functions read a sequence length as a fixed
/// eight-byte little-endian `u64` and then one byte per element, fail when the
/// input runs out, and ignore trailing bytes; so the call succeeds exactly when
/// [`decoded_frame`] is `Some`, and returns those bytes.
#[verifier::external_body]
fn bincode_decode_bytes(bytes: &[u8]) -> (r: Result<Vec<u8>, Box<bincode::ErrorKind>>)
    ensures
        r is Ok <==> decoded_frame(bytes@) is Some,
        r matches Ok(v) ==> decoded_frame(bytes@) == Some(v@),
{
    bincode::deserialize::<Vec<u8>>(bytes)
}

/// Calls `bincode::serialize_into` with a `Vec<u8>` writer and a byte vector.
/// Trusted: bincode's default functions write the length as a fixed eight-byte
/// little-endian `u64` followed by the bytes, and writing into a `Vec<u8>`
/// cannot fail; the bytes are appended to `buf`.
#[verifier::external_body]
fn bincode_encode_bytes_into(buf: &mut Vec<u8>, data: &Vec<u8>) -> (r: Result<(), Box<bincode::ErrorKind>>)
    ensures
        r is Ok,
        final(buf)@ == old(buf)@ + frame_encoding(data@),
{
    bincode::serialize_into(&mut *buf, data)
}

/// Turns the first `len` received bytes of `buf` into a frame.
pub fn decode_frame(buf: &[u8], len: usize) -> (r: Result<FrameData, FrameError>)
    requires
        len <= buf@.len(),
    ensures
        r is Ok <==> decoded_frame(buf@.subrange(0, len as int)) is Some,
        r matches Ok(f) ==> decoded_frame(buf@.subrange(0, len as int)) == Some(f.frame@),
{
    let received = slice_subrange(buf, 0, len);
    match bincode_decode_bytes(received) {
        Ok(frame) => Ok(FrameData { frame }),
        Err(e) => Err(FrameError::Decode(e)),
    }
}

/// Replaces the contents of `buf` with the wire form of `frame`.
pub fn encode_frame(frame: &FrameData, buf: &mut Vec<u8>)
    ensures
        final(buf)@ == frame_encoding(frame.frame@),
{
    buf.clear();
    let r = bincode_encode_bytes_into(buf, &frame.frame);
    assert(buf@ =~= frame_encoding(frame.frame@));
}

/// The wire form of a frame decodes to the same frame, whatever bytes follow it.
pub proof fn lemma_frame_roundtrip(payload: Seq<u8>, rest: Seq<u8>)
    requires
        payload.len() <= u64::MAX,
    ensures
        decoded_frame(frame_encoding(payload) + rest) == Some(payload),
{
    let n = payload.len() as u64;
    let b = frame_encoding(payload) + rest;
    assert(le_word(
        n as u8,
        (n >> 8u64) as u8,
        (n >> 16u64) as u8,
        (n >> 24u64) as u8,
        (n >> 32u64) as u8,
        (n >> 40u64) as u8,
        (n >> 48u64) as u8,
        (n >> 56u64) as u8,
    ) == n) by (bit_vector);
    assert(b[0] == n as u8);
    assert(b[1] == (n >> 8u64) as u8);
    assert(b[2] == (n >> 16u64) as u8);
    assert(b[3] == (n >> 24u64) as u8);
    assert(b[4] == (n >> 32u64) as u8);
    assert(b[5] == (n >> 40u64) as u8);
    assert(b[6] == (n >> 48u64) as u8);
    assert(b[7] == (n >> 56u64) as u8);
    assert(u64_from_le(b) == n);
    assert(b.subrange(8, 8 + n) =~= payload);
}

} // verus!
