//! Length-prefixed framing of overlay messages: a 4-byte big-endian length,
//! then the body. Turning values into bodies (JSON) is the program's part.
use vstd::prelude::*;

verus! {

/// The big-endian bytes of a `u32`.
pub open spec fn u32_be_bytes(n: u32) -> Seq<u8> {
    seq![(n >> 24u32) as u8, ((n >> 16u32) & 0xff) as u8, ((n >> 8u32) & 0xff) as u8, (n & 0xff) as u8]
}

/// The `u32` that four big-endian bytes stand for.
pub open spec fn u32_from_be(b: Seq<u8>) -> u32 {
    ((b[0] as u32) << 24u32) | ((b[1] as u32) << 16u32) | ((b[2] as u32) << 8u32) | (b[3] as u32)
}

/// The frame of a body: its length (reduced to 32 bits, as the sender casts
/// it) in big-endian, then the body.
pub open spec fn frame(body: Seq<u8>) -> Seq<u8> {
    u32_be_bytes((body.len() % 0x1_0000_0000) as u32) + body
}

/// How a byte stream begins: with a complete frame, giving its body and the
/// bytes after it, or with too few bytes for one.
pub open spec fn first_frame(bytes: Seq<u8>) -> Option<(Seq<u8>, Seq<u8>)> {
    if bytes.len() < 4 {
        None
    } else if bytes.len() - 4 < u32_from_be(bytes.take(4)) {
        None
    } else {
        let n = u32_from_be(bytes.take(4)) as int;
        Some((bytes.subrange(4, 4 + n), bytes.subrange(4 + n, bytes.len() as int)))
    }
}

proof fn lemma_be_roundtrip(n: u32)
    ensures
        u32_from_be(u32_be_bytes(n)) == n,
{
    let b0 = (n >> 24u32) as u8;
    let b1 = ((n >> 16u32) & 0xff) as u8;
    let b2 = ((n >> 8u32) & 0xff) as u8;
    let b3 = (n & 0xff) as u8;
    assert(((b0 as u32) << 24u32) | ((b1 as u32) << 16u32) | ((b2 as u32) << 8u32) | (b3 as u32)
        == n) by (bit_vector)
        requires
            b0 == (n >> 24u32) as u8,
            b1 == ((n >> 16u32) & 0xff) as u8,
            b2 == ((n >> 8u32) & 0xff) as u8,
            b3 == (n & 0xff) as u8,
    ;
}

/// The frame of a body, ready to be written.
pub fn encode_frame(body: &[u8]) -> (r: Vec<u8>)
    ensures
        r@ == frame(body@),
{
    let len: u64 = body.len() as u64;
    let n: u32 = (len % 0x1_0000_0000u64) as u32;
    let mut r: Vec<u8> = Vec::new();
    r.push((n >> 24u32) as u8);
    r.push(((n >> 16u32) & 0xff) as u8);
    r.push(((n >> 8u32) & 0xff) as u8);
    r.push((n & 0xff) as u8);
    let mut i: usize = 0;
    while i < body.len()
        invariant
            i <= body@.len(),
            r@ == u32_be_bytes(n) + body@.take(i as int),
        decreases body@.len() - i,
    {
        r.push(body[i]);
        assert(body@.take(i + 1) =~= body@.take(i as int).push(body@[i as int]));
        i = i + 1;
    }
    assert(body@.take(body@.len() as int) =~= body@);
    r
}

/// The body length that a frame's 4-byte header announces.
pub fn decode_frame_length(header: &[u8; 4]) -> (r: u32)
    ensures
        r == u32_from_be(header@),
{
    ((header[0] as u32) << 24u32) | ((header[1] as u32) << 16u32) | ((header[2] as u32) << 8u32)
        | (header[3] as u32)
}

/// Reads the first frame of a byte stream: its body and the bytes after
/// it, or `None` when the stream ends before the frame does.
pub fn split_frame(bytes: &[u8]) -> (r: Option<(Vec<u8>, Vec<u8>)>)
    ensures
        match first_frame(bytes@) {
            Some((body, rest)) => r matches Some((b, t)) && b@ == body && t@ == rest,
            None => r is None,
        },
{
    if bytes.len() < 4 {
        return None;
    }
    let n: u32 = ((bytes[0] as u32) << 24u32) | ((bytes[1] as u32) << 16u32) | ((bytes[2] as u32)
        << 8u32) | (bytes[3] as u32);
    assert(n == u32_from_be(bytes@.take(4)));
    if bytes.len() - 4 < n as usize {
        return None;
    }
    let end: usize = 4 + n as usize;
    let body = vstd::slice::slice_to_vec(vstd::slice::slice_subrange(bytes, 4, end));
    let rest = vstd::slice::slice_to_vec(vstd::slice::slice_subrange(bytes, end, bytes.len()));
    Some((body, rest))
}

/// A frame read from the front of a stream gives back the body it was made
/// from, and the bytes after it, for every body of at most `u32::MAX` bytes.
pub proof fn lemma_frame_roundtrip(body: Seq<u8>, rest: Seq<u8>)
    requires
        body.len() <= u32::MAX,
    ensures
        first_frame(frame(body) + rest) == Some((body, rest)),
{
    let n = body.len() as u32;
    assert((body.len() % 0x1_0000_0000) as u32 == n);
    lemma_be_roundtrip(n);
    let s = frame(body) + rest;
    assert(s.take(4) =~= u32_be_bytes(n));
    assert(s.subrange(4, 4 + body.len() as int) =~= body);
    assert(s.subrange(4 + body.len() as int, s.len() as int) =~= rest);
}

} // verus!
