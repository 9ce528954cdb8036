//! The frame codec: one message per frame, an eight-byte little-endian length
//! header followed by that many payload bytes.
use crate::message::Message;
use crate::wire::{
    be_u32_bytes, be_u32_value, bincode_decode_u32, bincode_encode_u32, le_u64_bytes,
    le_u64_decode, le_u64_encode, le_u64_value, lemma_be_u32_round_trip, lemma_le_u64_round_trip,
};
use vstd::prelude::*;
use vstd::slice::slice_subrange;

verus! {

/// Why a frame could not be read.
#[derive(PartialEq, Eq, Structural, Debug, Clone, Copy)]
pub enum ReadError {
    /// The byte stream itself failed.
    Transport,
    /// The stream closed cleanly, on a frame boundary.
    Disconnected,
    /// The stream closed inside a frame, before all the bytes it announced.
    ShortRead,
    /// The payload does not hold a legal value.
    Decode,
}

/// Why a frame could not be written.
#[derive(PartialEq, Eq, Structural, Debug, Clone, Copy)]
pub enum WriteError {
    /// The value could not be encoded.
    Encode,
    /// The byte stream itself failed.
    Transport,
}

/// The length of a frame header.
pub const HEADER_LEN: usize = 8;

/// One frame: the payload's length as eight little-endian bytes, then the
/// payload itself.
pub open spec fn frame(payload: Seq<u8>) -> Seq<u8>
    recommends
        payload.len() <= u64::MAX,
{
    le_u64_bytes(payload.len() as u64) + payload
}

/// The payload that carries `m`: its tag as four big-endian bytes.
pub open spec fn payload_of<M: Message>(m: M) -> Seq<u8> {
    be_u32_bytes(m.spec_tag())
}

/// The frame that carries `m`.
pub open spec fn frame_of<M: Message>(m: M) -> Seq<u8> {
    frame(payload_of(m))
}

/// The value that a payload holds: the tag in its first four bytes, read
/// big-endian, if that tag stands for a value.
pub open spec fn payload_value<M: Message>(p: Seq<u8>) -> Option<M> {
    if p.len() >= 4 {
        M::spec_from_tag(be_u32_value(p))
    } else {
        None
    }
}

/// The payload length announced by the header that opens `s`.
pub open spec fn announced(s: Seq<u8>) -> nat {
    le_u64_value(s) as nat
}

/// What reading one frame from a stream gives when the stream yields exactly
/// `s` and then closes: the value and the number of bytes its frame took, or
/// why no value came.
pub open spec fn decode_stream<M: Message>(s: Seq<u8>) -> Result<(M, nat), ReadError> {
    if s.len() == 0 {
        Err(ReadError::Disconnected)
    } else if s.len() < 8 || s.len() < 8 + announced(s) {
        Err(ReadError::ShortRead)
    } else {
        match payload_value::<M>(s.subrange(8, 8 + announced(s) as int)) {
            Some(m) => Ok((m, 8 + announced(s))),
            None => Err(ReadError::Decode),
        }
    }
}

/// The outcome of `decode_stream` without the byte count.
pub open spec fn frame_result<M: Message>(s: Seq<u8>) -> Result<M, ReadError> {
    match decode_stream::<M>(s) {
        Ok((m, _)) => Ok(m),
        Err(e) => Err(e),
    }
}

/// Frames `payload`: prepends its length as an eight-byte little-endian
/// header.
pub fn frame_payload(payload: &[u8]) -> (r: Vec<u8>)
    requires
        payload@.len() <= u64::MAX,
    ensures
        r@ == frame(payload@),
{
    let mut r = le_u64_encode(payload.len() as u64);
    let mut i: usize = 0;
    while i < payload.len()
        invariant
            i <= payload@.len() <= u64::MAX,
            r@ == le_u64_bytes(payload@.len() as u64) + payload@.subrange(0, i as int),
        decreases payload@.len() - i,
    {
        r.push(payload[i]);
        i = i + 1;
        assert(r@ =~= le_u64_bytes(payload@.len() as u64) + payload@.subrange(0, i as int));
    }
    assert(payload@.subrange(0, payload@.len() as int) =~= payload@);
    r
}

/// The payload that carries `m`.
pub fn encode_payload<M: Message>(m: &M) -> (r: Result<Vec<u8>, WriteError>)
    ensures
        r is Ok,
        r->Ok_0@ == payload_of(*m),
{
    match bincode_encode_u32(m.tag()) {
        Ok(bytes) => Ok(bytes),
        Err(_) => Err(WriteError::Encode),
    }
}

/// The frame that carries `m`, header and payload together, ready to be
/// written in one piece.
pub fn encode<M: Message>(m: &M) -> (r: Result<Vec<u8>, WriteError>)
    ensures
        r is Ok,
        r->Ok_0@ == frame_of(*m),
{
    match encode_payload(m) {
        Ok(payload) => Ok(frame_payload(payload.as_slice())),
        Err(e) => Err(e),
    }
}

/// The value that `payload` holds, if it holds one.
pub fn decode_payload<M: Message>(payload: &[u8]) -> (r: Option<M>)
    ensures
        r == payload_value::<M>(payload@),
{
    match bincode_decode_u32(payload) {
        Ok(tag) => M::from_tag(tag),
        Err(_) => None,
    }
}

/// Reads one frame from the front of `input`, taken as all that a stream
/// yields before it closes: the value and the number of bytes its frame took.
pub fn decode<M: Message>(input: &[u8]) -> (r: Result<(M, usize), ReadError>)
    ensures
        match decode_stream::<M>(input@) {
            Ok((m, n)) => r is Ok && r->Ok_0.0 == m && r->Ok_0.1 == n,
            Err(e) => r is Err && r->Err_0 == e,
        },
{
    if input.len() == 0 {
        return Err(ReadError::Disconnected);
    }
    if input.len() < HEADER_LEN {
        return Err(ReadError::ShortRead);
    }
    let n = le_u64_decode(input);
    let available = (input.len() - HEADER_LEN) as u64;
    if available < n {
        return Err(ReadError::ShortRead);
    }
    let end = HEADER_LEN + n as usize;
    let payload = slice_subrange(input, HEADER_LEN, end);
    match decode_payload::<M>(payload) {
        Some(m) => Ok((m, end)),
        None => Err(ReadError::Decode),
    }
}

/// `le_u64_value` reads the first eight bytes alone.
proof fn lemma_announced_prefix(s: Seq<u8>, t: Seq<u8>)
    requires
        s.len() >= 8,
        t.len() >= 8,
        forall|i: int| 0 <= i < 8 ==> s[i] == t[i],
    ensures
        le_u64_value(s) == le_u64_value(t),
{
    assert(s[0] == t[0] && s[1] == t[1] && s[2] == t[2] && s[3] == t[3]);
    assert(s[4] == t[4] && s[5] == t[5] && s[6] == t[6] && s[7] == t[7]);
}

/// The header of `frame(p)`, read back, announces the length of `p`, and
/// the bytes it announces are `p`, whatever follows the frame.
proof fn lemma_frame_layout(p: Seq<u8>, rest: Seq<u8>)
    requires
        p.len() <= u64::MAX,
    ensures
        (frame(p) + rest).len() >= 8,
        announced(frame(p) + rest) == p.len(),
        (frame(p) + rest).subrange(8, 8 + p.len() as int) == p,
{
    let s = frame(p) + rest;
    let h = le_u64_bytes(p.len() as u64);
    lemma_le_u64_round_trip(p.len() as u64);
    assert forall|i: int| 0 <= i < 8 implies s[i] == h[i] by {}
    lemma_announced_prefix(s, h);
    assert(s.subrange(8, 8 + p.len() as int) =~= p);
}

/// A complete, legal frame decodes the same whatever bytes follow it:
/// decoding never reads past the frame it returns.
pub proof fn lemma_decode_ignores_what_follows<M: Message>(s: Seq<u8>, rest: Seq<u8>)
    requires
        decode_stream::<M>(s) is Ok,
        decode_stream::<M>(s)->Ok_0.1 == s.len(),
    ensures
        decode_stream::<M>(s + rest) == decode_stream::<M>(s),
{
    let t = s + rest;
    assert forall|i: int| 0 <= i < 8 implies t[i] == s[i] by {}
    lemma_announced_prefix(t, s);
    assert(t.subrange(8, 8 + announced(s) as int) =~= s.subrange(8, 8 + announced(s) as int));
}

/// Every value survives a round trip: the frame that carries it decodes to
/// it, and decoding takes the whole frame and nothing more.
pub proof fn lemma_round_trip<M: Message>(m: M)
    ensures
        decode_stream::<M>(frame_of(m)) is Ok,
        decode_stream::<M>(frame_of(m))->Ok_0 == (m, frame_of(m).len()),
{
    let p = payload_of(m);
    lemma_frame_layout(p, Seq::empty());
    assert(frame(p) + Seq::empty() =~= frame(p));
    lemma_be_u32_round_trip(m.spec_tag());
    m.lemma_tag_round_trip();
}

/// Two frames written one after the other onto a stream are read back in
/// order: the first read gives the first value and takes exactly its frame,
/// and the second read, on the bytes that remain, gives the second value and
/// takes exactly the rest.
pub proof fn lemma_frames_in_sequence<M: Message>(first: M, second: M)
    ensures
        decode_stream::<M>(frame_of(first) + frame_of(second)) is Ok,
        decode_stream::<M>(frame_of(first) + frame_of(second))->Ok_0 == (
            first,
            frame_of(first).len(),
        ),
        (frame_of(first) + frame_of(second)).subrange(
            frame_of(first).len() as int,
            (frame_of(first) + frame_of(second)).len() as int,
        ) == frame_of(second),
        decode_stream::<M>(frame_of(second)) is Ok,
        decode_stream::<M>(frame_of(second))->Ok_0 == (second, frame_of(second).len()),
{
    let a = frame_of(first);
    let b = frame_of(second);
    lemma_round_trip(first);
    lemma_round_trip(second);
    lemma_decode_ignores_what_follows::<M>(a, b);
    assert((a + b).subrange(a.len() as int, (a + b).len() as int) =~= b);
}

/// A header that announces `n` bytes, followed by fewer than `n` bytes and
/// then the end of the stream, is a short read and never a value; so is a
/// stream that ends inside the header.
pub proof fn lemma_short_read<M: Message>(n: u64, rest: Seq<u8>, cut: Seq<u8>)
    requires
        rest.len() < n,
        0 < cut.len() < 8,
    ensures
        decode_stream::<M>(le_u64_bytes(n) + rest) is Err,
        decode_stream::<M>(le_u64_bytes(n) + rest)->Err_0 == ReadError::ShortRead,
        decode_stream::<M>(cut) is Err,
        decode_stream::<M>(cut)->Err_0 == ReadError::ShortRead,
{
    let s = le_u64_bytes(n) + rest;
    let h = le_u64_bytes(n);
    lemma_le_u64_round_trip(n);
    assert forall|i: int| 0 <= i < 8 implies s[i] == h[i] by {}
    lemma_announced_prefix(s, h);
}

} // verus!
