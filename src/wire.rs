//! Fixed-width integers as bytes: the frame header and the message payload.
use bincode::error::{DecodeError, EncodeError};
use vstd::prelude::*;

verus! {

/// The eight bytes of `n`, least significant first.
pub open spec fn le_u64_bytes(n: u64) -> Seq<u8> {
    seq![
        (n & 0xff) as u8,
        ((n >> 8u64) & 0xff) as u8,
        ((n >> 16u64) & 0xff) as u8,
        ((n >> 24u64) & 0xff) as u8,
        ((n >> 32u64) & 0xff) as u8,
        ((n >> 40u64) & 0xff) as u8,
        ((n >> 48u64) & 0xff) as u8,
        ((n >> 56u64) & 0xff) as u8,
    ]
}

/// The number whose little-endian bytes are the first eight of `b`.
pub open spec fn le_u64_value(b: Seq<u8>) -> u64
    recommends
        b.len() >= 8,
{
    (b[0] as u64) | ((b[1] as u64) << 8u64) | ((b[2] as u64) << 16u64) | ((b[3] as u64) << 24u64)
        | ((b[4] as u64) << 32u64) | ((b[5] as u64) << 40u64) | ((b[6] as u64) << 48u64) | ((
    b[7] as u64) << 56u64)
}

/// Reading back the little-endian bytes of a number gives the number.
pub proof fn lemma_le_u64_round_trip(n: u64)
    ensures
        le_u64_value(le_u64_bytes(n)) == n,
{
    let b = le_u64_bytes(n);
    let (b0, b1, b2, b3) = (b[0], b[1], b[2], b[3]);
    let (b4, b5, b6, b7) = (b[4], b[5], b[6], b[7]);
    assert(b0 == (n & 0xff) as u8 && b1 == ((n >> 8u64) & 0xff) as u8 && b2 == ((n >> 16u64)
        & 0xff) as u8 && b3 == ((n >> 24u64) & 0xff) as u8 && b4 == ((n >> 32u64) & 0xff) as u8
        && b5 == ((n >> 40u64) & 0xff) as u8 && b6 == ((n >> 48u64) & 0xff) as u8 && b7 == ((n
        >> 56u64) & 0xff) as u8 ==> n == (b0 as u64) | ((b1 as u64) << 8u64) | ((b2 as u64)
        << 16u64) | ((b3 as u64) << 24u64) | ((b4 as u64) << 32u64) | ((b5 as u64) << 40u64)
        | ((b6 as u64) << 48u64) | ((b7 as u64) << 56u64)) by (bit_vector);
}

/// The four bytes of `v`, most significant first.
pub open spec fn be_u32_bytes(v: u32) -> Seq<u8> {
    seq![
        ((v >> 24u32) & 0xff) as u8,
        ((v >> 16u32) & 0xff) as u8,
        ((v >> 8u32) & 0xff) as u8,
        (v & 0xff) as u8,
    ]
}

/// The number whose big-endian bytes are the first four of `b`.
pub open spec fn be_u32_value(b: Seq<u8>) -> u32
    recommends
        b.len() >= 4,
{
    ((b[0] as u32) << 24u32) | ((b[1] as u32) << 16u32) | ((b[2] as u32) << 8u32) | (b[3] as u32)
}

/// Reading back the big-endian bytes of a number gives the number.
pub proof fn lemma_be_u32_round_trip(v: u32)
    ensures
        be_u32_value(be_u32_bytes(v)) == v,
{
    let b = be_u32_bytes(v);
    let (b0, b1, b2, b3) = (b[0], b[1], b[2], b[3]);
    assert(b0 == ((v >> 24u32) & 0xff) as u8 && b1 == ((v >> 16u32) & 0xff) as u8 && b2 == ((v
        >> 8u32) & 0xff) as u8 && b3 == (v & 0xff) as u8 ==> v == ((b0 as u32) << 24u32) | ((
    b1 as u32) << 16u32) | ((b2 as u32) << 8u32) | (b3 as u32)) by (bit_vector);
}

/// The little-endian bytes of `n`.
pub fn le_u64_encode(n: u64) -> (r: Vec<u8>)
    ensures
        r@ == le_u64_bytes(n),
{
    let mut r: Vec<u8> = Vec::with_capacity(8);
    r.push((n & 0xff) as u8);
    r.push(((n >> 8u64) & 0xff) as u8);
    r.push(((n >> 16u64) & 0xff) as u8);
    r.push(((n >> 24u64) & 0xff) as u8);
    r.push(((n >> 32u64) & 0xff) as u8);
    r.push(((n >> 40u64) & 0xff) as u8);
    r.push(((n >> 48u64) & 0xff) as u8);
    r.push(((n >> 56u64) & 0xff) as u8);
    assert(r@ =~= le_u64_bytes(n));
    r
}

/// The number whose little-endian bytes open `b`.
pub fn le_u64_decode(b: &[u8]) -> (r: u64)
    requires
        b@.len() >= 8,
    ensures
        r == le_u64_value(b@),
{
    (b[0] as u64) | ((b[1] as u64) << 8u64) | ((b[2] as u64) << 16u64) | ((b[3] as u64) << 24u64)
        | ((b[4] as u64) << 32u64) | ((b[5] as u64) << 40u64) | ((b[6] as u64) << 48u64) | ((
    b[7] as u64) << 56u64)
}

} // verus!

verus! {

#[verifier::external_type_specification]
#[verifier::external_body]
pub struct ExEncodeError(EncodeError);

#[verifier::external_type_specification]
#[verifier::external_body]
pub struct ExDecodeError(DecodeError);

/// Relies on `bincode::encode_to_vec` under the standard configuration with
/// big-endian, fixed-width integers: a `u32` is written as its four bytes,
/// most significant first, into a vector writer that never fails.
#[verifier::external_body]
pub(crate) fn bincode_encode_u32(v: u32) -> (r: Result<Vec<u8>, EncodeError>)
    ensures
        r is Ok,
        r->Ok_0@ == be_u32_bytes(v),
{
    let config = bincode::config::standard().with_big_endian().with_fixed_int_encoding();
    bincode::encode_to_vec(v, config)
}

/// Relies on `bincode::decode_from_slice` under the standard configuration
/// with big-endian, fixed-width integers and no limit: a `u32` is read from
/// the first four bytes, most significant first (the count of bytes read,
/// always four, is dropped); a slice shorter than four bytes is an error.
#[verifier::external_body]
pub(crate) fn bincode_decode_u32(src: &[u8]) -> (r: Result<u32, DecodeError>)
    ensures
        src@.len() >= 4 ==> r is Ok && r->Ok_0 == be_u32_value(src@),
        src@.len() < 4 ==> r is Err,
{
    let config = bincode::config::standard().with_big_endian().with_fixed_int_encoding();
    bincode::decode_from_slice::<u32, _>(src, config).map(|(v, _read)| v)
}

} // verus!
