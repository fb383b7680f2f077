//! Big-endian integer encoding shared by the snapshot wire format.
//!
//! Reads and writes go through `byteorder::BigEndian`, as the snapshot
//! codec always has.
use byteorder::{BigEndian, ByteOrder};
use vstd::prelude::*;

verus! {

/// The big-endian `u16` stored at `s[p..p + 2]`.
pub open spec fn be_u16(s: Seq<u8>, p: int) -> u16 {
    ((s[p] as u16) << 8u16) | (s[p + 1] as u16)
}

/// The big-endian `u32` stored at `s[p..p + 4]`.
pub open spec fn be_u32(s: Seq<u8>, p: int) -> u32 {
    ((s[p] as u32) << 24u32) | ((s[p + 1] as u32) << 16u32) | ((s[p + 2] as u32) << 8u32) | (s[p
        + 3] as u32)
}

/// The big-endian `u64` stored at `s[p..p + 8]`.
pub open spec fn be_u64(s: Seq<u8>, p: int) -> u64 {
    ((s[p] as u64) << 56u64) | ((s[p + 1] as u64) << 48u64) | ((s[p + 2] as u64) << 40u64) | ((s[p
        + 3] as u64) << 32u64) | ((s[p + 4] as u64) << 24u64) | ((s[p + 5] as u64) << 16u64) | ((s[p
        + 6] as u64) << 8u64) | (s[p + 7] as u64)
}

/// The big-endian two's-complement `i16` stored at `s[p..p + 2]`.
pub open spec fn be_i16(s: Seq<u8>, p: int) -> i16 {
    be_u16(s, p) as i16
}

/// The two bytes of `n`, most significant first.
pub open spec fn u16_bytes(n: u16) -> Seq<u8> {
    seq![(n >> 8u16) as u8, n as u8]
}

/// The four bytes of `n`, most significant first.
pub open spec fn u32_bytes(n: u32) -> Seq<u8> {
    seq![(n >> 24u32) as u8, (n >> 16u32) as u8, (n >> 8u32) as u8, n as u8]
}

/// The eight bytes of `n`, most significant first.
pub open spec fn u64_bytes(n: u64) -> Seq<u8> {
    seq![
        (n >> 56u64) as u8,
        (n >> 48u64) as u8,
        (n >> 40u64) as u8,
        (n >> 32u64) as u8,
        (n >> 24u64) as u8,
        (n >> 16u64) as u8,
        (n >> 8u64) as u8,
        n as u8,
    ]
}

/// The two bytes of the two's-complement form of `n`, most significant first.
pub open spec fn i16_bytes(n: i16) -> Seq<u8> {
    u16_bytes(n as u16)
}

/// Reading back the bytes of a `u16` gives the `u16`.
pub proof fn lemma_u16_roundtrip(n: u16, s: Seq<u8>, p: int)
    requires
        0 <= p,
        p + 2 <= s.len(),
        s.subrange(p, p + 2) == u16_bytes(n),
    ensures
        be_u16(s, p) == n,
{
    assert(s[p] == s.subrange(p, p + 2)[0]);
    assert(s[p + 1] == s.subrange(p, p + 2)[1]);
    let a = s[p];
    let b = s[p + 1];
    assert(a == (n >> 8u16) as u8 && b == n as u8 ==> ((a as u16) << 8u16) | (b as u16) == n)
        by (bit_vector);
}

/// Reading back the bytes of a `u32` gives the `u32`.
pub proof fn lemma_u32_roundtrip(n: u32, s: Seq<u8>, p: int)
    requires
        0 <= p,
        p + 4 <= s.len(),
        s.subrange(p, p + 4) == u32_bytes(n),
    ensures
        be_u32(s, p) == n,
{
    let t = s.subrange(p, p + 4);
    assert(s[p] == t[0] && s[p + 1] == t[1] && s[p + 2] == t[2] && s[p + 3] == t[3]);
    let (b0, b1, b2, b3) = (s[p], s[p + 1], s[p + 2], s[p + 3]);
    assert(b0 == (n >> 24u32) as u8 && b1 == (n >> 16u32) as u8 && b2 == (n >> 8u32) as u8 && b3
        == n as u8 ==> ((b0 as u32) << 24u32) | ((b1 as u32) << 16u32) | ((b2 as u32) << 8u32) | (
    b3 as u32) == n) by (bit_vector);
}

/// Reading back the bytes of a `u64` gives the `u64`.
pub proof fn lemma_u64_roundtrip(n: u64, s: Seq<u8>, p: int)
    requires
        0 <= p,
        p + 8 <= s.len(),
        s.subrange(p, p + 8) == u64_bytes(n),
    ensures
        be_u64(s, p) == n,
{
    let t = s.subrange(p, p + 8);
    assert(s[p] == t[0] && s[p + 1] == t[1] && s[p + 2] == t[2] && s[p + 3] == t[3]);
    assert(s[p + 4] == t[4] && s[p + 5] == t[5] && s[p + 6] == t[6] && s[p + 7] == t[7]);
    let (b0, b1, b2, b3) = (s[p], s[p + 1], s[p + 2], s[p + 3]);
    let (b4, b5, b6, b7) = (s[p + 4], s[p + 5], s[p + 6], s[p + 7]);
    assert(b0 == (n >> 56u64) as u8 && b1 == (n >> 48u64) as u8 && b2 == (n >> 40u64) as u8 && b3
        == (n >> 32u64) as u8 && b4 == (n >> 24u64) as u8 && b5 == (n >> 16u64) as u8 && b6 == (n
        >> 8u64) as u8 && b7 == n as u8 ==> ((b0 as u64) << 56u64) | ((b1 as u64) << 48u64) | ((
    b2 as u64) << 40u64) | ((b3 as u64) << 32u64) | ((b4 as u64) << 24u64) | ((b5 as u64)
        << 16u64) | ((b6 as u64) << 8u64) | (b7 as u64) == n) by (bit_vector);
}

/// Reading back the bytes of an `i16` gives the `i16`.
pub proof fn lemma_i16_roundtrip(n: i16, s: Seq<u8>, p: int)
    requires
        0 <= p,
        p + 2 <= s.len(),
        s.subrange(p, p + 2) == i16_bytes(n),
    ensures
        be_i16(s, p) == n,
{
    lemma_u16_roundtrip(n as u16, s, p);
    assert(((n as u16) as i16) == n) by (bit_vector);
}

/// `BigEndian::read_u16` on `buf[pos..]`: the first two bytes, most
/// significant first.
#[verifier::external_body]
pub(crate) fn read_be_u16(buf: &[u8], pos: usize) -> (r: u16)
    requires
        pos + 2 <= buf@.len(),
    ensures
        r == be_u16(buf@, pos as int),
{
    BigEndian::read_u16(&buf[pos..])
}

/// `BigEndian::read_u32` on `buf[pos..]`: the first four bytes, most
/// significant first.
#[verifier::external_body]
pub(crate) fn read_be_u32(buf: &[u8], pos: usize) -> (r: u32)
    requires
        pos + 4 <= buf@.len(),
    ensures
        r == be_u32(buf@, pos as int),
{
    BigEndian::read_u32(&buf[pos..])
}

/// `BigEndian::read_u64` on `buf[pos..]`: the first eight bytes, most
/// significant first.
#[verifier::external_body]
pub(crate) fn read_be_u64(buf: &[u8], pos: usize) -> (r: u64)
    requires
        pos + 8 <= buf@.len(),
    ensures
        r == be_u64(buf@, pos as int),
{
    BigEndian::read_u64(&buf[pos..])
}

/// `BigEndian::read_i16` on `buf[pos..]`: the first two bytes read as a
/// big-endian two's-complement number.
#[verifier::external_body]
pub(crate) fn read_be_i16(buf: &[u8], pos: usize) -> (r: i16)
    requires
        pos + 2 <= buf@.len(),
    ensures
        r == be_i16(buf@, pos as int),
{
    BigEndian::read_i16(&buf[pos..])
}

/// `BigEndian::write_u16` into a fresh two-byte buffer.
#[verifier::external_body]
pub(crate) fn write_be_u16(n: u16) -> (r: [u8; 2])
    ensures
        r@ == u16_bytes(n),
{
    let mut out = [0u8; 2];
    BigEndian::write_u16(&mut out, n);
    out
}

/// `BigEndian::write_u32` into a fresh four-byte buffer.
#[verifier::external_body]
pub(crate) fn write_be_u32(n: u32) -> (r: [u8; 4])
    ensures
        r@ == u32_bytes(n),
{
    let mut out = [0u8; 4];
    BigEndian::write_u32(&mut out, n);
    out
}

/// `BigEndian::write_u64` into a fresh eight-byte buffer.
#[verifier::external_body]
pub(crate) fn write_be_u64(n: u64) -> (r: [u8; 8])
    ensures
        r@ == u64_bytes(n),
{
    let mut out = [0u8; 8];
    BigEndian::write_u64(&mut out, n);
    out
}

/// `BigEndian::write_i16` into a fresh two-byte buffer.
#[verifier::external_body]
pub(crate) fn write_be_i16(n: i16) -> (r: [u8; 2])
    ensures
        r@ == i16_bytes(n),
{
    let mut out = [0u8; 2];
    BigEndian::write_i16(&mut out, n);
    out
}

/// Appends `src` to `out`.
pub fn push_bytes(out: &mut Vec<u8>, src: &[u8])
    ensures
        final(out)@ == old(out)@ + src@,
{
    let mut i: usize = 0;
    while i < src.len()
        invariant
            i <= src@.len(),
            out@ == old(out)@ + src@.subrange(0, i as int),
        decreases src@.len() - i,
    {
        out.push(src[i]);
        i = i + 1;
        assert(src@.subrange(0, i as int) == src@.subrange(0, i - 1) + seq![src@[i - 1]]);
    }
    assert(src@.subrange(0, src@.len() as int) == src@);
}

} // verus!
