//! Snapshots as they travel in network messages: the snapshot's bytes as a
//! bincode byte string, a little-endian `u64` length and then the bytes.
use crate::snapshot::wire::{encode_snapshot, parse_snapshot, snapshot_encodable, snapshot_sent, snapshot_wire_roundtrip};
use crate::snapshot::{Snapshot, SnapshotView, StreamError};
use vstd::prelude::*;

verus! {

/// The little-endian `u64` stored in the first eight bytes of `s`.
pub open spec fn le_u64(s: Seq<u8>) -> u64 {
    ((s[7] as u64) << 56u64) | ((s[6] as u64) << 48u64) | ((s[5] as u64) << 40u64) | ((s[4] as u64)
        << 32u64) | ((s[3] as u64) << 24u64) | ((s[2] as u64) << 16u64) | ((s[1] as u64) << 8u64) | (
    s[0] as u64)
}

/// The eight bytes of `n`, least significant first.
pub open spec fn u64_le_bytes(n: u64) -> Seq<u8> {
    seq![
        n as u8,
        (n >> 8u64) as u8,
        (n >> 16u64) as u8,
        (n >> 24u64) as u8,
        (n >> 32u64) as u8,
        (n >> 40u64) as u8,
        (n >> 48u64) as u8,
        (n >> 56u64) as u8,
    ]
}

/// `payload` as a bincode byte string: its length, then its bytes.
pub open spec fn framed(payload: Seq<u8>) -> Seq<u8> {
    u64_le_bytes(payload.len() as u64) + payload
}

/// The payload of a bincode byte string at the start of `msg`, if `msg`
/// holds the whole of it; bytes after it are ignored.
pub open spec fn unframed(msg: Seq<u8>) -> Option<Seq<u8>> {
    if msg.len() >= 8 && le_u64(msg) <= msg.len() - 8 {
        Some(msg.subrange(8, 8 + le_u64(msg)))
    } else {
        None
    }
}

/// Reading back the length prefix gives the length.
proof fn lemma_le_u64_roundtrip(n: u64)
    ensures
        le_u64(u64_le_bytes(n)) == n,
{
    let s = u64_le_bytes(n);
    let (b0, b1, b2, b3) = (s[0], s[1], s[2], s[3]);
    let (b4, b5, b6, b7) = (s[4], s[5], s[6], s[7]);
    assert(b0 == n as u8 && b1 == (n >> 8u64) as u8 && b2 == (n >> 16u64) as u8 && b3 == (n
        >> 24u64) as u8 && b4 == (n >> 32u64) as u8 && b5 == (n >> 40u64) as u8 && b6 == (n
        >> 48u64) as u8 && b7 == (n >> 56u64) as u8 ==> ((b7 as u64) << 56u64) | ((b6 as u64)
        << 48u64) | ((b5 as u64) << 40u64) | ((b4 as u64) << 32u64) | ((b3 as u64) << 24u64) | ((
    b2 as u64) << 16u64) | ((b1 as u64) << 8u64) | (b0 as u64) == n) by (bit_vector);
}

/// Unframing a framed payload gives the payload back.
pub proof fn frame_roundtrip(payload: Seq<u8>)
    requires
        payload.len() <= u64::MAX,
    ensures
        unframed(framed(payload)) == Some(payload),
{
    let msg = framed(payload);
    lemma_le_u64_roundtrip(payload.len() as u64);
    assert(msg.subrange(0, 8) =~= u64_le_bytes(payload.len() as u64));
    assert(le_u64(msg) == le_u64(msg.subrange(0, 8)));
    assert(msg.subrange(8, 8 + payload.len() as int) =~= payload);
}

/// A snapshot sent in a message reads back as the snapshot, all but the
/// server-side entities, when its lists fit their one-byte counts.
pub proof fn message_roundtrip(v: SnapshotView)
    requires
        snapshot_encodable(v),
        encode_snapshot(v).len() <= u64::MAX,
    ensures
        unframed(framed(encode_snapshot(v))) == Some(encode_snapshot(v)),
        parse_snapshot(encode_snapshot(v)) == Ok::<_, StreamError>((snapshot_sent(v), Seq::<u8>::empty())),
{
    frame_roundtrip(encode_snapshot(v));
    snapshot_wire_roundtrip(v);
}

/// `bincode::serialize` of a byte slice: with the default options it
/// writes the length as a little-endian `u64`, then the bytes; with no size
/// limit and a `Vec` to write to it does not fail.
#[verifier::external_body]
fn bincode_serialize_bytes(payload: &[u8]) -> (r: Option<Vec<u8>>)
    ensures
        r is Some,
        r matches Some(v) ==> v@ == framed(payload@),
{
    match bincode::serialize(payload) {
        Ok(v) => Some(v),
        Err(_) => None,
    }
}

/// `bincode::deserialize` of a borrowed byte slice: with the default
/// options it reads a little-endian `u64` length and takes that many of the
/// following bytes, failing when fewer remain; later bytes are ignored.
#[verifier::external_body]
fn bincode_deserialize_bytes(msg: &[u8]) -> (r: Option<Vec<u8>>)
    ensures
        r is None <==> unframed(msg@) is None,
        r matches Some(p) ==> unframed(msg@) == Some(p@),
{
    match bincode::deserialize::<&[u8]>(msg) {
        Ok(p) => Some(p.to_vec()),
        Err(_) => None,
    }
}

impl Snapshot {
    /// The snapshot as the body of a network message.
    pub fn encode_message(&self) -> (r: Option<Vec<u8>>)
        ensures
            r is Some,
            r matches Some(v) ==> v@ == framed(encode_snapshot(self@)),
    {
        let bytes = self.to_bytes();
        bincode_serialize_bytes(bytes.as_slice())
    }

    /// The snapshot in the body of a network message; `None` where the body
    /// is cut short or the snapshot in it is.
    pub fn decode_message(msg: &[u8]) -> (r: Option<Snapshot>)
        ensures
            match unframed(msg@) {
                None => r is None,
                Some(p) => match parse_snapshot(p) {
                    Ok((v, _)) => r matches Some(x) && x@ == v,
                    Err(_) => r is None,
                },
            },
    {
        match bincode_deserialize_bytes(msg) {
            None => None,
            Some(payload) => match Snapshot::from_bytes(payload.as_slice()) {
                Ok(s) => Some(s),
                Err(_) => None,
            },
        }
    }
}

} // verus!
