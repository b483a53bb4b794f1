use vstd::prelude::*;
use vstd::bytes::*;
use vstd::slice::slice_subrange;
use crate::error::TrustError;

verus! {

/// One car's persisted reputation state: the stored score's raw 64-bit
/// pattern, and the host clock value at the last write. The slot image is
/// 16 bytes: the score's 8 bytes little-endian, then the timestamp's 8 bytes
/// little-endian, with no header and no version tag. The numeric meaning of
/// the score bits is the host side's business; this module carries and stores
/// them unchanged.
#[derive(Clone, Copy, Debug, PartialEq, Eq, Structural)]
pub struct CarTrustState {
    pub trust_score_bits: u64,
    pub last_updated_timestamp: i64,
}

/// The unsigned 64-bit pattern that stands for a timestamp on the wire:
/// two's-complement reinterpretation of the signed value.
pub open spec fn timestamp_to_bits(t: i64) -> u64 {
    if t >= 0 {
        t as u64
    } else {
        ((t as int) + 0x1_0000_0000_0000_0000) as u64
    }
}

/// The signed timestamp that a stored 64-bit pattern stands for.
pub open spec fn bits_to_timestamp(u: u64) -> i64 {
    if u < 0x8000_0000_0000_0000 {
        u as i64
    } else {
        ((u as int) - 0x1_0000_0000_0000_0000) as i64
    }
}

pub proof fn lemma_timestamp_bits_roundtrip(t: i64)
    ensures
        bits_to_timestamp(timestamp_to_bits(t)) == t,
{
}

pub proof fn lemma_bits_timestamp_roundtrip(u: u64)
    ensures
        timestamp_to_bits(bits_to_timestamp(u)) == u,
{
}

pub fn timestamp_bits(t: i64) -> (r: u64)
    ensures
        r == timestamp_to_bits(t),
{
    if t >= 0 {
        t as u64
    } else {
        ((t as i128) + 0x1_0000_0000_0000_0000i128) as u64
    }
}

pub fn bits_timestamp(u: u64) -> (r: i64)
    ensures
        r == bits_to_timestamp(u),
{
    if u < 0x8000_0000_0000_0000 {
        u as i64
    } else {
        ((u as i128) - 0x1_0000_0000_0000_0000i128) as i64
    }
}

/// The exact 16-byte slot image of a record.
pub open spec fn record_bytes(r: CarTrustState) -> Seq<u8> {
    spec_u64_to_le_bytes(r.trust_score_bits) + spec_u64_to_le_bytes(
        timestamp_to_bits(r.last_updated_timestamp),
    )
}

/// The record that a 16-byte slot image stands for.
pub open spec fn spec_decode_record(s: Seq<u8>) -> CarTrustState
    recommends
        s.len() == 16,
{
    CarTrustState {
        trust_score_bits: spec_u64_from_le_bytes(s.take(8)),
        last_updated_timestamp: bits_to_timestamp(spec_u64_from_le_bytes(s.skip(8))),
    }
}

/// Serializes a record into its 16-byte slot image.
pub fn encode_record(r: &CarTrustState) -> (out: Vec<u8>)
    ensures
        out@ == record_bytes(*r),
        out@.len() == 16,
{
    let mut out = u64_to_le_bytes(r.trust_score_bits);
    let mut tail = u64_to_le_bytes(timestamp_bits(r.last_updated_timestamp));
    out.append(&mut tail);
    out
}

/// Parses a slot image back into a record. Exactly the 16-byte images parse;
/// anything else fails, and the slot is left as it was.
pub fn decode_record(data: &Vec<u8>) -> (r: Result<CarTrustState, TrustError>)
    ensures
        data@.len() == 16 ==> r == Ok::<CarTrustState, TrustError>(spec_decode_record(data@)),
        data@.len() != 16 ==> r == Err::<CarTrustState, TrustError>(
            TrustError::RecordDecodeFailure,
        ),
{
    if data.len() != 16 {
        return Err(TrustError::RecordDecodeFailure);
    }
    let s = data.as_slice();
    let bits = u64_from_le_bytes(slice_subrange(s, 0, 8));
    let tsb = u64_from_le_bytes(slice_subrange(s, 8, 16));
    let ts = bits_timestamp(tsb);
    proof {
        assert(data@.subrange(0, 8) =~= data@.take(8));
        assert(data@.subrange(8, 16) =~= data@.skip(8));
    }
    Ok(CarTrustState { trust_score_bits: bits, last_updated_timestamp: ts })
}

/// Law: decoding an encoded record yields the record back, so a freshly
/// written slot reads back exactly what was stored.
pub proof fn lemma_record_encode_decode(r: CarTrustState)
    ensures
        record_bytes(r).len() == 16,
        spec_decode_record(record_bytes(r)) == r,
{
    lemma_auto_spec_u64_to_from_le_bytes();
    let a = spec_u64_to_le_bytes(r.trust_score_bits);
    let b = spec_u64_to_le_bytes(timestamp_to_bits(r.last_updated_timestamp));
    assert((a + b).take(8) =~= a);
    assert((a + b).skip(8) =~= b);
    lemma_timestamp_bits_roundtrip(r.last_updated_timestamp);
}

/// Law: any 16-byte slot image re-encodes to itself after decoding; the
/// codec loses nothing.
pub proof fn lemma_record_decode_encode(s: Seq<u8>)
    requires
        s.len() == 16,
    ensures
        record_bytes(spec_decode_record(s)) == s,
{
    lemma_auto_spec_u64_to_from_le_bytes();
    lemma_bits_timestamp_roundtrip(spec_u64_from_le_bytes(s.skip(8)));
    assert(record_bytes(spec_decode_record(s)) =~= s);
}

} // verus!
