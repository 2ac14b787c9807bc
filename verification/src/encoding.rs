//! SCALE encoding, blake2-256 hashing and decimal digits: the byte-level work of the pallet.
use vstd::prelude::*;

use crate::types::H256;

verus! {

/// The four little-endian bytes of `n`.
pub open spec fn le_bytes_u32(n: u32) -> Seq<u8> {
    seq![
        (n % 256) as u8,
        ((n / 256) % 256) as u8,
        ((n / 65536) % 256) as u8,
        (n / 16777216) as u8,
    ]
}

/// The two little-endian bytes of `n`.
pub open spec fn le_bytes_u16(n: u16) -> Seq<u8> {
    seq![(n % 256) as u8, (n / 256) as u8]
}

/// The SCALE compact encoding of `n`: its two low bits give the mode.
pub open spec fn compact_u32(n: u32) -> Seq<u8> {
    if n < 64 {
        seq![(n * 4) as u8]
    } else if n < 16384 {
        le_bytes_u16((n * 4 + 1) as u16)
    } else if n < 0x4000_0000 {
        le_bytes_u32((n * 4 + 2) as u32)
    } else {
        seq![3u8] + le_bytes_u32(n)
    }
}

/// The SCALE encoding of a byte string: its compact length, then its bytes.
pub open spec fn scale_bytes(b: Seq<u8>) -> Seq<u8> {
    compact_u32(b.len() as u32) + b
}

/// The SCALE encoding of a `u32`, from `parity_scale_codec::Encode::encode`:
/// the number's four bytes, little-endian first.
#[verifier::external_body]
pub fn scale_encode_u32(n: u32) -> (r: Vec<u8>)
    ensures
        r@ == le_bytes_u32(n),
{
    parity_scale_codec::Encode::encode(&n)
}

/// The SCALE encoding of a byte string, from `parity_scale_codec::Encode::encode` on `[u8]`
/// (which a `String` and a `str` encode through): the compact length, then the bytes.
/// The crate panics on a slice longer than `u32::MAX`, which `requires` leaves out.
#[verifier::external_body]
pub fn scale_encode_bytes(b: &[u8]) -> (r: Vec<u8>)
    requires
        b@.len() <= u32::MAX,
    ensures
        r@ == scale_bytes(b@),
{
    parity_scale_codec::Encode::encode(b)
}

/// The blake2-256 digest of a byte string, as `sp_runtime::traits::BlakeTwo256` computes it.
pub uninterp spec fn blake2_256_of(data: Seq<u8>) -> Seq<u8>;

/// Hashes `data` with `sp_runtime::traits::BlakeTwo256::hash`; the contract claims only
/// that the digest is the one named `blake2_256_of` of the bytes hashed.
#[verifier::external_body]
pub fn blake_two_256(data: &[u8]) -> (r: H256)
    ensures
        r@ == blake2_256_of(data@),
{
    <sp_runtime::traits::BlakeTwo256 as sp_runtime::traits::Hash>::hash(data).0
}

/// The ASCII decimal digits of `n`, most significant first, without leading zeros.
pub open spec fn decimal(n: nat) -> Seq<u8>
    decreases n,
{
    if n < 10 {
        seq![(48 + n) as u8]
    } else {
        decimal(n / 10).push((48 + n % 10) as u8)
    }
}

/// Appends the decimal digits of `n` to `out`.
pub fn push_decimal(n: u32, out: &mut Vec<u8>)
    ensures
        final(out)@ == old(out)@ + decimal(n as nat),
    decreases n,
{
    if n >= 10 {
        push_decimal(n / 10, out);
    }
    let digit: u8 = (n % 10) as u8;
    out.push(48 + digit);
    assert(final(out)@ =~= old(out)@ + decimal(n as nat));
}

} // verus!
