//! The two paired groups of the alt-bn128 curve, as the outside BLS crate
//! provides them: addition, compression, decompression and the pairing check.
//! Each operation is a function of its byte arguments alone; each is named
//! here and reached through one small trusted wrapper.

use num::CheckedAdd;
use solana_alt_bn128_bls::{
    G1CompressedPoint, G1Point, G2CompressedPoint, G2Point, Sha256Normalized,
};
use vstd::prelude::*;

verus! {

#[verifier::external_type_specification]
pub struct ExG1Point(G1Point);

#[verifier::external_type_specification]
pub struct ExG1CompressedPoint(G1CompressedPoint);

#[verifier::external_type_specification]
pub struct ExG2Point(G2Point);

#[verifier::external_type_specification]
pub struct ExG2CompressedPoint(G2CompressedPoint);

/// The sum of two uncompressed signature-group points, or `None` where either
/// operand is not a point of the curve.
pub uninterp spec fn g1_sum(a: Seq<u8>, b: Seq<u8>) -> Option<Seq<u8>>;

/// The sum of two uncompressed key-group points, or `None` where the addition
/// cannot be carried out on them.
pub uninterp spec fn g2_sum(a: Seq<u8>, b: Seq<u8>) -> Option<Seq<u8>>;

/// The 32-byte compressed form of an uncompressed signature-group point.
pub uninterp spec fn g1_compress(p: Seq<u8>) -> Option<Seq<u8>>;

/// The 64-byte compressed form of an uncompressed key-group point.
pub uninterp spec fn g2_compress(p: Seq<u8>) -> Option<Seq<u8>>;

/// The uncompressed signature-group point that 32 compressed bytes encode.
pub uninterp spec fn g1_decompress(c: Seq<u8>) -> Option<Seq<u8>>;

/// The uncompressed key-group point that 64 compressed bytes encode.
pub uninterp spec fn g2_decompress(c: Seq<u8>) -> Option<Seq<u8>>;

/// Whether the pairing check accepts an uncompressed signature over a message
/// for an uncompressed public key, with the message hashed to the curve by the
/// normalized SHA-256 construction.
pub uninterp spec fn pairing_accepts(key: Seq<u8>, sig: Seq<u8>, msg: Seq<u8>) -> bool;

/// The byte view of an optional signature-group point.
pub open spec fn g1_bytes(r: Option<G1Point>) -> Option<Seq<u8>> {
    match r {
        Some(p) => Some(p.0@),
        None => None,
    }
}

/// The byte view of an optional key-group point.
pub open spec fn g2_bytes(r: Option<G2Point>) -> Option<Seq<u8>> {
    match r {
        Some(p) => Some(p.0@),
        None => None,
    }
}

/// Relies on `CheckedAdd::checked_add` for `G1Point`: the alt-bn128 addition
/// of the two points, `None` where it fails.
#[verifier::external_body]
pub(crate) fn add_g1(a: &G1Point, b: &G1Point) -> (r: Option<G1Point>)
    ensures
        g1_bytes(r) == g1_sum(a.0@, b.0@),
{
    a.checked_add(b)
}

/// Relies on `CheckedAdd::checked_add` for `G2Point`: the sum of the two
/// points through their compressed forms, `None` where a step fails.
#[verifier::external_body]
pub(crate) fn add_g2(a: &G2Point, b: &G2Point) -> (r: Option<G2Point>)
    ensures
        g2_bytes(r) == g2_sum(a.0@, b.0@),
{
    a.checked_add(b)
}

/// Relies on `G1CompressedPoint::try_from(G1Point)`, which compresses the
/// point and fails where the bytes encode none.
#[verifier::external_body]
pub(crate) fn compress_g1(p: &G1Point) -> (r: Option<[u8; 32]>)
    ensures
        match r {
            Some(c) => g1_compress(p.0@) == Some(c@),
            None => g1_compress(p.0@) is None,
        },
{
    G1CompressedPoint::try_from(G1Point(p.0)).ok().map(|c| c.0)
}

/// Relies on `G2CompressedPoint::try_from(&G2Point)`, which compresses the
/// point and fails where the bytes encode none.
#[verifier::external_body]
pub(crate) fn compress_g2(p: &G2Point) -> (r: Option<[u8; 64]>)
    ensures
        match r {
            Some(c) => g2_compress(p.0@) == Some(c@),
            None => g2_compress(p.0@) is None,
        },
{
    G2CompressedPoint::try_from(p).ok().map(|c| c.0)
}

/// Relies on `G1Point::try_from(&G1CompressedPoint)`, which decompresses the
/// bytes and fails where they encode no point.
#[verifier::external_body]
pub(crate) fn decompress_g1(c: [u8; 32]) -> (r: Option<G1Point>)
    ensures
        g1_bytes(r) == g1_decompress(c@),
{
    G1Point::try_from(&G1CompressedPoint(c)).ok()
}

/// Relies on `G2Point::try_from(G2CompressedPoint)`, which decompresses the
/// bytes and fails where they encode no point.
#[verifier::external_body]
pub(crate) fn decompress_g2(c: [u8; 64]) -> (r: Option<G2Point>)
    ensures
        g2_bytes(r) == g2_decompress(c@),
{
    G2Point::try_from(G2CompressedPoint(c)).ok()
}

/// Relies on `G2Point::verify_signature` with the `Sha256Normalized` hash to
/// the curve: `Ok` exactly where the pairing check accepts.
#[verifier::external_body]
pub(crate) fn check_pairing(key: &G2Point, sig: &G1Point, msg: &[u8]) -> (r: bool)
    ensures
        r == pairing_accepts(key.0@, sig.0@, msg@),
{
    G2Point(key.0).verify_signature::<Sha256Normalized, &[u8], G1Point>(G1Point(sig.0), msg).is_ok()
}

} // verus!
