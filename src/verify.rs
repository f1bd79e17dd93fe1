//! The pairing-based verification of an aggregated signature.

use crate::curve::{
    check_pairing, decompress_g1, decompress_g2, g1_decompress, g2_decompress, pairing_accepts,
};
use crate::error::ErrorCode;
use crate::utils::{g2_aggregate, g2_views, BlsUtils};
use solana_alt_bn128_bls::G2Point;
use vstd::prelude::*;

verus! {

/// The outcome of checking a compressed signature over `msg` against an
/// uncompressed key: the signature must decompress, then the pairing decides.
pub open spec fn key_check(key: Seq<u8>, sig: Seq<u8>, msg: Seq<u8>) -> Result<(), ErrorCode> {
    match g1_decompress(sig) {
        None => Err(ErrorCode::DecompressionFailed),
        Some(s) => if pairing_accepts(key, s, msg) {
            Ok(())
        } else {
            Err(ErrorCode::SignatureInvalid)
        },
    }
}

/// The outcome of verifying with an already aggregated, compressed key.
pub open spec fn stateless_outcome(key: Seq<u8>, sig: Seq<u8>, msg: Seq<u8>) -> Result<
    (),
    ErrorCode,
> {
    match g2_decompress(key) {
        None => Err(ErrorCode::DecompressionFailed),
        Some(k) => key_check(k, sig, msg),
    }
}

/// The outcome of checking a compressed signature over `msg` against the
/// aggregate of `keys`.
pub open spec fn aggregated_key_check(keys: Seq<Seq<u8>>, sig: Seq<u8>, msg: Seq<u8>) -> Result<
    (),
    ErrorCode,
> {
    match g2_aggregate(keys) {
        Ok(key) => key_check(key, sig, msg),
        Err(e) => Err(e),
    }
}

/// Checks a compressed signature over `message` against an uncompressed key.
pub fn verify_with_key(key: &G2Point, signature: [u8; 32], message: &[u8]) -> (r: Result<
    (),
    ErrorCode,
>)
    ensures
        r == key_check(key.0@, signature@, message@),
{
    match decompress_g1(signature) {
        None => Err(ErrorCode::DecompressionFailed),
        Some(sig) => if check_pairing(key, &sig, message) {
            Ok(())
        } else {
            Err(ErrorCode::SignatureInvalid)
        },
    }
}

/// Aggregates the uncompressed keys and checks a compressed signature over
/// `message` against their sum.
pub fn verify_with_keys(keys: &[G2Point], signature: [u8; 32], message: &[u8]) -> (r: Result<
    (),
    ErrorCode,
>)
    ensures
        r == aggregated_key_check(g2_views(keys@), signature@, message@),
{
    let key = BlsUtils::aggregate_g2_points(keys)?;
    verify_with_key(&key, signature, message)
}

/// Verifies an aggregated signature against an aggregated public key, both
/// compressed, over `message`.
pub fn verify_aggregated_signature(
    aggregated_compressed_pubkey: [u8; 64],
    aggregated_compressed_signature: [u8; 32],
    message: Vec<u8>,
) -> (r: Result<(), ErrorCode>)
    ensures
        r == stateless_outcome(
            aggregated_compressed_pubkey@,
            aggregated_compressed_signature@,
            message@,
        ),
{
    match decompress_g2(aggregated_compressed_pubkey) {
        None => Err(ErrorCode::DecompressionFailed),
        Some(key) => verify_with_key(&key, aggregated_compressed_signature, message.as_slice()),
    }
}

} // verus!
