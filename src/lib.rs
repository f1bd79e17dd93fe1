//! Aggregation and verification of BLS multi-signatures over the alt-bn128
//! pairing: signatures live in the signature group, public keys in the key
//! group. Points are combined by a left fold of the group addition, compressed
//! for the wire, and an aggregated signature is checked against an aggregated
//! key by one pairing check. A small registry keeps one key record per signer
//! identity, written once, from which keys are aggregated on demand.
//!
//! The curve arithmetic itself comes from `solana_alt_bn128_bls`; `curve`
//! names each operation it is used for.

pub mod curve;
pub mod error;
pub mod fold;
pub mod records;
pub mod registry;
pub mod utils;
pub mod verify;
