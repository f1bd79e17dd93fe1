use vstd::prelude::*;

verus! {

/// Why an aggregation, a registration or a verification did not succeed.
#[derive(Debug, Clone, Copy, PartialEq, Eq, Structural)]
pub enum ErrorCode {
    /// An aggregation was asked for over no element at all.
    EmptyAggregationSet,
    /// Compressed bytes do not decode to a point of their group.
    DecompressionFailed,
    /// The group addition of two aggregated elements failed.
    AggregationFailed,
    /// The compression of an aggregate failed.
    CompressionFailed,
    /// A stored public-key record is missing, has the wrong length, or holds
    /// key bytes that do not round-trip through compression.
    InvalidRecord,
    /// The identity already has a stored public-key record.
    AlreadyExists,
    /// The pairing check rejected the signature.
    SignatureInvalid,
}

} // verus!
