//! Aggregation of signature-group and key-group points.

use crate::curve::{
    add_g1, add_g2, compress_g1, compress_g2, g1_compress, g1_sum, g2_compress, g2_sum,
};
use crate::error::ErrorCode;
use crate::fold::{
    fold_sum, is_associative, is_commutative, lemma_fold_failure_persists,
    lemma_fold_permutation, lemma_fold_prefix_step,
};
use solana_alt_bn128_bls::{G1Point, G2Point};
use vstd::prelude::*;

verus! {

/// Signature-group addition, as a spec closure.
pub open spec fn g1_plus() -> spec_fn(Seq<u8>, Seq<u8>) -> Option<Seq<u8>> {
    |a: Seq<u8>, b: Seq<u8>| g1_sum(a, b)
}

/// Key-group addition, as a spec closure.
pub open spec fn g2_plus() -> spec_fn(Seq<u8>, Seq<u8>) -> Option<Seq<u8>> {
    |a: Seq<u8>, b: Seq<u8>| g2_sum(a, b)
}

/// The bytes of each signature-group point, in order.
pub open spec fn g1_views(s: Seq<G1Point>) -> Seq<Seq<u8>> {
    s.map_values(|p: G1Point| p.0@)
}

/// The bytes of each key-group point, in order.
pub open spec fn g2_views(s: Seq<G2Point>) -> Seq<Seq<u8>> {
    s.map_values(|p: G2Point| p.0@)
}

/// Turns the fold of a sequence into the outcome of aggregating it.
pub open spec fn aggregate_outcome(
    s: Seq<Seq<u8>>,
    folded: Option<Seq<u8>>,
) -> Result<Seq<u8>, ErrorCode> {
    if s.len() == 0 {
        Err(ErrorCode::EmptyAggregationSet)
    } else {
        match folded {
            Some(v) => Ok(v),
            None => Err(ErrorCode::AggregationFailed),
        }
    }
}

/// Compresses a successful aggregate; an error passes through.
pub open spec fn compressed_outcome(
    agg: Result<Seq<u8>, ErrorCode>,
    compressed: spec_fn(Seq<u8>) -> Option<Seq<u8>>,
) -> Result<Seq<u8>, ErrorCode> {
    match agg {
        Ok(v) => match compressed(v) {
            Some(c) => Ok(c),
            None => Err(ErrorCode::CompressionFailed),
        },
        Err(e) => Err(e),
    }
}

/// What aggregating a sequence of signature-group points gives.
pub open spec fn g1_aggregate(s: Seq<Seq<u8>>) -> Result<Seq<u8>, ErrorCode> {
    aggregate_outcome(s, fold_sum(g1_plus(), s))
}

/// What aggregating a sequence of key-group points gives.
pub open spec fn g2_aggregate(s: Seq<Seq<u8>>) -> Result<Seq<u8>, ErrorCode> {
    aggregate_outcome(s, fold_sum(g2_plus(), s))
}

/// What aggregating and then compressing signature-group points gives.
pub open spec fn g1_aggregate_compressed(s: Seq<Seq<u8>>) -> Result<Seq<u8>, ErrorCode> {
    compressed_outcome(g1_aggregate(s), |v: Seq<u8>| g1_compress(v))
}

/// What aggregating and then compressing key-group points gives.
pub open spec fn g2_aggregate_compressed(s: Seq<Seq<u8>>) -> Result<Seq<u8>, ErrorCode> {
    compressed_outcome(g2_aggregate(s), |v: Seq<u8>| g2_compress(v))
}

/// The byte view of an aggregation result.
pub open spec fn g1_result_bytes(r: Result<G1Point, ErrorCode>) -> Result<Seq<u8>, ErrorCode> {
    match r {
        Ok(p) => Ok(p.0@),
        Err(e) => Err(e),
    }
}

/// The byte view of an aggregation result.
pub open spec fn g2_result_bytes(r: Result<G2Point, ErrorCode>) -> Result<Seq<u8>, ErrorCode> {
    match r {
        Ok(p) => Ok(p.0@),
        Err(e) => Err(e),
    }
}

/// The byte view of a compressed result.
pub open spec fn array_result_bytes<const N: usize>(r: Result<[u8; N], ErrorCode>) -> Result<
    Seq<u8>,
    ErrorCode,
> {
    match r {
        Ok(c) => Ok(c@),
        Err(e) => Err(e),
    }
}

/// Helpers that fold and compress group points.
pub struct BlsUtils;

impl BlsUtils {
    /// Adds the points up from the first to the last.
    pub fn aggregate_g1_points(points: &[G1Point]) -> (r: Result<G1Point, ErrorCode>)
        ensures
            g1_result_bytes(r) == g1_aggregate(g1_views(points@)),
    {
        let ghost s = g1_views(points@);
        if points.len() == 0 {
            return Err(ErrorCode::EmptyAggregationSet);
        }
        let mut aggregated = G1Point(points[0].0);
        assert(s.take(1) =~= seq![s[0]]);
        let mut i: usize = 1;
        while i < points.len()
            invariant
                1 <= i <= points.len(),
                s == g1_views(points@),
                fold_sum(g1_plus(), s.take(i as int)) == Some(aggregated.0@),
            decreases points.len() - i,
        {
            let next = add_g1(&aggregated, &points[i]);
            proof {
                lemma_fold_prefix_step(g1_plus(), s, i as int);
            }
            match next {
                Some(p) => aggregated = p,
                None => {
                    proof {
                        lemma_fold_failure_persists(g1_plus(), s, i + 1);
                    }
                    return Err(ErrorCode::AggregationFailed);
                },
            }
            i += 1;
        }
        assert(s.take(i as int) =~= s);
        Ok(aggregated)
    }

    /// Adds the points up from the first to the last.
    pub fn aggregate_g2_points(points: &[G2Point]) -> (r: Result<G2Point, ErrorCode>)
        ensures
            g2_result_bytes(r) == g2_aggregate(g2_views(points@)),
    {
        let ghost s = g2_views(points@);
        if points.len() == 0 {
            return Err(ErrorCode::EmptyAggregationSet);
        }
        let mut aggregated = G2Point(points[0].0);
        assert(s.take(1) =~= seq![s[0]]);
        let mut i: usize = 1;
        while i < points.len()
            invariant
                1 <= i <= points.len(),
                s == g2_views(points@),
                fold_sum(g2_plus(), s.take(i as int)) == Some(aggregated.0@),
            decreases points.len() - i,
        {
            let next = add_g2(&aggregated, &points[i]);
            proof {
                lemma_fold_prefix_step(g2_plus(), s, i as int);
            }
            match next {
                Some(p) => aggregated = p,
                None => {
                    proof {
                        lemma_fold_failure_persists(g2_plus(), s, i + 1);
                    }
                    return Err(ErrorCode::AggregationFailed);
                },
            }
            i += 1;
        }
        assert(s.take(i as int) =~= s);
        Ok(aggregated)
    }

    /// Aggregates the points and compresses the sum to 32 bytes.
    pub fn aggregate_and_compress_g1_points(points: &[G1Point]) -> (r: Result<
        [u8; 32],
        ErrorCode,
    >)
        ensures
            array_result_bytes(r) == g1_aggregate_compressed(g1_views(points@)),
    {
        let aggregated = Self::aggregate_g1_points(points)?;
        match compress_g1(&aggregated) {
            Some(c) => Ok(c),
            None => Err(ErrorCode::CompressionFailed),
        }
    }

    /// Aggregates the points and compresses the sum to 64 bytes.
    pub fn aggregate_and_compress_g2_points(points: &[G2Point]) -> (r: Result<
        [u8; 64],
        ErrorCode,
    >)
        ensures
            array_result_bytes(r) == g2_aggregate_compressed(g2_views(points@)),
    {
        let aggregated = Self::aggregate_g2_points(points)?;
        match compress_g2(&aggregated) {
            Some(c) => Ok(c),
            None => Err(ErrorCode::CompressionFailed),
        }
    }
}

} // verus!

verus! {

/// Aggregating the same signature-group points in any order gives the same
/// aggregate and the same compressed form, given that point addition is
/// commutative and associative.
pub proof fn lemma_g1_aggregation_order_free(s1: Seq<Seq<u8>>, s2: Seq<Seq<u8>>)
    requires
        is_commutative(g1_plus()),
        is_associative(g1_plus()),
        s1.to_multiset() == s2.to_multiset(),
    ensures
        g1_aggregate(s1) == g1_aggregate(s2),
        g1_aggregate_compressed(s1) == g1_aggregate_compressed(s2),
{
    s1.to_multiset_ensures();
    s2.to_multiset_ensures();
    lemma_fold_permutation(g1_plus(), s1, s2);
}

/// Aggregating the same key-group points in any order gives the same
/// aggregate and the same compressed form, given that point addition is
/// commutative and associative.
pub proof fn lemma_g2_aggregation_order_free(s1: Seq<Seq<u8>>, s2: Seq<Seq<u8>>)
    requires
        is_commutative(g2_plus()),
        is_associative(g2_plus()),
        s1.to_multiset() == s2.to_multiset(),
    ensures
        g2_aggregate(s1) == g2_aggregate(s2),
        g2_aggregate_compressed(s1) == g2_aggregate_compressed(s2),
{
    s1.to_multiset_ensures();
    s2.to_multiset_ensures();
    lemma_fold_permutation(g2_plus(), s1, s2);
}

} // verus!
