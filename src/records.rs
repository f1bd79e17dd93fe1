//! Stored key records as raw bytes: a header, then the uncompressed key.

use crate::curve::{compress_g2, decompress_g2, g2_compress, g2_decompress};
use crate::error::ErrorCode;
use crate::utils::g2_views;
use crate::verify::{aggregated_key_check, verify_with_keys};
use solana_alt_bn128_bls::G2Point;
use vstd::prelude::*;

verus! {

/// Bytes of the header that precedes the key in a stored record.
pub const RECORD_HEADER_LEN: usize = 8;

/// Bytes of an uncompressed key-group point.
pub const KEY_LEN: usize = 128;

/// Bytes of a whole stored record.
pub const RECORD_LEN: usize = 136;

/// The key bytes compress, and the compressed form decompresses to exactly
/// the same bytes.
pub open spec fn key_round_trips(key: Seq<u8>) -> bool {
    match g2_compress(key) {
        Some(c) => g2_decompress(c) == Some(key),
        None => false,
    }
}

/// The key that a stored record holds, or `None` where the record's length
/// is wrong or its key bytes do not round-trip through compression.
pub open spec fn record_key(data: Seq<u8>) -> Option<Seq<u8>> {
    if data.len() == RECORD_LEN && key_round_trips(
        data.subrange(RECORD_HEADER_LEN as int, RECORD_LEN as int),
    ) {
        Some(data.subrange(RECORD_HEADER_LEN as int, RECORD_LEN as int))
    } else {
        None
    }
}

/// Whether the key bytes round-trip through compression and decompression.
pub fn check_key(key: &[u8; 128]) -> (r: bool)
    ensures
        r == key_round_trips(key@),
{
    let point = G2Point(*key);
    let compressed = compress_g2(&point);
    let c = match compressed {
        Some(c) => c,
        None => return false,
    };
    let decompressed = decompress_g2(c);
    let back = match decompressed {
        Some(p) => p,
        None => return false,
    };
    let mut i: usize = 0;
    while i < KEY_LEN
        invariant
            i <= KEY_LEN,
            back.0@.len() == KEY_LEN,
            key@.len() == KEY_LEN,
            g2_compress(key@) == Some(c@),
            g2_decompress(c@) == Some(back.0@),
            forall|j: int| 0 <= j < i ==> back.0@[j] == key@[j],
        decreases KEY_LEN - i,
    {
        if back.0[i] != key[i] {
            assert(back.0@[i as int] != key@[i as int]);
            return false;
        }
        i += 1;
    }
    assert(back.0@ =~= key@);
    true
}

/// The bytes of each record, in order.
pub open spec fn record_views(records: Seq<Vec<u8>>) -> Seq<Seq<u8>> {
    records.map_values(|d: Vec<u8>| d@)
}

/// Every record has the expected length and a key that round-trips.
pub open spec fn all_well_formed(records: Seq<Seq<u8>>) -> bool {
    forall|i: int| 0 <= i < records.len() ==> (#[trigger] record_key(records[i])) is Some
}

/// The keys that well-formed records hold, in order.
pub open spec fn record_keys(records: Seq<Seq<u8>>) -> Seq<Seq<u8>> {
    records.map_values(|d: Seq<u8>| record_key(d).unwrap())
}

/// The outcome of verifying against the aggregate of the keys that stored
/// records hold: no record at all, a record of the wrong length or with a
/// key that does not round-trip, a failed aggregation,
/// or the check against the aggregated key.
pub open spec fn records_outcome(records: Seq<Seq<u8>>, sig: Seq<u8>, msg: Seq<u8>) -> Result<
    (),
    ErrorCode,
> {
    if records.len() == 0 {
        Err(ErrorCode::EmptyAggregationSet)
    } else if !all_well_formed(records) {
        Err(ErrorCode::InvalidRecord)
    } else {
        aggregated_key_check(record_keys(records), sig, msg)
    }
}

/// The key that a stored record holds; `InvalidRecord` where its length is
/// not that of a header and a key, or where the key does not round-trip.
pub fn parse_record(data: &[u8]) -> (r: Result<[u8; 128], ErrorCode>)
    ensures
        match r {
            Ok(key) => record_key(data@) == Some(key@),
            Err(e) => record_key(data@) is None && e == ErrorCode::InvalidRecord,
        },
{
    if data.len() != RECORD_LEN {
        return Err(ErrorCode::InvalidRecord);
    }
    let mut key = [0u8; 128];
    let mut i: usize = 0;
    while i < KEY_LEN
        invariant
            data@.len() == RECORD_LEN,
            i <= KEY_LEN,
            forall|j: int| 0 <= j < i ==> key@[j] == data@[RECORD_HEADER_LEN + j],
        decreases KEY_LEN - i,
    {
        key[i] = data[RECORD_HEADER_LEN + i];
        i += 1;
    }
    assert(key@ =~= data@.subrange(RECORD_HEADER_LEN as int, RECORD_LEN as int));
    if !check_key(&key) {
        return Err(ErrorCode::InvalidRecord);
    }
    Ok(key)
}

/// Verifies an aggregated compressed signature over `message` against the
/// aggregate of the keys that the stored records hold.
pub fn verify_signature(
    records: &[Vec<u8>],
    aggregated_and_compressed_g1_signature: [u8; 32],
    message: Vec<u8>,
) -> (r: Result<(), ErrorCode>)
    ensures
        r == records_outcome(
            record_views(records@),
            aggregated_and_compressed_g1_signature@,
            message@,
        ),
{
    let ghost views = record_views(records@);
    if records.len() == 0 {
        return Err(ErrorCode::EmptyAggregationSet);
    }
    let mut keys: Vec<G2Point> = Vec::new();
    let mut i: usize = 0;
    while i < records.len()
        invariant
            views == record_views(records@),
            i <= records@.len(),
            keys@.len() == i,
            all_well_formed(views.take(i as int)),
            g2_views(keys@) == record_keys(views.take(i as int)),
        decreases records.len() - i,
    {
        match parse_record(records[i].as_slice()) {
            Ok(key) => {
                let ghost before = keys@;
                keys.push(G2Point(key));
                proof {
                    let done = views.take(i as int);
                    let next = views.take(i + 1);
                    assert(next =~= done.push(views[i as int]));
                    assert forall|j: int| 0 <= j < next.len() implies #[trigger] g2_views(
                        keys@,
                    )[j] == record_keys(next)[j] by {
                        if j < i {
                            assert(keys@[j] == before[j]);
                            assert(g2_views(before)[j] == record_keys(done)[j]);
                        }
                    }
                    assert(g2_views(keys@) =~= record_keys(next));
                }
            },
            Err(e) => {
                proof {
                    assert(record_key(views[i as int]) is None);
                }
                return Err(e);
            },
        }
        i += 1;
    }
    assert(views.take(i as int) =~= views);
    verify_with_keys(keys.as_slice(), aggregated_and_compressed_g1_signature, message.as_slice())
}

} // verus!
