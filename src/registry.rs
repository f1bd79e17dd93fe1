//! The registry of per-signer public keys, written once per identity and
//! aggregated on demand for verification.

use crate::error::ErrorCode;
use crate::fold::fold_sum;
use crate::records::{check_key, key_round_trips};
use crate::utils::{
    g1_aggregate, g1_aggregate_compressed, g2_aggregate, g2_aggregate_compressed, g2_plus,
    g2_views,
};
use crate::verify::{aggregated_key_check, key_check, verify_with_keys};
use solana_alt_bn128_bls::G2Point;
use vstd::prelude::*;

verus! {

/// The stored record of one signer: its uncompressed key-group public key.
pub struct OracleAccount {
    pub g2_point_key: [u8; 128],
}

/// The records, keyed by signer identity.
pub struct Registry {
    records: Vec<(u64, OracleAccount)>,
    contents: Ghost<Map<u64, Seq<u8>>>,
}

/// Whether registering under `id` in `m` succeeds.
pub open spec fn register_result(m: Map<u64, Seq<u8>>, id: u64) -> Result<(), ErrorCode> {
    if m.contains_key(id) {
        Err(ErrorCode::AlreadyExists)
    } else {
        Ok(())
    }
}

/// The records after registering `key` under `id` in `m`: the first write
/// stands, a later one changes nothing.
pub open spec fn register_state(m: Map<u64, Seq<u8>>, id: u64, key: Seq<u8>) -> Map<u64, Seq<u8>> {
    if m.contains_key(id) {
        m
    } else {
        m.insert(id, key)
    }
}

/// Every identity of `ids` has a record in `m`, and its key round-trips
/// through compression.
pub open spec fn all_registered(m: Map<u64, Seq<u8>>, ids: Seq<u64>) -> bool {
    forall|i: int|
        0 <= i < ids.len() ==> m.contains_key(#[trigger] ids[i]) && key_round_trips(m[ids[i]])
}

/// The stored keys of `ids`, in the order given.
pub open spec fn registered_keys(m: Map<u64, Seq<u8>>, ids: Seq<u64>) -> Seq<Seq<u8>> {
    ids.map_values(|id: u64| m[id])
}

/// The outcome of verifying against the aggregate of the keys stored under
/// `ids`: no identity at all, an identity without a record or whose key
/// does not round-trip, a failed
/// aggregation, or the check against the aggregated key.
pub open spec fn stateful_outcome(
    m: Map<u64, Seq<u8>>,
    ids: Seq<u64>,
    sig: Seq<u8>,
    msg: Seq<u8>,
) -> Result<(), ErrorCode> {
    if ids.len() == 0 {
        Err(ErrorCode::EmptyAggregationSet)
    } else if !all_registered(m, ids) {
        Err(ErrorCode::InvalidRecord)
    } else {
        aggregated_key_check(registered_keys(m, ids), sig, msg)
    }
}

impl View for Registry {
    type V = Map<u64, Seq<u8>>;

    closed spec fn view(&self) -> Map<u64, Seq<u8>> {
        self.contents@
    }
}

impl Registry {
    /// The records agree with the map that models them.
    pub closed spec fn wf(&self) -> bool {
        &&& forall|i: int|
            0 <= i < self.records@.len() ==> {
                &&& self.contents@.contains_key(#[trigger] self.records@[i].0)
                &&& self.contents@[self.records@[i].0] == self.records@[i].1.g2_point_key@
            }
        &&& forall|id: u64|
            #[trigger] self.contents@.contains_key(id) ==> exists|i: int|
                0 <= i < self.records@.len() && self.records@[i].0 == id
    }

    /// A registry without records.
    pub fn new() -> (r: Self)
        ensures
            r.wf(),
            r@ == Map::<u64, Seq<u8>>::empty(),
    {
        Registry { records: Vec::new(), contents: Ghost(Map::empty()) }
    }

    /// The key stored under `id`, if any.
    pub fn get(&self, id: u64) -> (r: Option<[u8; 128]>)
        requires
            self.wf(),
        ensures
            match r {
                Some(k) => self@.contains_key(id) && self@[id] == k@,
                None => !self@.contains_key(id),
            },
    {
        let mut i: usize = 0;
        while i < self.records.len()
            invariant
                self.wf(),
                i <= self.records@.len(),
                forall|j: int| 0 <= j < i ==> self.records@[j].0 != id,
            decreases self.records.len() - i,
        {
            if self.records[i].0 == id {
                return Some(self.records[i].1.g2_point_key);
            }
            i += 1;
        }
        None
    }

    /// Stores `g2_point_key` under `id`, unless `id` already has a record.
    pub fn initialize_oracle(&mut self, id: u64, g2_point_key: [u8; 128]) -> (r: Result<
        (),
        ErrorCode,
    >)
        requires
            old(self).wf(),
        ensures
            final(self).wf(),
            r == register_result(old(self)@, id),
            final(self)@ == register_state(old(self)@, id, g2_point_key@),
    {
        if self.get(id).is_some() {
            return Err(ErrorCode::AlreadyExists);
        }
        let ghost before = self.records@;
        self.records.push((id, OracleAccount { g2_point_key }));
        self.contents = Ghost(self.contents@.insert(id, g2_point_key@));
        proof {
            let n = before.len() as int;
            assert(self.records@[n].0 == id);
            assert forall|k: u64| #[trigger] self.contents@.contains_key(k) implies exists|i: int|
                0 <= i < self.records@.len() && self.records@[i].0 == k by {
                if k != id {
                    let i = choose|i: int| 0 <= i < before.len() && before[i].0 == k;
                    assert(self.records@[i] == before[i]);
                }
            }
            assert forall|i: int| 0 <= i < n implies #[trigger] self.records@[i] == before[i] by {}
        }
        Ok(())
    }

    /// The stored keys of `ids`, in order; `InvalidRecord` where one has none
    /// or its key does not round-trip.
    pub fn read_many(&self, ids: &[u64]) -> (r: Result<Vec<G2Point>, ErrorCode>)
        requires
            self.wf(),
        ensures
            match r {
                Ok(keys) => all_registered(self@, ids@) && g2_views(keys@) == registered_keys(
                    self@,
                    ids@,
                ),
                Err(e) => !all_registered(self@, ids@) && e == ErrorCode::InvalidRecord,
            },
    {
        let mut keys: Vec<G2Point> = Vec::new();
        let mut i: usize = 0;
        while i < ids.len()
            invariant
                self.wf(),
                i <= ids@.len(),
                keys@.len() == i,
                all_registered(self@, ids@.take(i as int)),
                g2_views(keys@) == registered_keys(self@, ids@.take(i as int)),
            decreases ids.len() - i,
        {
            match self.get(ids[i]) {
                Some(k) => {
                    if !check_key(&k) {
                        return Err(ErrorCode::InvalidRecord);
                    }
                    let ghost before = keys@;
                    keys.push(G2Point(k));
                    proof {
                        let done = ids@.take(i as int);
                        let next = ids@.take(i + 1);
                        assert(next =~= done.push(ids@[i as int]));
                        assert forall|j: int| 0 <= j < next.len() implies #[trigger] g2_views(
                            keys@,
                        )[j] == registered_keys(self@, next)[j] by {
                            if j < i {
                                assert(keys@[j] == before[j]);
                                assert(g2_views(before)[j] == registered_keys(self@, done)[j]);
                            }
                        }
                        assert(g2_views(keys@) =~= registered_keys(self@, next));
                    }
                },
                None => {
                    return Err(ErrorCode::InvalidRecord);
                },
            }
            i += 1;
        }
        assert(ids@.take(i as int) =~= ids@);
        Ok(keys)
    }

    /// Verifies an aggregated compressed signature over `message` against the
    /// aggregate of the keys stored under `ids`.
    pub fn verify_signature(
        &self,
        ids: &[u64],
        aggregated_and_compressed_g1_signature: [u8; 32],
        message: Vec<u8>,
    ) -> (r: Result<(), ErrorCode>)
        requires
            self.wf(),
        ensures
            r == stateful_outcome(
                self@,
                ids@,
                aggregated_and_compressed_g1_signature@,
                message@,
            ),
    {
        if ids.len() == 0 {
            return Err(ErrorCode::EmptyAggregationSet);
        }
        let keys = self.read_many(ids)?;
        verify_with_keys(keys.as_slice(), aggregated_and_compressed_g1_signature, message.as_slice())
    }
}

} // verus!

verus! {

/// Aggregating no points fails with `EmptyAggregationSet`, in both groups and
/// with or without compression, and so does verifying against no identity.
pub proof fn lemma_empty_set_rejected(m: Map<u64, Seq<u8>>, sig: Seq<u8>, msg: Seq<u8>)
    ensures
        g1_aggregate(Seq::empty()) == Err::<Seq<u8>, ErrorCode>(ErrorCode::EmptyAggregationSet),
        g2_aggregate(Seq::empty()) == Err::<Seq<u8>, ErrorCode>(ErrorCode::EmptyAggregationSet),
        g1_aggregate_compressed(Seq::empty()) == Err::<Seq<u8>, ErrorCode>(
            ErrorCode::EmptyAggregationSet,
        ),
        g2_aggregate_compressed(Seq::empty()) == Err::<Seq<u8>, ErrorCode>(
            ErrorCode::EmptyAggregationSet,
        ),
        stateful_outcome(m, Seq::empty(), sig, msg) == Err::<(), ErrorCode>(
            ErrorCode::EmptyAggregationSet,
        ),
{
}

/// Registering twice under one identity: the second registration fails with
/// `AlreadyExists` and changes nothing, and verifying against that identity
/// alone checks against the key that stayed, which is the first key where the
/// identity was new, or fails with `InvalidRecord` where that key does not
/// round-trip.
pub proof fn lemma_first_registration_wins(
    m: Map<u64, Seq<u8>>,
    id: u64,
    key_a: Seq<u8>,
    key_b: Seq<u8>,
    sig: Seq<u8>,
    msg: Seq<u8>,
)
    ensures
        ({
            let m1 = register_state(m, id, key_a);
            let m2 = register_state(m1, id, key_b);
            &&& register_result(m1, id) == Err::<(), ErrorCode>(ErrorCode::AlreadyExists)
            &&& m2 == m1
            &&& !m.contains_key(id) ==> m1[id] == key_a
            &&& stateful_outcome(m2, seq![id], sig, msg) == if key_round_trips(m1[id]) {
                key_check(m1[id], sig, msg)
            } else {
                Err(ErrorCode::InvalidRecord)
            }
        }),
{
    let m1 = register_state(m, id, key_a);
    let keys = registered_keys(m1, seq![id]);
    assert(keys =~= seq![m1[id]]);
    if key_round_trips(m1[id]) {
        assert(all_registered(m1, seq![id]));
    } else {
        assert(seq![id][0] == id);
        assert(!all_registered(m1, seq![id]));
    }
    assert(fold_sum(g2_plus(), keys) == Some(m1[id]));
}

} // verus!
