//! Weighted service baskets per network: a bounded list of service keys with
//! weights in parts per million, proof content identifiers, and a computed
//! index.
//!
//! The index is a fixed-point value with a scale of 10^18: a basket whose
//! weights sum to the full million parts has index 10^18.

use vstd::prelude::*;

use crate::table::Table;

verus! {

/// Largest accepted service key, in bytes.
pub const MAX_SERVICE_KEY_LEN: usize = 32;

/// Largest accepted number of weighted services.
pub const MAX_WEIGHTS: usize = 10;

/// Largest accepted number of stored proofs.
pub const MAX_PROOFS: usize = 100;

/// Largest accepted proof content identifier, in bytes.
pub const MAX_PROOF_CID_LEN: usize = 256;

/// Weights are parts per million; their sum may not pass this.
pub const WEIGHT_SUM_LIMIT: u64 = 1_000_000;

/// Index units per weight part: the index scale of 10^18 divided by the
/// million parts of a full weight sum.
pub const INDEX_SCALE: u128 = 1_000_000_000_000;

/// Service basket configuration for a network.
pub struct Basket {
    /// Weighted allocation of services: `(service key, parts per million)`,
    /// summing to at most [`WEIGHT_SUM_LIMIT`].
    pub weights: Vec<(Vec<u8>, u32)>,
    /// Proof content identifiers for service verification.
    pub proofs: Vec<Vec<u8>>,
    /// Computed index value, fixed-point with a scale of 10^18.
    pub index: u128,
}

/// One record per successful state-changing call, in order.
#[derive(Clone, Copy, PartialEq, Eq, Debug)]
pub enum Event {
    /// Service weights were updated.
    WeightsUpdated { network_id: u64 },
    /// A proof was added to the basket.
    ProofAdded { network_id: u64 },
    /// The index was recomputed.
    IndexRecomputed { network_id: u64, index: u128 },
}

/// Why a basket operation was refused.  A refused operation has no effect.
#[derive(Clone, Copy, PartialEq, Eq, Debug)]
pub enum Error {
    /// The weights sum to more than [`WEIGHT_SUM_LIMIT`] parts.
    WeightSumExceedsOne,
    /// No basket exists for the given network.
    BasketNotFound,
    /// More weights than the accepted count.
    TooManyWeights,
    /// The basket already holds the accepted number of proofs.
    TooManyProofs,
    /// A service key exceeds the accepted length.
    ServiceKeyTooLong,
    /// A proof content identifier exceeds the accepted length.
    ProofCidTooLong,
}

/// The sum of the weight parts of `s`.
pub open spec fn sum_parts(s: Seq<(Vec<u8>, u32)>) -> int
    decreases s.len(),
{
    if s.len() == 0 {
        0
    } else {
        sum_parts(s.drop_last()) + s.last().1
    }
}

/// The first `m` service keys of `s` are within the accepted length.
pub open spec fn keys_ok_upto(s: Seq<(Vec<u8>, u32)>, m: int) -> bool {
    forall|j: int| 0 <= j < m && j < s.len() ==> (#[trigger] s[j]).0@.len() <= MAX_SERVICE_KEY_LEN
}

pub open spec fn basket_valid(b: Basket) -> bool {
    &&& b.weights@.len() <= MAX_WEIGHTS
    &&& keys_ok_upto(b.weights@, b.weights@.len() as int)
    &&& sum_parts(b.weights@) <= WEIGHT_SUM_LIMIT
    &&& b.proofs@.len() <= MAX_PROOFS
    &&& forall|j: int|
        0 <= j < b.proofs@.len() ==> (#[trigger] b.proofs@[j])@.len() <= MAX_PROOF_CID_LEN
}

/// Owns the baskets of all networks.
pub struct ServiceBaskets {
    baskets: Table<Basket>,
    events: Vec<Event>,
}

impl ServiceBaskets {
    /// Baskets by network.
    pub closed spec fn basket_of(self, network_id: u64) -> Option<Basket> {
        if self.baskets@.contains_key(network_id) {
            Some(self.baskets@[network_id])
        } else {
            None
        }
    }

    /// The event log, oldest first.
    pub closed spec fn events_log(self) -> Seq<Event> {
        self.events@
    }

    pub closed spec fn wf(self) -> bool {
        &&& self.baskets.wf()
        &&& forall|n: u64|
            #[trigger] self.baskets@.contains_key(n) ==> basket_valid(self.baskets@[n])
    }

    pub fn new() -> (s: ServiceBaskets)
        ensures
            s.wf(),
            forall|n: u64| s.basket_of(n) is None,
            s.events_log() == Seq::<Event>::empty(),
    {
        ServiceBaskets { baskets: Table::new(), events: Vec::new() }
    }

    /// Sets the service weights of `network_id`'s basket, creating the
    /// basket if none exists; the weights must sum to at most the full
    /// million parts.  Entries are examined in order and the first refusal
    /// wins; entries past the accepted count are never examined.
    #[verifier::loop_isolation(false)]
    pub fn set_weights(&mut self, _who: u64, network_id: u64, weights: Vec<(Vec<u8>, u32)>) -> (r:
        Result<(), Error>)
        requires
            old(self).wf(),
        ensures
            final(self).wf(),
            match r {
                Ok(()) => {
                    &&& weights@.len() <= MAX_WEIGHTS
                    &&& keys_ok_upto(weights@, weights@.len() as int)
                    &&& sum_parts(weights@) <= WEIGHT_SUM_LIMIT
                    &&& final(self).basket_of(network_id) matches Some(b)
                    &&& b.weights@ == weights@
                    &&& match old(self).basket_of(network_id) {
                        Some(prev) => b.proofs@ == prev.proofs@ && b.index == prev.index,
                        None => b.proofs@.len() == 0 && b.index == 0,
                    }
                    &&& forall|n: u64|
                        n != network_id ==> final(self).basket_of(n) == old(self).basket_of(n)
                    &&& final(self).events_log() == old(self).events_log().push(
                        Event::WeightsUpdated { network_id },
                    )
                },
                Err(e) => {
                    &&& *final(self) == *old(self)
                    &&& match e {
                        Error::ServiceKeyTooLong => exists|i: int|
                            0 <= i < weights@.len() && i <= MAX_WEIGHTS && (#[trigger] weights@[i]).0@.len()
                                > MAX_SERVICE_KEY_LEN && keys_ok_upto(weights@, i),
                        Error::TooManyWeights => {
                            &&& weights@.len() > MAX_WEIGHTS
                            &&& keys_ok_upto(weights@, MAX_WEIGHTS + 1)
                        },
                        Error::WeightSumExceedsOne => {
                            &&& weights@.len() <= MAX_WEIGHTS
                            &&& keys_ok_upto(weights@, weights@.len() as int)
                            &&& sum_parts(weights@) > WEIGHT_SUM_LIMIT
                        },
                        _ => false,
                    }
                },
            },
    {
        let n = weights.len();
        let mut i: usize = 0;
        let mut sum: u64 = 0;
        while i < n
            invariant
                i <= n,
                i <= MAX_WEIGHTS,
                keys_ok_upto(weights@, i as int),
                sum == sum_parts(weights@.subrange(0, i as int)),
                sum <= i * (u32::MAX as u64),
            decreases n - i,
        {
            if weights[i].0.len() > MAX_SERVICE_KEY_LEN {
                return Err(Error::ServiceKeyTooLong);
            }
            if i >= MAX_WEIGHTS {
                return Err(Error::TooManyWeights);
            }
            proof {
                assert(weights@.subrange(0, i as int + 1).drop_last() =~= weights@.subrange(
                    0,
                    i as int,
                ));
            }
            sum = sum + (weights[i].1 as u64);
            i = i + 1;
        }
        proof {
            assert(weights@.subrange(0, n as int) =~= weights@);
        }
        if sum > WEIGHT_SUM_LIMIT {
            return Err(Error::WeightSumExceedsOne);
        }
        let (proofs, index): (Vec<Vec<u8>>, u128) = match self.baskets.remove(network_id) {
            Some(b) => (b.proofs, b.index),
            None => (Vec::new(), 0),
        };
        proof {
            if old(self).baskets@.contains_key(network_id) {
                assert(basket_valid(old(self).baskets@[network_id]));
            }
        }
        self.baskets.upsert(network_id, Basket { weights, proofs, index });
        self.events.push(Event::WeightsUpdated { network_id });
        proof {
            assert forall|n2: u64| #[trigger] self.baskets@.contains_key(n2) implies basket_valid(
                self.baskets@[n2],
            ) by {
                if n2 != network_id {
                    assert(old(self).baskets@.contains_key(n2));
                    assert(basket_valid(old(self).baskets@[n2]));
                }
            }
        }
        Ok(())
    }

    /// Appends a proof content identifier to `network_id`'s basket.
    pub fn add_proof(&mut self, _who: u64, network_id: u64, cid: Vec<u8>) -> (r: Result<(), Error>)
        requires
            old(self).wf(),
        ensures
            final(self).wf(),
            match r {
                Ok(()) => {
                    &&& cid@.len() <= MAX_PROOF_CID_LEN
                    &&& old(self).basket_of(network_id) matches Some(prev)
                    &&& prev.proofs@.len() < MAX_PROOFS
                    &&& final(self).basket_of(network_id) matches Some(b)
                    &&& b.weights@ == prev.weights@
                    &&& b.index == prev.index
                    &&& b.proofs@.len() == prev.proofs@.len() + 1
                    &&& b.proofs@.last()@ == cid@
                    &&& b.proofs@.drop_last() == prev.proofs@
                    &&& forall|n: u64|
                        n != network_id ==> final(self).basket_of(n) == old(self).basket_of(n)
                    &&& final(self).events_log() == old(self).events_log().push(
                        Event::ProofAdded { network_id },
                    )
                },
                Err(e) => {
                    &&& *final(self) == *old(self)
                    &&& match e {
                        Error::ProofCidTooLong => cid@.len() > MAX_PROOF_CID_LEN,
                        Error::BasketNotFound => {
                            &&& cid@.len() <= MAX_PROOF_CID_LEN
                            &&& old(self).basket_of(network_id) is None
                        },
                        Error::TooManyProofs => {
                            &&& cid@.len() <= MAX_PROOF_CID_LEN
                            &&& old(self).basket_of(network_id) matches Some(prev)
                            &&& prev.proofs@.len() >= MAX_PROOFS
                        },
                        _ => false,
                    }
                },
            },
    {
        if cid.len() > MAX_PROOF_CID_LEN {
            return Err(Error::ProofCidTooLong);
        }
        match self.baskets.get(network_id) {
            Some(b) => {
                if b.proofs.len() >= MAX_PROOFS {
                    return Err(Error::TooManyProofs);
                }
            },
            None => {
                return Err(Error::BasketNotFound);
            },
        }
        let mut b: Basket = match self.baskets.remove(network_id) {
            Some(b) => b,
            None => {
                proof {
                    assert(false);
                }
                Basket { weights: Vec::new(), proofs: Vec::new(), index: 0 }
            },
        };
        proof {
            assert(basket_valid(old(self).baskets@[network_id]));
        }
        b.proofs.push(cid);
        self.baskets.upsert(network_id, b);
        self.events.push(Event::ProofAdded { network_id });
        proof {
            assert forall|n2: u64| #[trigger] self.baskets@.contains_key(n2) implies basket_valid(
                self.baskets@[n2],
            ) by {
                if n2 != network_id {
                    assert(old(self).baskets@.contains_key(n2));
                    assert(basket_valid(old(self).baskets@[n2]));
                }
            }
        }
        Ok(())
    }

    /// Recomputes `network_id`'s index from its stored weights: the sum of
    /// the parts, carried to the index scale.
    #[verifier::loop_isolation(false)]
    pub fn recompute_index(&mut self, _who: u64, network_id: u64) -> (r: Result<(), Error>)
        requires
            old(self).wf(),
        ensures
            final(self).wf(),
            match r {
                Ok(()) => {
                    &&& old(self).basket_of(network_id) matches Some(prev)
                    &&& final(self).basket_of(network_id) matches Some(b)
                    &&& b.weights@ == prev.weights@
                    &&& b.proofs@ == prev.proofs@
                    &&& b.index == sum_parts(prev.weights@) * INDEX_SCALE
                    &&& forall|n: u64|
                        n != network_id ==> final(self).basket_of(n) == old(self).basket_of(n)
                    &&& final(self).events_log() == old(self).events_log().push(
                        Event::IndexRecomputed { network_id, index: b.index },
                    )
                },
                Err(e) => {
                    &&& *final(self) == *old(self)
                    &&& match e {
                        Error::BasketNotFound => old(self).basket_of(network_id) is None,
                        _ => false,
                    }
                },
            },
    {
        let mut b: Basket = match self.baskets.remove(network_id) {
            Some(b) => b,
            None => {
                return Err(Error::BasketNotFound);
            },
        };
        proof {
            assert(basket_valid(old(self).baskets@[network_id]));
        }
        let n = b.weights.len();
        let mut i: usize = 0;
        let mut sum: u64 = 0;
        while i < n
            invariant
                i <= n,
                n == b.weights@.len(),
                n <= MAX_WEIGHTS,
                sum == sum_parts(b.weights@.subrange(0, i as int)),
                sum <= i * (u32::MAX as u64),
            decreases n - i,
        {
            proof {
                assert(b.weights@.subrange(0, i as int + 1).drop_last() =~= b.weights@.subrange(
                    0,
                    i as int,
                ));
            }
            sum = sum + (b.weights[i].1 as u64);
            i = i + 1;
        }
        proof {
            assert(b.weights@.subrange(0, n as int) =~= b.weights@);
        }
        let index: u128 = (sum as u128) * INDEX_SCALE;
        b.index = index;
        self.baskets.upsert(network_id, b);
        self.events.push(Event::IndexRecomputed { network_id, index });
        proof {
            assert forall|n2: u64| #[trigger] self.baskets@.contains_key(n2) implies basket_valid(
                self.baskets@[n2],
            ) by {
                if n2 != network_id {
                    assert(old(self).baskets@.contains_key(n2));
                    assert(basket_valid(old(self).baskets@[n2]));
                }
            }
        }
        Ok(())
    }

    /// The basket of `network_id`, if one exists.
    pub fn get(&self, network_id: u64) -> (r: Option<&Basket>)
        requires
            self.wf(),
        ensures
            match r {
                Some(b) => self.basket_of(network_id) == Some(*b),
                None => self.basket_of(network_id) is None,
            },
    {
        self.baskets.get(network_id)
    }

    /// The event log, oldest first.
    pub fn events(&self) -> (r: &Vec<Event>)
        ensures
            r@ == self.events_log(),
    {
        &self.events
    }
}

} // verus!
