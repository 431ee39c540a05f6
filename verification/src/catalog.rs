//! The resource catalog: resource definitions and pricing per network.
//!
//! Resource ids are allocated per network from a counter that starts at 0,
//! increases strictly, and is never reused or decremented; pricing is
//! immutable once stored.

use vstd::prelude::*;

use crate::access::Error;
use crate::table::Table;

verus! {

/// Largest accepted content identifier, in bytes.
pub const MAX_CID_LEN: usize = 256;

/// Largest accepted tier name, in bytes.
pub const MAX_TIER_NAME_LEN: usize = 64;

/// Largest accepted number of pricing tiers.
pub const MAX_TIERS: usize = 10;

/// Pricing tier for resource access.  Immutable once stored in a `Pricing`.
pub struct Tier {
    /// Name of the tier, at most [`MAX_TIER_NAME_LEN`] bytes.
    pub name: Vec<u8>,
    /// Amount to stake for this tier.
    pub stake: u128,
    /// Duration in blocks for this tier.
    pub duration_blocks: u32,
}

/// Pricing configuration for a resource.
pub struct Pricing {
    /// Base stake amount, used when no tier is selected.
    pub base_stake: u128,
    /// Base duration in blocks, used when no tier is selected.
    pub duration_blocks: u32,
    /// Tiered price points, at most [`MAX_TIERS`] of them.
    pub tiers: Vec<Tier>,
    /// Pay-per-use price, if that model is enabled for the resource.
    pub ppu: Option<u128>,
}

/// A gated item with a content identifier and pricing.
pub struct Resource {
    /// Content identifier, at most [`MAX_CID_LEN`] bytes.
    pub cid: Vec<u8>,
    /// Resource kind tag.
    pub kind: u8,
    /// Pricing configuration, immutable after registration.
    pub pricing: Pricing,
}

pub open spec fn tier_valid(t: Tier) -> bool {
    t.name@.len() <= MAX_TIER_NAME_LEN
}

pub open spec fn tiers_valid(ts: Seq<Tier>) -> bool {
    &&& ts.len() <= MAX_TIERS
    &&& forall|i: int| 0 <= i < ts.len() ==> tier_valid(#[trigger] ts[i])
}

pub open spec fn resource_valid(r: Resource) -> bool {
    &&& r.cid@.len() <= MAX_CID_LEN
    &&& tiers_valid(r.pricing.tiers@)
}

/// Owns resource definitions and the per-network resource-id counters.
pub struct ResourceCatalog {
    resources: Table<Table<Resource>>,
    next_ids: Table<u64>,
}

impl ResourceCatalog {
    /// Resources by network and resource id.
    pub closed spec fn resource_of(self, network_id: u64, resource_id: u64) -> Option<Resource> {
        if self.resources@.contains_key(network_id) && self.resources@[network_id]@.contains_key(
            resource_id,
        ) {
            Some(self.resources@[network_id]@[resource_id])
        } else {
            None
        }
    }

    /// The id the next successful registration on `network_id` will be given;
    /// 0 for a network nothing was ever registered on.
    pub closed spec fn next_id_of(self, network_id: u64) -> u64 {
        if self.next_ids@.contains_key(network_id) {
            self.next_ids@[network_id]
        } else {
            0
        }
    }

    /// Stored resources are valid, and every stored id precedes its network's
    /// counter, so ids are never reused.
    pub closed spec fn wf(self) -> bool {
        &&& self.resources.wf()
        &&& self.next_ids.wf()
        &&& forall|n: u64|
            #[trigger] self.resources@.contains_key(n) ==> self.resources@[n].wf()
        &&& forall|n: u64, rid: u64|
            self.resources@.contains_key(n) && #[trigger] self.resources@[n]@.contains_key(rid)
                ==> {
                &&& resource_valid(self.resources@[n]@[rid])
                &&& rid < self.next_id_of(n)
            }
    }

    pub fn new() -> (c: ResourceCatalog)
        ensures
            c.wf(),
            forall|n: u64, rid: u64| c.resource_of(n, rid) is None,
            forall|n: u64| c.next_id_of(n) == 0,
    {
        ResourceCatalog { resources: Table::new(), next_ids: Table::new() }
    }

    /// Registers a resource on `network_id`: validates the bounds, allocates
    /// the network's next resource id, and stores the definition.
    #[verifier::loop_isolation(false)]
    pub fn register(
        &mut self,
        network_id: u64,
        cid: Vec<u8>,
        kind: u8,
        base_stake: u128,
        duration_blocks: u32,
        tiers: Vec<Tier>,
        ppu: Option<u128>,
    ) -> (r: Result<u64, Error>)
        requires
            old(self).wf(),
        ensures
            final(self).wf(),
            match r {
                Ok(id) => {
                    &&& cid@.len() <= MAX_CID_LEN
                    &&& tiers_valid(tiers@)
                    &&& id == old(self).next_id_of(network_id)
                    &&& id < u64::MAX
                    &&& old(self).resource_of(network_id, id) is None
                    &&& final(self).next_id_of(network_id) == id + 1
                    &&& final(self).resource_of(network_id, id) matches Some(res)
                    &&& res.cid@ == cid@
                    &&& res.kind == kind
                    &&& res.pricing.base_stake == base_stake
                    &&& res.pricing.duration_blocks == duration_blocks
                    &&& res.pricing.tiers@ == tiers@
                    &&& res.pricing.ppu == ppu
                    &&& forall|n: u64, rid: u64|
                        !(n == network_id && rid == id) ==> final(self).resource_of(n, rid) == old(
                            self,
                        ).resource_of(n, rid)
                    &&& forall|n: u64|
                        n != network_id ==> final(self).next_id_of(n) == old(self).next_id_of(n)
                },
                Err(e) => {
                    &&& *final(self) == *old(self)
                    &&& match e {
                        Error::CidTooLong => cid@.len() > MAX_CID_LEN,
                        Error::TierNameTooLong => {
                            &&& cid@.len() <= MAX_CID_LEN
                            &&& exists|i: int|
                                0 <= i < tiers@.len() && !tier_valid(#[trigger] tiers@[i])
                        },
                        Error::TooManyTiers => {
                            &&& cid@.len() <= MAX_CID_LEN
                            &&& forall|i: int|
                                0 <= i < tiers@.len() ==> tier_valid(#[trigger] tiers@[i])
                            &&& tiers@.len() > MAX_TIERS
                        },
                        Error::ResourceIdOverflow => {
                            &&& cid@.len() <= MAX_CID_LEN
                            &&& tiers_valid(tiers@)
                            &&& old(self).next_id_of(network_id) == u64::MAX
                        },
                        _ => false,
                    }
                },
            },
    {
        if cid.len() > MAX_CID_LEN {
            return Err(Error::CidTooLong);
        }
        let n_tiers = tiers.len();
        let mut i: usize = 0;
        while i < n_tiers
            invariant
                i <= n_tiers,
                n_tiers == tiers@.len(),
                forall|j: int| 0 <= j < i ==> tier_valid(#[trigger] tiers@[j]),
            decreases n_tiers - i,
        {
            if tiers[i].name.len() > MAX_TIER_NAME_LEN {
                return Err(Error::TierNameTooLong);
            }
            i = i + 1;
        }
        if n_tiers > MAX_TIERS {
            return Err(Error::TooManyTiers);
        }
        let id: u64 = match self.next_ids.get(network_id) {
            Some(v) => *v,
            None => 0,
        };
        let next: u64 = match id.checked_add(1) {
            Some(nx) => nx,
            None => {
                return Err(Error::ResourceIdOverflow);
            },
        };
        let resource = Resource {
            cid,
            kind,
            pricing: Pricing { base_stake, duration_blocks, tiers, ppu },
        };
        let mut inner: Table<Resource> = match self.resources.remove(network_id) {
            Some(t) => t,
            None => Table::new(),
        };
        proof {
            if old(self).resources@.contains_key(network_id) {
                assert(old(self).resources@[network_id].wf());
            }
        }
        inner.upsert(id, resource);
        self.resources.upsert(network_id, inner);
        self.next_ids.upsert(network_id, next);
        proof {
            assert forall|n: u64| #[trigger] self.resources@.contains_key(n) implies self
                .resources@[n].wf() by {
                if n != network_id {
                    assert(old(self).resources@.contains_key(n));
                    assert(self.resources@[n] == old(self).resources@[n]);
                }
            }
            assert forall|n: u64, rid: u64|
                self.resources@.contains_key(n) && #[trigger] self.resources@[n]@.contains_key(
                    rid,
                ) implies {
                &&& resource_valid(self.resources@[n]@[rid])
                &&& rid < self.next_id_of(n)
            } by {
                if n != network_id {
                    assert(old(self).resources@.contains_key(n));
                    assert(self.resources@[n] == old(self).resources@[n]);
                    assert(old(self).resources@[n]@.contains_key(rid));
                } else {
                    if rid != id {
                        assert(old(self).resources@.contains_key(network_id));
                        assert(old(self).resources@[network_id]@.contains_key(rid));
                    }
                }
            }
            assert forall|n: u64, rid: u64|
                !(n == network_id && rid == id) implies final(self).resource_of(n, rid) == old(
                self,
            ).resource_of(n, rid) by {
                if n == network_id {
                    if old(self).resources@.contains_key(network_id) {
                        assert(old(self).resources@[network_id].wf());
                    }
                }
            }
        }
        Ok(id)
    }

    /// The resource under `(network_id, resource_id)`, if one exists.
    pub fn get(&self, network_id: u64, resource_id: u64) -> (r: Option<&Resource>)
        requires
            self.wf(),
        ensures
            match r {
                Some(res) => self.resource_of(network_id, resource_id) == Some(*res),
                None => self.resource_of(network_id, resource_id) is None,
            },
    {
        match self.resources.get(network_id) {
            Some(t) => {
                proof {
                    assert(self.resources@[network_id].wf());
                }
                t.get(resource_id)
            },
            None => None,
        }
    }

    /// The id the next successful registration on `network_id` will be given.
    pub fn next_resource_id(&self, network_id: u64) -> (r: u64)
        requires
            self.wf(),
        ensures
            r == self.next_id_of(network_id),
    {
        match self.next_ids.get(network_id) {
            Some(v) => *v,
            None => 0,
        }
    }
}

} // verus!
