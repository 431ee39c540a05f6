//! The access controller: the caller-facing component that orchestrates the
//! resource catalog, the membership ledger, the network directory and the
//! escrow ledger.
//!
//! Per `(network_id, account)` key a membership is Unstaked (no record),
//! Active (`expires_at` above the current height), or Expired (record still
//! present); staking moves Unstaked or Expired to Active, reclamation moves
//! Expired back to Unstaked.  A re-stake overwrites the prior record and
//! atomically releases its escrow before locking the new stake, so escrowed
//! value is neither lost nor duplicated.  Callers are pre-authenticated by
//! the host and arrive as plain account values, and the current height is
//! handed in by the host as the time axis.

use vstd::prelude::*;

use crate::catalog::{Pricing, Resource, ResourceCatalog, Tier, MAX_CID_LEN, MAX_TIERS};
use crate::catalog::{tier_valid, tiers_valid};
use crate::directory::{spec_treasury_account, NetworkDirectory};
use crate::ledger::{Escrow, Ledger};
use crate::membership::{Membership, MembershipLedger};

verus! {

/// Why an access-gate operation was refused.  A refused operation has no
/// effect: no storage write, no ledger movement and no event.
#[derive(Clone, Copy, PartialEq, Eq, Debug)]
pub enum Error {
    /// The content identifier exceeds the accepted length.
    CidTooLong,
    /// A tier name exceeds the accepted length.
    TierNameTooLong,
    /// More tiers than the accepted count.
    TooManyTiers,
    /// No resource under the given network and resource id.
    ResourceNotFound,
    /// No network under the given id.
    NetworkNotFound,
    /// The caller is not the owner of the network.
    NotNetworkOwner,
    /// The selected tier index is not below the resource's tier count.
    InvalidTierIndex,
    /// The selected price point has a duration of zero blocks; staking it
    /// would record an expiry not strictly above the current height.
    ZeroDuration,
    /// No membership record under the given network and account.
    MembershipNotFound,
    /// The membership's expiry height has not been reached.
    MembershipNotExpired,
    /// The network's resource-id space is exhausted.
    ResourceIdOverflow,
    /// The resource's pricing has no pay-per-use amount.
    PayPerUseNotEnabled,
    /// The expiry height would exceed the largest representable height.
    HeightOverflow,
    /// The caller's spendable balance does not cover the stake or payment.
    InsufficientBalance,
    /// A ledger balance would exceed the largest representable value.
    BalanceOverflow,
    /// The ledger's escrow-handle space is exhausted.
    EscrowIdOverflow,
}

/// One record per successful state-changing call, in order.
#[derive(Clone, Copy, PartialEq, Eq, Debug)]
pub enum Event {
    /// A resource was registered.
    ResourceRegistered { network_id: u64, resource_id: u64 },
    /// Access was granted to an account.
    AccessGranted { network_id: u64, who: u64, tier_idx: Option<u32>, expires_at: u64 },
    /// An expired membership was reclaimed.
    AccessExpired { network_id: u64, who: u64 },
    /// A pay-per-use payment was made.
    PayPerUsePaid { network_id: u64, who: u64, resource_id: u64, amount: u128 },
}

/// Whether `tier_idx` selects an existing price point of `p`: either the
/// base point (`None`) or a valid index into the tiers.
pub open spec fn tier_ok(p: Pricing, tier_idx: Option<u32>) -> bool {
    match tier_idx {
        None => true,
        Some(i) => (i as int) < p.tiers@.len(),
    }
}

/// The stake amount of the selected price point.
pub open spec fn chosen_stake(p: Pricing, tier_idx: Option<u32>) -> u128 {
    match tier_idx {
        None => p.base_stake,
        Some(i) => p.tiers@[i as int].stake,
    }
}

/// The duration in blocks of the selected price point.
pub open spec fn chosen_duration(p: Pricing, tier_idx: Option<u32>) -> u32 {
    match tier_idx {
        None => p.duration_blocks,
        Some(i) => p.tiers@[i as int].duration_blocks,
    }
}

/// What a successful registration does to the id space of a network: it
/// returns the network's counter and advances it by one, placing the new
/// resource under an id that was never occupied before.
pub open spec fn register_allocates(
    pre: AccessController,
    post: AccessController,
    network_id: u64,
    id: u64,
) -> bool {
    &&& id == pre.next_resource_id_of(network_id)
    &&& post.next_resource_id_of(network_id) == id + 1
    &&& pre.resource_of(network_id, id) is None
    &&& post.resource_of(network_id, id) is Some
}

/// The cross-entity consistency between memberships and the ledger: every
/// membership's stake is held in an outstanding escrow locked from the
/// member's account, and no two memberships share an escrow, so reclaiming
/// one membership can neither miss its stake nor touch another's.  Staking
/// and reclamation preserve this, so a controller and ledger that only ever
/// change together through them never leak or duplicate escrowed value.
pub open spec fn escrow_linkage(gate: AccessController, ledger: Ledger) -> bool {
    &&& forall|n: u64, a: u64|
        (#[trigger] gate.membership_of(n, a)) matches Some(m) ==> (ledger.escrow_of(m.escrow_id)
            matches Some(e) && e.account == a)
    &&& forall|n1: u64, a1: u64, n2: u64, a2: u64|
        #![trigger gate.membership_of(n1, a1), gate.membership_of(n2, a2)]
        gate.membership_of(n1, a1) is Some && gate.membership_of(n2, a2) is Some && !(n1 == n2 && a1
            == a2) ==> ((gate.membership_of(n1, a1))->Some_0).escrow_id != ((gate.membership_of(
            n2,
            a2,
        ))->Some_0).escrow_id
}

/// Orchestrates catalog and memberships; the only component exposed to
/// callers.  The network directory and the escrow ledger are collaborators
/// handed into each operation.
pub struct AccessController {
    catalog: ResourceCatalog,
    members: MembershipLedger,
    events: Vec<Event>,
}

impl AccessController {
    pub closed spec fn resource_of(self, network_id: u64, resource_id: u64) -> Option<Resource> {
        self.catalog.resource_of(network_id, resource_id)
    }

    pub closed spec fn next_resource_id_of(self, network_id: u64) -> u64 {
        self.catalog.next_id_of(network_id)
    }

    pub closed spec fn membership_of(self, network_id: u64, account: u64) -> Option<Membership> {
        self.members.membership_of(network_id, account)
    }

    /// The event log, oldest first.
    pub closed spec fn events_log(self) -> Seq<Event> {
        self.events@
    }

    pub closed spec fn wf(self) -> bool {
        &&& self.catalog.wf()
        &&& self.members.wf()
    }

    pub fn new() -> (c: AccessController)
        ensures
            c.wf(),
            forall|n: u64, rid: u64| c.resource_of(n, rid) is None,
            forall|n: u64, a: u64| c.membership_of(n, a) is None,
            forall|n: u64| c.next_resource_id_of(n) == 0,
            c.events_log() == Seq::<Event>::empty(),
    {
        AccessController {
            catalog: ResourceCatalog::new(),
            members: MembershipLedger::new(),
            events: Vec::new(),
        }
    }

    /// Registers a resource on `network_id` on behalf of `who`, who must own
    /// the network.  Allocates the network's next resource id, stores the
    /// definition, and appends a `ResourceRegistered` event.
    pub fn register_resource(
        &mut self,
        directory: &NetworkDirectory,
        who: u64,
        network_id: u64,
        cid: Vec<u8>,
        kind: u8,
        base_stake: u128,
        duration_blocks: u32,
        tiers: Vec<Tier>,
        ppu: Option<u128>,
    ) -> (r: Result<u64, Error>)
        requires
            old(self).wf(),
            directory.wf(),
        ensures
            final(self).wf(),
            match r {
                Ok(id) => {
                    &&& directory.network_of(network_id) matches Some(info)
                    &&& info.owner == who
                    &&& cid@.len() <= MAX_CID_LEN
                    &&& tiers_valid(tiers@)
                    &&& register_allocates(*old(self), *final(self), network_id, id)
                    &&& final(self).resource_of(network_id, id) matches Some(res)
                    &&& res.cid@ == cid@
                    &&& res.kind == kind
                    &&& res.pricing.base_stake == base_stake
                    &&& res.pricing.duration_blocks == duration_blocks
                    &&& res.pricing.tiers@ == tiers@
                    &&& res.pricing.ppu == ppu
                    &&& forall|n: u64, rid: u64|
                        !(n == network_id && rid == id) ==> final(self).resource_of(n, rid) == old(
                            self,
                        ).resource_of(n, rid)
                    &&& forall|n: u64|
                        n != network_id ==> final(self).next_resource_id_of(n) == old(
                            self,
                        ).next_resource_id_of(n)
                    &&& forall|n: u64, a: u64|
                        final(self).membership_of(n, a) == old(self).membership_of(n, a)
                    &&& final(self).events_log() == old(self).events_log().push(
                        Event::ResourceRegistered { network_id, resource_id: id },
                    )
                },
                Err(e) => {
                    &&& *final(self) == *old(self)
                    &&& match e {
                        Error::NetworkNotFound => directory.network_of(network_id) is None,
                        Error::NotNetworkOwner => {
                            &&& directory.network_of(network_id) matches Some(info)
                            &&& info.owner != who
                        },
                        Error::CidTooLong => {
                            &&& directory.network_of(network_id) matches Some(info)
                            &&& info.owner == who
                            &&& cid@.len() > MAX_CID_LEN
                        },
                        Error::TierNameTooLong => {
                            &&& directory.network_of(network_id) matches Some(info)
                            &&& info.owner == who
                            &&& cid@.len() <= MAX_CID_LEN
                            &&& exists|i: int|
                                0 <= i < tiers@.len() && !tier_valid(#[trigger] tiers@[i])
                        },
                        Error::TooManyTiers => {
                            &&& directory.network_of(network_id) matches Some(info)
                            &&& info.owner == who
                            &&& cid@.len() <= MAX_CID_LEN
                            &&& forall|i: int|
                                0 <= i < tiers@.len() ==> tier_valid(#[trigger] tiers@[i])
                            &&& tiers@.len() > MAX_TIERS
                        },
                        Error::ResourceIdOverflow => {
                            &&& directory.network_of(network_id) matches Some(info)
                            &&& info.owner == who
                            &&& cid@.len() <= MAX_CID_LEN
                            &&& tiers_valid(tiers@)
                            &&& old(self).next_resource_id_of(network_id) == u64::MAX
                        },
                        _ => false,
                    }
                },
            },
    {
        match directory.owner_of(network_id) {
            None => {
                return Err(Error::NetworkNotFound);
            },
            Some(owner) => {
                if owner != who {
                    return Err(Error::NotNetworkOwner);
                }
            },
        }
        let id = match self.catalog.register(
            network_id,
            cid,
            kind,
            base_stake,
            duration_blocks,
            tiers,
            ppu,
        ) {
            Ok(id) => id,
            Err(e) => {
                return Err(e);
            },
        };
        self.events.push(Event::ResourceRegistered { network_id, resource_id: id });
        Ok(id)
    }

    /// Stakes for access to `network_id` at the price point selected by
    /// `tier_idx` on the resource under `resource_id`, at current height
    /// `now`: locks the stake in escrow, writes the membership record
    /// (overwriting any prior one and atomically releasing its escrow), and
    /// appends an `AccessGranted` event.  The recorded expiry is strictly
    /// above `now`, so a price point whose duration is zero blocks is
    /// refused: its membership would be born already expired.
    pub fn stake_for_access(
        &mut self,
        ledger: &mut Ledger,
        directory: &NetworkDirectory,
        who: u64,
        network_id: u64,
        resource_id: u64,
        tier_idx: Option<u32>,
        now: u64,
    ) -> (r: Result<Membership, Error>)
        requires
            old(self).wf(),
            old(ledger).wf(),
            directory.wf(),
        ensures
            final(self).wf(),
            final(ledger).wf(),
            escrow_linkage(*old(self), *old(ledger)) ==> escrow_linkage(
                *final(self),
                *final(ledger),
            ),
            match r {
                Ok(m) => {
                    &&& old(self).resource_of(network_id, resource_id) matches Some(res)
                    &&& directory.network_of(network_id) is Some
                    &&& tier_ok(res.pricing, tier_idx)
                    &&& chosen_duration(res.pricing, tier_idx) > 0
                    &&& {
                        let amount = chosen_stake(res.pricing, tier_idx);
                        let duration = chosen_duration(res.pricing, tier_idx);
                        let prior = match old(self).membership_of(network_id, who) {
                            Some(pm) => Some(pm.escrow_id),
                            None => None,
                        };
                        &&& now + duration <= u64::MAX
                        &&& m == (Membership {
                            network_id,
                            who,
                            tier_idx,
                            expires_at: (now + duration) as u64,
                            escrow_id: old(ledger).next_escrow(),
                        })
                        &&& m.expires_at > now
                        &&& final(self).membership_of(network_id, who) == Some(m)
                        &&& forall|n: u64, a: u64|
                            !(n == network_id && a == who) ==> final(self).membership_of(n, a)
                                == old(self).membership_of(n, a)
                        &&& forall|n: u64, rid: u64|
                            final(self).resource_of(n, rid) == old(self).resource_of(n, rid)
                        &&& forall|n: u64|
                            final(self).next_resource_id_of(n) == old(self).next_resource_id_of(n)
                        &&& final(self).events_log() == old(self).events_log().push(
                            Event::AccessGranted {
                                network_id,
                                who,
                                tier_idx,
                                expires_at: m.expires_at,
                            },
                        )
                        &&& old(ledger).balance_of(who) + old(ledger).prior_amount(who, prior)
                            >= amount
                        &&& final(ledger).balance_of(who) == old(ledger).balance_of(who) + old(
                            ledger,
                        ).prior_amount(who, prior) - amount
                        &&& forall|a: u64|
                            a != who ==> final(ledger).balance_of(a) == old(ledger).balance_of(a)
                        &&& final(ledger).escrow_of(m.escrow_id) == Some(
                            Escrow { account: who, amount },
                        )
                        &&& final(ledger).escrow_map() == if old(ledger).prior_consumed(
                            who,
                            prior,
                        ) {
                            old(ledger).escrow_map().remove(prior->Some_0).insert(
                                m.escrow_id,
                                Escrow { account: who, amount },
                            )
                        } else {
                            old(ledger).escrow_map().insert(
                                m.escrow_id,
                                Escrow { account: who, amount },
                            )
                        }
                        &&& final(ledger).next_escrow() == m.escrow_id + 1
                    }
                },
                Err(e) => {
                    &&& *final(self) == *old(self)
                    &&& *final(ledger) == *old(ledger)
                    &&& {
                        let prior = match old(self).membership_of(network_id, who) {
                            Some(pm) => Some(pm.escrow_id),
                            None => None,
                        };
                        match e {
                            Error::ResourceNotFound => old(self).resource_of(
                                network_id,
                                resource_id,
                            ) is None,
                            Error::NetworkNotFound => {
                                &&& old(self).resource_of(network_id, resource_id) is Some
                                &&& directory.network_of(network_id) is None
                            },
                            Error::InvalidTierIndex => {
                                &&& old(self).resource_of(network_id, resource_id) matches Some(
                                    res,
                                )
                                &&& directory.network_of(network_id) is Some
                                &&& !tier_ok(res.pricing, tier_idx)
                            },
                            Error::ZeroDuration => {
                                &&& old(self).resource_of(network_id, resource_id) matches Some(
                                    res,
                                )
                                &&& directory.network_of(network_id) is Some
                                &&& tier_ok(res.pricing, tier_idx)
                                &&& chosen_duration(res.pricing, tier_idx) == 0
                            },
                            Error::HeightOverflow => {
                                &&& old(self).resource_of(network_id, resource_id) matches Some(
                                    res,
                                )
                                &&& directory.network_of(network_id) is Some
                                &&& tier_ok(res.pricing, tier_idx)
                                &&& chosen_duration(res.pricing, tier_idx) > 0
                                &&& now + chosen_duration(res.pricing, tier_idx) > u64::MAX
                            },
                            Error::InsufficientBalance => {
                                &&& old(self).resource_of(network_id, resource_id) matches Some(
                                    res,
                                )
                                &&& directory.network_of(network_id) is Some
                                &&& tier_ok(res.pricing, tier_idx)
                                &&& chosen_duration(res.pricing, tier_idx) > 0
                                &&& now + chosen_duration(res.pricing, tier_idx) <= u64::MAX
                                &&& old(ledger).balance_of(who) + old(ledger).prior_amount(
                                    who,
                                    prior,
                                ) < chosen_stake(res.pricing, tier_idx)
                            },
                            Error::EscrowIdOverflow => {
                                &&& old(self).resource_of(network_id, resource_id) matches Some(
                                    res,
                                )
                                &&& directory.network_of(network_id) is Some
                                &&& tier_ok(res.pricing, tier_idx)
                                &&& chosen_duration(res.pricing, tier_idx) > 0
                                &&& now + chosen_duration(res.pricing, tier_idx) <= u64::MAX
                                &&& old(ledger).balance_of(who) + old(ledger).prior_amount(
                                    who,
                                    prior,
                                ) >= chosen_stake(res.pricing, tier_idx)
                                &&& old(ledger).next_escrow() == u64::MAX
                            },
                            Error::BalanceOverflow => {
                                &&& old(self).resource_of(network_id, resource_id) matches Some(
                                    res,
                                )
                                &&& directory.network_of(network_id) is Some
                                &&& tier_ok(res.pricing, tier_idx)
                                &&& chosen_duration(res.pricing, tier_idx) > 0
                                &&& now + chosen_duration(res.pricing, tier_idx) <= u64::MAX
                                &&& old(ledger).balance_of(who) + old(ledger).prior_amount(
                                    who,
                                    prior,
                                ) - chosen_stake(res.pricing, tier_idx) > u128::MAX
                                &&& old(ledger).next_escrow() < u64::MAX
                            },
                            _ => false,
                        }
                    }
                },
            },
    {
        let (amount, duration): (u128, u32) = {
            let res = match self.catalog.get(network_id, resource_id) {
                Some(res) => res,
                None => {
                    return Err(Error::ResourceNotFound);
                },
            };
            if !directory.has_network(network_id) {
                return Err(Error::NetworkNotFound);
            }
            match tier_idx {
                None => (res.pricing.base_stake, res.pricing.duration_blocks),
                Some(i) => {
                    let idx = i as usize;
                    if idx >= res.pricing.tiers.len() {
                        return Err(Error::InvalidTierIndex);
                    }
                    (res.pricing.tiers[idx].stake, res.pricing.tiers[idx].duration_blocks)
                },
            }
        };
        if duration == 0 {
            return Err(Error::ZeroDuration);
        }
        let expires_at = match now.checked_add(duration as u64) {
            Some(e) => e,
            None => {
                return Err(Error::HeightOverflow);
            },
        };
        let prior: Option<u64> = match self.members.get(network_id, who) {
            Some(pm) => Some(pm.escrow_id),
            None => None,
        };
        let escrow_id = match ledger.relock(who, prior, amount) {
            Ok(id) => id,
            Err(le) => {
                return Err(
                    match le {
                        crate::ledger::Error::InsufficientBalance => Error::InsufficientBalance,
                        crate::ledger::Error::BalanceOverflow => Error::BalanceOverflow,
                        crate::ledger::Error::EscrowIdOverflow => Error::EscrowIdOverflow,
                        crate::ledger::Error::EscrowNotFound => {
                            proof {
                                assert(false);
                            }
                            Error::EscrowIdOverflow
                        },
                    },
                );
            },
        };
        let m = Membership { network_id, who, tier_idx, expires_at, escrow_id };
        self.members.upsert(network_id, who, m);
        self.events.push(
            Event::AccessGranted { network_id, who, tier_idx, expires_at },
        );
        proof {
            if escrow_linkage(*old(self), *old(ledger)) {
                let g0 = *old(self);
                let l0 = *old(ledger);
                assert forall|n2: u64, a2: u64|
                    #![trigger self.membership_of(n2, a2)]
                    self.membership_of(n2, a2) is Some implies {
                    let m2 = (self.membership_of(n2, a2))->Some_0;
                    &&& ledger.escrow_of(m2.escrow_id) is Some
                    &&& ((ledger.escrow_of(m2.escrow_id))->Some_0).account == a2
                } by {
                    let m2 = (self.membership_of(n2, a2))->Some_0;
                    if n2 == network_id && a2 == who {
                        assert(m2 == m);
                    } else {
                        assert(g0.membership_of(n2, a2) == Some(m2));
                        l0.lemma_outstanding_below_next(m2.escrow_id);
                        assert(m2.escrow_id != escrow_id);
                        if l0.prior_consumed(who, prior) {
                            let pm0 = (g0.membership_of(network_id, who))->Some_0;
                            assert(prior == Some(pm0.escrow_id));
                            assert(m2.escrow_id != pm0.escrow_id);
                        }
                    }
                }
                assert forall|n1: u64, a1: u64, n2: u64, a2: u64|
                    #![trigger self.membership_of(n1, a1), self.membership_of(n2, a2)]
                    self.membership_of(n1, a1) is Some && self.membership_of(n2, a2) is Some && !(
                n1 == n2 && a1 == a2) implies ((self.membership_of(n1, a1))->Some_0).escrow_id != ((
                self.membership_of(n2, a2))->Some_0).escrow_id by {
                    let m1 = (self.membership_of(n1, a1))->Some_0;
                    let m2 = (self.membership_of(n2, a2))->Some_0;
                    if n1 == network_id && a1 == who {
                        assert(g0.membership_of(n2, a2) == Some(m2));
                        l0.lemma_outstanding_below_next(m2.escrow_id);
                    } else if n2 == network_id && a2 == who {
                        assert(g0.membership_of(n1, a1) == Some(m1));
                        l0.lemma_outstanding_below_next(m1.escrow_id);
                    } else {
                        assert(g0.membership_of(n1, a1) == Some(m1));
                        assert(g0.membership_of(n2, a2) == Some(m2));
                    }
                }
            }
        }
        Ok(m)
    }

    /// Reclaims the membership of `account` under `network_id` once its
    /// expiry height has been reached: releases the escrowed stake back to
    /// the account, deletes the record, and appends an `AccessExpired`
    /// event.  Reclamation is permissionless: any caller may trigger it, so
    /// no caller identity takes part in the decision.
    pub fn unstake_if_expired(
        &mut self,
        ledger: &mut Ledger,
        network_id: u64,
        account: u64,
        now: u64,
    ) -> (r: Result<(), Error>)
        requires
            old(self).wf(),
            old(ledger).wf(),
        ensures
            final(self).wf(),
            final(ledger).wf(),
            escrow_linkage(*old(self), *old(ledger)) ==> escrow_linkage(
                *final(self),
                *final(ledger),
            ),
            match r {
                Ok(()) => {
                    &&& old(self).membership_of(network_id, account) matches Some(m)
                    &&& now >= m.expires_at
                    &&& final(self).membership_of(network_id, account) is None
                    &&& forall|n: u64, a: u64|
                        !(n == network_id && a == account) ==> final(self).membership_of(n, a)
                            == old(self).membership_of(n, a)
                    &&& forall|n: u64, rid: u64|
                        final(self).resource_of(n, rid) == old(self).resource_of(n, rid)
                    &&& forall|n: u64|
                        final(self).next_resource_id_of(n) == old(self).next_resource_id_of(n)
                    &&& final(self).events_log() == old(self).events_log().push(
                        Event::AccessExpired { network_id, who: account },
                    )
                    &&& match old(ledger).escrow_of(m.escrow_id) {
                        Some(es) => {
                            &&& final(ledger).escrow_map() == old(ledger).escrow_map().remove(
                                m.escrow_id,
                            )
                            &&& final(ledger).balance_of(es.account) == old(ledger).balance_of(
                                es.account,
                            ) + es.amount
                            &&& forall|a: u64|
                                a != es.account ==> final(ledger).balance_of(a) == old(
                                    ledger,
                                ).balance_of(a)
                            &&& final(ledger).next_escrow() == old(ledger).next_escrow()
                        },
                        None => *final(ledger) == *old(ledger),
                    }
                },
                Err(e) => {
                    &&& *final(self) == *old(self)
                    &&& *final(ledger) == *old(ledger)
                    &&& match e {
                        Error::MembershipNotFound => old(self).membership_of(
                            network_id,
                            account,
                        ) is None,
                        Error::MembershipNotExpired => {
                            &&& old(self).membership_of(network_id, account) matches Some(m)
                            &&& now < m.expires_at
                        },
                        Error::BalanceOverflow => {
                            &&& old(self).membership_of(network_id, account) matches Some(m)
                            &&& now >= m.expires_at
                            &&& old(ledger).escrow_of(m.escrow_id) matches Some(es)
                            &&& old(ledger).balance_of(es.account) + es.amount > u128::MAX
                        },
                        _ => false,
                    }
                },
            },
    {
        let m = match self.members.get(network_id, account) {
            Some(m) => m,
            None => {
                return Err(Error::MembershipNotFound);
            },
        };
        if now < m.expires_at {
            return Err(Error::MembershipNotExpired);
        }
        match ledger.release(m.escrow_id) {
            Ok(()) => {},
            Err(le) => {
                match le {
                    crate::ledger::Error::EscrowNotFound => {
                        // Nothing is held under the handle, so there is
                        // nothing to release; the record is still reclaimed.
                    },
                    crate::ledger::Error::BalanceOverflow => {
                        return Err(Error::BalanceOverflow);
                    },
                    _ => {
                        proof {
                            assert(false);
                        }
                    },
                }
            },
        }
        let _ = self.members.remove(network_id, account);
        self.events.push(Event::AccessExpired { network_id, who: account });
        proof {
            if escrow_linkage(*old(self), *old(ledger)) {
                let g0 = *old(self);
                assert forall|n2: u64, a2: u64|
                    #![trigger self.membership_of(n2, a2)]
                    self.membership_of(n2, a2) is Some implies {
                    let m2 = (self.membership_of(n2, a2))->Some_0;
                    &&& ledger.escrow_of(m2.escrow_id) is Some
                    &&& ((ledger.escrow_of(m2.escrow_id))->Some_0).account == a2
                } by {
                    let m2 = (self.membership_of(n2, a2))->Some_0;
                    assert(g0.membership_of(n2, a2) == Some(m2));
                    assert(g0.membership_of(network_id, account) == Some(m));
                    assert(m2.escrow_id != m.escrow_id);
                }
                assert forall|n1: u64, a1: u64, n2: u64, a2: u64|
                    #![trigger self.membership_of(n1, a1), self.membership_of(n2, a2)]
                    self.membership_of(n1, a1) is Some && self.membership_of(n2, a2) is Some && !(
                n1 == n2 && a1 == a2) implies ((self.membership_of(n1, a1))->Some_0).escrow_id != ((
                self.membership_of(n2, a2))->Some_0).escrow_id by {
                    let m1 = (self.membership_of(n1, a1))->Some_0;
                    let m2 = (self.membership_of(n2, a2))->Some_0;
                    assert(g0.membership_of(n1, a1) == Some(m1));
                    assert(g0.membership_of(n2, a2) == Some(m2));
                }
            }
        }
        Ok(())
    }

    /// Pays the resource's configured pay-per-use amount from `who` to the
    /// network's treasury and appends a `PayPerUsePaid` event.  Independent
    /// of membership state: no record is read or written.
    pub fn pay_per_use(
        &mut self,
        ledger: &mut Ledger,
        who: u64,
        network_id: u64,
        resource_id: u64,
    ) -> (r: Result<(), Error>)
        requires
            old(self).wf(),
            old(ledger).wf(),
        ensures
            final(self).wf(),
            final(ledger).wf(),
            escrow_linkage(*old(self), *old(ledger)) ==> escrow_linkage(
                *final(self),
                *final(ledger),
            ),
            match r {
                Ok(()) => {
                    &&& old(self).resource_of(network_id, resource_id) matches Some(res)
                    &&& res.pricing.ppu matches Some(amount)
                    &&& forall|n: u64, a: u64|
                        final(self).membership_of(n, a) == old(self).membership_of(n, a)
                    &&& forall|n: u64, rid: u64|
                        final(self).resource_of(n, rid) == old(self).resource_of(n, rid)
                    &&& forall|n: u64|
                        final(self).next_resource_id_of(n) == old(self).next_resource_id_of(n)
                    &&& final(self).events_log() == old(self).events_log().push(
                        Event::PayPerUsePaid { network_id, who, resource_id, amount },
                    )
                    &&& {
                        let treasury = spec_treasury_account(network_id);
                        &&& old(ledger).balance_of(who) >= amount
                        &&& if who == treasury {
                            *final(ledger) == *old(ledger)
                        } else {
                            &&& old(ledger).balance_of(treasury) + amount <= u128::MAX
                            &&& final(ledger).balance_of(who) == old(ledger).balance_of(who)
                                - amount
                            &&& final(ledger).balance_of(treasury) == old(ledger).balance_of(
                                treasury,
                            ) + amount
                            &&& forall|a: u64|
                                a != who && a != treasury ==> final(ledger).balance_of(a) == old(
                                    ledger,
                                ).balance_of(a)
                            &&& final(ledger).escrow_map() == old(ledger).escrow_map()
                            &&& final(ledger).next_escrow() == old(ledger).next_escrow()
                        }
                    }
                },
                Err(e) => {
                    &&& *final(self) == *old(self)
                    &&& *final(ledger) == *old(ledger)
                    &&& match e {
                        Error::ResourceNotFound => old(self).resource_of(
                            network_id,
                            resource_id,
                        ) is None,
                        Error::PayPerUseNotEnabled => {
                            &&& old(self).resource_of(network_id, resource_id) matches Some(res)
                            &&& res.pricing.ppu is None
                        },
                        Error::InsufficientBalance => {
                            &&& old(self).resource_of(network_id, resource_id) matches Some(res)
                            &&& res.pricing.ppu matches Some(amount)
                            &&& old(ledger).balance_of(who) < amount
                        },
                        Error::BalanceOverflow => {
                            &&& old(self).resource_of(network_id, resource_id) matches Some(res)
                            &&& res.pricing.ppu matches Some(amount)
                            &&& old(ledger).balance_of(who) >= amount
                            &&& who != spec_treasury_account(network_id)
                            &&& old(ledger).balance_of(spec_treasury_account(network_id)) + amount
                                > u128::MAX
                        },
                        _ => false,
                    }
                },
            },
    {
        let amount: u128 = {
            let res = match self.catalog.get(network_id, resource_id) {
                Some(res) => res,
                None => {
                    return Err(Error::ResourceNotFound);
                },
            };
            match res.pricing.ppu {
                Some(amount) => amount,
                None => {
                    return Err(Error::PayPerUseNotEnabled);
                },
            }
        };
        let treasury = NetworkDirectory::treasury_account(network_id);
        match ledger.transfer(who, treasury, amount) {
            Ok(()) => {},
            Err(le) => {
                return Err(
                    match le {
                        crate::ledger::Error::InsufficientBalance => Error::InsufficientBalance,
                        crate::ledger::Error::BalanceOverflow => Error::BalanceOverflow,
                        _ => {
                            proof {
                                assert(false);
                            }
                            Error::BalanceOverflow
                        },
                    },
                );
            },
        }
        self.events.push(Event::PayPerUsePaid { network_id, who, resource_id, amount });
        proof {
            if escrow_linkage(*old(self), *old(ledger)) {
                let g0 = *old(self);
                assert forall|n2: u64, a2: u64|
                    #![trigger self.membership_of(n2, a2)]
                    self.membership_of(n2, a2) is Some implies {
                    let m2 = (self.membership_of(n2, a2))->Some_0;
                    &&& ledger.escrow_of(m2.escrow_id) is Some
                    &&& ((ledger.escrow_of(m2.escrow_id))->Some_0).account == a2
                } by {
                    let m2 = (self.membership_of(n2, a2))->Some_0;
                    assert(g0.membership_of(n2, a2) == Some(m2));
                    assert(ledger.escrow_map() == old(ledger).escrow_map());
                }
                assert forall|n1: u64, a1: u64, n2: u64, a2: u64|
                    #![trigger self.membership_of(n1, a1), self.membership_of(n2, a2)]
                    self.membership_of(n1, a1) is Some && self.membership_of(n2, a2) is Some && !(
                n1 == n2 && a1 == a2) implies ((self.membership_of(n1, a1))->Some_0).escrow_id != ((
                self.membership_of(n2, a2))->Some_0).escrow_id by {
                    let m1 = (self.membership_of(n1, a1))->Some_0;
                    let m2 = (self.membership_of(n2, a2))->Some_0;
                    assert(g0.membership_of(n1, a1) == Some(m1));
                    assert(g0.membership_of(n2, a2) == Some(m2));
                }
            }
        }
        Ok(())
    }

    /// The resource under `(network_id, resource_id)`, if one exists.
    /// Read-only.
    pub fn get_resource(&self, network_id: u64, resource_id: u64) -> (r: Option<&Resource>)
        requires
            self.wf(),
        ensures
            match r {
                Some(res) => self.resource_of(network_id, resource_id) == Some(*res),
                None => self.resource_of(network_id, resource_id) is None,
            },
    {
        self.catalog.get(network_id, resource_id)
    }

    /// The membership of `account` under `network_id`, if one exists.
    /// Read-only.
    pub fn get_membership(&self, network_id: u64, account: u64) -> (r: Option<Membership>)
        requires
            self.wf(),
        ensures
            r == self.membership_of(network_id, account),
    {
        self.members.get(network_id, account)
    }

    /// The id the next successful registration on `network_id` will be given.
    pub fn next_resource_id(&self, network_id: u64) -> (r: u64)
        requires
            self.wf(),
        ensures
            r == self.next_resource_id_of(network_id),
    {
        self.catalog.next_resource_id(network_id)
    }

    /// The event log, oldest first.
    pub fn events(&self) -> (r: &Vec<Event>)
        ensures
            r@ == self.events_log(),
    {
        &self.events
    }
}

/// Monotonic ids: two successive successful registrations on one network
/// yield strictly increasing resource ids, each one more than the last, and
/// on a network nothing was ever registered on the first id is 0.
pub proof fn lemma_monotonic_resource_ids(
    s0: AccessController,
    s1: AccessController,
    s2: AccessController,
    network_id: u64,
    id1: u64,
    id2: u64,
)
    requires
        register_allocates(s0, s1, network_id, id1),
        register_allocates(s1, s2, network_id, id2),
    ensures
        id2 == id1 + 1,
        id2 > id1,
        s0.next_resource_id_of(network_id) == 0 ==> id1 == 0,
{
}

} // verus!
