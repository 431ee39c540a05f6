//! The membership ledger: per-account, per-network membership records.
//!
//! Pure storage: at most one record per `(network_id, account)` pair, with no
//! validation of its own — validation is the access controller's job.

use vstd::prelude::*;

use crate::table::Table;

verus! {

/// A record granting an account time-bounded access under a network.
#[derive(Clone, Copy, PartialEq, Eq, Debug)]
pub struct Membership {
    /// The network the access is granted under.
    pub network_id: u64,
    /// The account the access is granted to.
    pub who: u64,
    /// The selected tier, or `None` for the base price point.
    pub tier_idx: Option<u32>,
    /// The height at which the membership expires.
    pub expires_at: u64,
    /// The ledger escrow holding this membership's stake.
    pub escrow_id: u64,
}

/// Owns membership records, keyed by `(network_id, account)`.
pub struct MembershipLedger {
    records: Table<Table<Membership>>,
}

impl MembershipLedger {
    /// Membership records by network and account.
    pub closed spec fn membership_of(self, network_id: u64, account: u64) -> Option<Membership> {
        if self.records@.contains_key(network_id) && self.records@[network_id]@.contains_key(
            account,
        ) {
            Some(self.records@[network_id]@[account])
        } else {
            None
        }
    }

    pub closed spec fn wf(self) -> bool {
        &&& self.records.wf()
        &&& forall|n: u64| #[trigger] self.records@.contains_key(n) ==> self.records@[n].wf()
    }

    pub fn new() -> (m: MembershipLedger)
        ensures
            m.wf(),
            forall|n: u64, a: u64| m.membership_of(n, a) is None,
    {
        MembershipLedger { records: Table::new() }
    }

    /// Replaces any existing membership for `(network_id, account)`.
    pub fn upsert(&mut self, network_id: u64, account: u64, m: Membership)
        requires
            old(self).wf(),
        ensures
            final(self).wf(),
            final(self).membership_of(network_id, account) == Some(m),
            forall|n: u64, a: u64|
                !(n == network_id && a == account) ==> final(self).membership_of(n, a) == old(
                    self,
                ).membership_of(n, a),
    {
        let mut inner: Table<Membership> = match self.records.remove(network_id) {
            Some(t) => t,
            None => Table::new(),
        };
        proof {
            if old(self).records@.contains_key(network_id) {
                assert(old(self).records@[network_id].wf());
            }
        }
        inner.upsert(account, m);
        self.records.upsert(network_id, inner);
        proof {
            assert forall|n: u64| #[trigger] self.records@.contains_key(n) implies self
                .records@[n].wf() by {
                if n != network_id {
                    assert(old(self).records@.contains_key(n));
                    assert(self.records@[n] == old(self).records@[n]);
                }
            }
            assert forall|n: u64, a: u64|
                !(n == network_id && a == account) implies final(self).membership_of(n, a) == old(
                self,
            ).membership_of(n, a) by {
                if n == network_id {
                    if old(self).records@.contains_key(network_id) {
                        assert(old(self).records@[network_id].wf());
                    }
                }
            }
        }
    }

    /// The membership for `(network_id, account)`, if one exists.
    pub fn get(&self, network_id: u64, account: u64) -> (r: Option<Membership>)
        requires
            self.wf(),
        ensures
            r == self.membership_of(network_id, account),
    {
        match self.records.get(network_id) {
            Some(t) => {
                proof {
                    assert(self.records@[network_id].wf());
                }
                match t.get(account) {
                    Some(m) => Some(*m),
                    None => None,
                }
            },
            None => None,
        }
    }

    /// Deletes the record for `(network_id, account)` and returns it, if one
    /// existed; absence is signalled to the caller, not treated as an error
    /// here.
    pub fn remove(&mut self, network_id: u64, account: u64) -> (r: Option<Membership>)
        requires
            old(self).wf(),
        ensures
            final(self).wf(),
            r == old(self).membership_of(network_id, account),
            final(self).membership_of(network_id, account) is None,
            forall|n: u64, a: u64|
                !(n == network_id && a == account) ==> final(self).membership_of(n, a) == old(
                    self,
                ).membership_of(n, a),
    {
        let mut inner: Table<Membership> = match self.records.remove(network_id) {
            Some(t) => t,
            None => {
                proof {
                    assert(*final(self) == *old(self));
                }
                return None;
            },
        };
        proof {
            assert(old(self).records@.contains_key(network_id));
            assert(old(self).records@[network_id].wf());
        }
        let r = inner.remove(account);
        self.records.upsert(network_id, inner);
        proof {
            assert forall|n: u64| #[trigger] self.records@.contains_key(n) implies self
                .records@[n].wf() by {
                if n != network_id {
                    assert(old(self).records@.contains_key(n));
                    assert(self.records@[n] == old(self).records@[n]);
                }
            }
            assert forall|n: u64, a: u64|
                !(n == network_id && a == account) implies final(self).membership_of(n, a) == old(
                self,
            ).membership_of(n, a) by {
                if n == network_id {
                    assert(old(self).records@.contains_key(network_id));
                }
            }
        }
        r
    }
}

} // verus!
