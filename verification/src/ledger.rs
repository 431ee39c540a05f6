//! The escrow/ledger service: per-account spendable balances, escrow locks,
//! and direct transfers.
//!
//! Value is conserved by construction: every operation states exactly how
//! each balance and each escrow entry changes, and an operation that fails
//! changes nothing at all.

use vstd::prelude::*;

use crate::table::Table;

verus! {

/// Why a ledger operation was refused.  A refused operation has no effect.
#[derive(Clone, Copy, PartialEq, Eq, Debug)]
pub enum Error {
    /// The paying account's spendable balance does not cover the amount.
    InsufficientBalance,
    /// A balance would exceed the largest representable value.
    BalanceOverflow,
    /// No escrow is held under the given handle.
    EscrowNotFound,
    /// The escrow-handle space is exhausted.
    EscrowIdOverflow,
}

/// Value locked away from an account's spendable balance.
#[derive(Clone, Copy)]
pub struct Escrow {
    /// The account the value was locked from, and is released back to.
    pub account: u64,
    /// The locked amount.
    pub amount: u128,
}

/// Holds every account's spendable balance and every outstanding escrow.
pub struct Ledger {
    balances: Table<u128>,
    escrows: Table<Escrow>,
    next_escrow_id: u64,
}

impl Ledger {
    /// Balances by account; an absent account has balance 0.
    pub closed spec fn balance_map(self) -> Map<u64, u128> {
        self.balances@
    }

    /// Outstanding escrows by handle.
    pub closed spec fn escrow_map(self) -> Map<u64, Escrow> {
        self.escrows@
    }

    /// The handle the next successful lock will be given.
    pub closed spec fn next_escrow(self) -> u64 {
        self.next_escrow_id
    }

    pub open spec fn balance_of(self, account: u64) -> u128 {
        if self.balance_map().contains_key(account) {
            self.balance_map()[account]
        } else {
            0
        }
    }

    pub open spec fn escrow_of(self, id: u64) -> Option<Escrow> {
        if self.escrow_map().contains_key(id) {
            Some(self.escrow_map()[id])
        } else {
            None
        }
    }

    /// The amount a re-lock for `account` may count as already held: the
    /// amount under `prior`, provided that escrow exists and was locked from
    /// the same account.
    pub open spec fn prior_amount(self, account: u64, prior: Option<u64>) -> u128 {
        match prior {
            Some(id) => match self.escrow_of(id) {
                Some(e) => if e.account == account {
                    e.amount
                } else {
                    0
                },
                None => 0,
            },
            None => 0,
        }
    }

    /// Whether a re-lock for `account` consumes the escrow under `prior`.
    pub open spec fn prior_consumed(self, account: u64, prior: Option<u64>) -> bool {
        match prior {
            Some(id) => match self.escrow_of(id) {
                Some(e) => e.account == account,
                None => false,
            },
            None => false,
        }
    }

    /// Escrow handles are never reused: all outstanding handles precede the
    /// next one, so a fresh lock can never overwrite an outstanding escrow.
    pub closed spec fn wf(self) -> bool {
        &&& self.balances.wf()
        &&& self.escrows.wf()
        &&& forall|id: u64|
            self.escrow_map().contains_key(id) ==> id < self.next_escrow_id
    }

    /// Outstanding escrow handles always precede the next one, so a handle
    /// about to be issued is never outstanding.
    pub proof fn lemma_outstanding_below_next(self, id: u64)
        requires
            self.wf(),
            self.escrow_map().contains_key(id),
        ensures
            id < self.next_escrow(),
    {
    }

    pub fn new() -> (l: Ledger)
        ensures
            l.wf(),
            l.balance_map() == Map::<u64, u128>::empty(),
            l.escrow_map() == Map::<u64, Escrow>::empty(),
            l.next_escrow() == 0,
    {
        Ledger { balances: Table::new(), escrows: Table::new(), next_escrow_id: 0 }
    }

    pub fn balance(&self, account: u64) -> (r: u128)
        requires
            self.wf(),
        ensures
            r == self.balance_of(account),
    {
        match self.balances.get(account) {
            Some(b) => *b,
            None => 0,
        }
    }

    pub fn escrow(&self, id: u64) -> (r: Option<Escrow>)
        requires
            self.wf(),
        ensures
            r == self.escrow_of(id),
    {
        match self.escrows.get(id) {
            Some(e) => Some(*e),
            None => None,
        }
    }

    /// Adds `amount` to `account`'s spendable balance.
    pub fn credit(&mut self, account: u64, amount: u128) -> (r: Result<(), Error>)
        requires
            old(self).wf(),
        ensures
            final(self).wf(),
            match r {
                Ok(()) => {
                    &&& old(self).balance_of(account) + amount <= u128::MAX
                    &&& final(self).balance_of(account) == old(self).balance_of(account) + amount
                    &&& forall|a: u64|
                        a != account ==> final(self).balance_of(a) == old(self).balance_of(a)
                    &&& final(self).escrow_map() == old(self).escrow_map()
                    &&& final(self).next_escrow() == old(self).next_escrow()
                },
                Err(e) => {
                    &&& e == Error::BalanceOverflow
                    &&& old(self).balance_of(account) + amount > u128::MAX
                    &&& *final(self) == *old(self)
                },
            },
    {
        let bal = self.balance(account);
        match bal.checked_add(amount) {
            Some(new_bal) => {
                self.balances.upsert(account, new_bal);
                proof {
                    assert(self.escrow_map() == old(self).escrow_map());
                }
                Ok(())
            },
            None => Err(Error::BalanceOverflow),
        }
    }

    /// Locks `amount` from `account`'s balance under a fresh escrow handle,
    /// releasing the escrow under `prior` in the same atomic step when it is
    /// outstanding and was locked from the same account.
    ///
    /// This is the composition "release the old escrow, then lock anew"; it
    /// either fully succeeds or changes nothing.
    pub fn relock(&mut self, account: u64, prior: Option<u64>, amount: u128) -> (r: Result<
        u64,
        Error,
    >)
        requires
            old(self).wf(),
        ensures
            final(self).wf(),
            match r {
                Ok(id) => {
                    &&& old(self).balance_of(account) + old(self).prior_amount(account, prior)
                        >= amount
                    &&& old(self).balance_of(account) + old(self).prior_amount(account, prior)
                        - amount <= u128::MAX
                    &&& id == old(self).next_escrow()
                    &&& !old(self).escrow_map().contains_key(id)
                    &&& final(self).next_escrow() == id + 1
                    &&& final(self).balance_of(account) == old(self).balance_of(account)
                        + old(self).prior_amount(account, prior) - amount
                    &&& forall|a: u64|
                        a != account ==> final(self).balance_of(a) == old(self).balance_of(a)
                    &&& final(self).escrow_map() == if old(self).prior_consumed(account, prior) {
                        old(self).escrow_map().remove(prior->Some_0).insert(
                            id,
                            Escrow { account, amount },
                        )
                    } else {
                        old(self).escrow_map().insert(id, Escrow { account, amount })
                    }
                },
                Err(e) => {
                    &&& *final(self) == *old(self)
                    &&& match e {
                        Error::InsufficientBalance => old(self).balance_of(account)
                            + old(self).prior_amount(account, prior) < amount,
                        Error::EscrowIdOverflow => {
                            &&& old(self).balance_of(account) + old(self).prior_amount(
                                account,
                                prior,
                            ) >= amount
                            &&& old(self).next_escrow() == u64::MAX
                        },
                        Error::BalanceOverflow => {
                            &&& old(self).balance_of(account) + old(self).prior_amount(
                                account,
                                prior,
                            ) - amount > u128::MAX
                            &&& old(self).next_escrow() < u64::MAX
                        },
                        _ => false,
                    }
                },
            },
    {
        let bal = self.balance(account);
        let (old_amt, consumed): (u128, bool) = match prior {
            Some(pid) => match self.escrows.get(pid) {
                Some(e) => if e.account == account {
                    (e.amount, true)
                } else {
                    (0, false)
                },
                None => (0, false),
            },
            None => (0, false),
        };
        let new_bal: u128;
        if amount >= old_amt {
            let need = amount - old_amt;
            if bal < need {
                return Err(Error::InsufficientBalance);
            }
            if self.next_escrow_id == u64::MAX {
                return Err(Error::EscrowIdOverflow);
            }
            new_bal = bal - need;
        } else {
            let back = old_amt - amount;
            if self.next_escrow_id == u64::MAX {
                return Err(Error::EscrowIdOverflow);
            }
            match bal.checked_add(back) {
                Some(nb) => {
                    new_bal = nb;
                },
                None => {
                    return Err(Error::BalanceOverflow);
                },
            }
        }
        if consumed {
            let pid = match prior {
                Some(pid) => pid,
                None => 0,  // unreachable: `consumed` implies a prior handle
            };
            let _ = self.escrows.remove(pid);
        }
        let id = self.next_escrow_id;
        self.next_escrow_id = id + 1;
        self.balances.upsert(account, new_bal);
        self.escrows.upsert(id, Escrow { account, amount });
        Ok(id)
    }

    /// Locks `amount` from `account`'s balance under a fresh escrow handle.
    pub fn lock(&mut self, account: u64, amount: u128) -> (r: Result<u64, Error>)
        requires
            old(self).wf(),
        ensures
            final(self).wf(),
            match r {
                Ok(id) => {
                    &&& old(self).balance_of(account) >= amount
                    &&& id == old(self).next_escrow()
                    &&& !old(self).escrow_map().contains_key(id)
                    &&& final(self).next_escrow() == id + 1
                    &&& final(self).balance_of(account) == old(self).balance_of(account) - amount
                    &&& forall|a: u64|
                        a != account ==> final(self).balance_of(a) == old(self).balance_of(a)
                    &&& final(self).escrow_map() == old(self).escrow_map().insert(
                        id,
                        Escrow { account, amount },
                    )
                },
                Err(e) => {
                    &&& *final(self) == *old(self)
                    &&& match e {
                        Error::InsufficientBalance => old(self).balance_of(account) < amount,
                        Error::EscrowIdOverflow => {
                            &&& old(self).balance_of(account) >= amount
                            &&& old(self).next_escrow() == u64::MAX
                        },
                        _ => false,
                    }
                },
            },
    {
        self.relock(account, None, amount)
    }

    /// Releases the escrow under `id` back to the account it was locked from.
    pub fn release(&mut self, id: u64) -> (r: Result<(), Error>)
        requires
            old(self).wf(),
        ensures
            final(self).wf(),
            match r {
                Ok(()) => {
                    &&& old(self).escrow_of(id) matches Some(e)
                    &&& final(self).escrow_map() == old(self).escrow_map().remove(id)
                    &&& final(self).balance_of(e.account) == old(self).balance_of(e.account)
                        + e.amount
                    &&& forall|a: u64|
                        a != e.account ==> final(self).balance_of(a) == old(self).balance_of(a)
                    &&& final(self).next_escrow() == old(self).next_escrow()
                },
                Err(e) => {
                    &&& *final(self) == *old(self)
                    &&& match e {
                        Error::EscrowNotFound => old(self).escrow_of(id) is None,
                        Error::BalanceOverflow => {
                            &&& old(self).escrow_of(id) matches Some(es)
                            &&& old(self).balance_of(es.account) + es.amount > u128::MAX
                        },
                        _ => false,
                    }
                },
            },
    {
        let es = match self.escrows.get(id) {
            Some(e) => *e,
            None => {
                return Err(Error::EscrowNotFound);
            },
        };
        let bal = self.balance(es.account);
        match bal.checked_add(es.amount) {
            Some(new_bal) => {
                let _ = self.escrows.remove(id);
                self.balances.upsert(es.account, new_bal);
                Ok(())
            },
            None => Err(Error::BalanceOverflow),
        }
    }

    /// Escrowed value is never lost: locking an amount and then releasing
    /// the escrow restores both the account's balance and the escrow map to
    /// what they were.  The hypotheses are exactly what `lock` and `release`
    /// ensure of the two steps.
    pub proof fn lemma_escrow_round_trip(
        l0: Ledger,
        l1: Ledger,
        l2: Ledger,
        account: u64,
        amount: u128,
        id: u64,
    )
        requires
            l0.balance_of(account) >= amount,
            !l0.escrow_map().contains_key(id),
            l1.balance_of(account) == l0.balance_of(account) - amount,
            l1.escrow_map() == l0.escrow_map().insert(id, Escrow { account, amount }),
            l2.escrow_map() == l1.escrow_map().remove(id),
            l1.escrow_of(id) matches Some(e) && l2.balance_of(e.account) == l1.balance_of(
                e.account,
            ) + e.amount,
        ensures
            l2.balance_of(account) == l0.balance_of(account),
            l2.escrow_map() == l0.escrow_map(),
    {
        assert(l1.escrow_map().remove(id) =~= l0.escrow_map());
    }

    /// Moves `amount` of spendable balance from `from` to `to`.
    pub fn transfer(&mut self, from: u64, to: u64, amount: u128) -> (r: Result<(), Error>)
        requires
            old(self).wf(),
        ensures
            final(self).wf(),
            match r {
                Ok(()) => {
                    &&& old(self).balance_of(from) >= amount
                    &&& if from == to {
                        *final(self) == *old(self)
                    } else {
                        &&& old(self).balance_of(to) + amount <= u128::MAX
                        &&& final(self).balance_of(from) == old(self).balance_of(from) - amount
                        &&& final(self).balance_of(to) == old(self).balance_of(to) + amount
                        &&& forall|a: u64|
                            a != from && a != to ==> final(self).balance_of(a) == old(
                                self,
                            ).balance_of(a)
                        &&& final(self).escrow_map() == old(self).escrow_map()
                        &&& final(self).next_escrow() == old(self).next_escrow()
                    }
                },
                Err(e) => {
                    &&& *final(self) == *old(self)
                    &&& match e {
                        Error::InsufficientBalance => old(self).balance_of(from) < amount,
                        Error::BalanceOverflow => {
                            &&& old(self).balance_of(from) >= amount
                            &&& from != to
                            &&& old(self).balance_of(to) + amount > u128::MAX
                        },
                        _ => false,
                    }
                },
            },
    {
        let from_bal = self.balance(from);
        if from_bal < amount {
            return Err(Error::InsufficientBalance);
        }
        if from == to {
            return Ok(());
        }
        let to_bal = self.balance(to);
        match to_bal.checked_add(amount) {
            Some(new_to) => {
                self.balances.upsert(from, from_bal - amount);
                self.balances.upsert(to, new_to);
                proof {
                    assert(self.escrow_map() == old(self).escrow_map());
                }
                Ok(())
            },
            None => Err(Error::BalanceOverflow),
        }
    }
}

} // verus!
