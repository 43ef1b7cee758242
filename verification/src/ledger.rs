//! A minimal account ledger.
//!
//! The surrounding runtime owns the real account system; the core only
//! needs spendable and reserved funds per account, with all-or-nothing
//! transfer, reservation and minting. Modelling that ledger explicitly
//! keeps every balance movement an exact, verified state transition.

use std::collections::HashMap;
use vstd::prelude::*;

verus! {

broadcast use vstd::std_specs::hash::group_hash_axioms;

/// Spendable and reserved funds of one account.
#[derive(Clone, Copy, Debug, PartialEq, Eq, Structural)]
pub struct AccountData {
    pub free: u128,
    pub reserved: u128,
}

/// Why a balance operation was rejected. On any error the ledger is
/// unchanged.
#[derive(Clone, Copy, Debug, PartialEq, Eq, Structural)]
pub enum LedgerError {
    /// The paying account's spendable funds do not cover the amount.
    InsufficientFunds,
    /// The receiving account cannot hold the amount in its balance type.
    Overflow,
}

/// All account balances, keyed by account id. An absent account holds
/// nothing.
pub struct Ledger {
    pub accounts: HashMap<u64, AccountData>,
}

impl Ledger {
    /// Spendable funds of `a`.
    pub open spec fn spec_free(&self, a: u64) -> u128 {
        if self.accounts@.contains_key(a) {
            self.accounts@[a].free
        } else {
            0
        }
    }

    /// Reserved funds of `a`.
    pub open spec fn spec_reserved(&self, a: u64) -> u128 {
        if self.accounts@.contains_key(a) {
            self.accounts@[a].reserved
        } else {
            0
        }
    }

    /// Every account's total funds fit the balance type.
    pub open spec fn wf(&self) -> bool {
        forall|a: u64|
            #[trigger] self.accounts@.contains_key(a) ==> self.accounts@[a].free
                + self.accounts@[a].reserved <= u128::MAX
    }

    /// An empty ledger: every account holds nothing.
    pub fn new() -> (l: Ledger)
        ensures
            l.wf(),
            forall|a: u64| #[trigger] l.spec_free(a) == 0 && l.spec_reserved(a) == 0,
    {
        Ledger { accounts: HashMap::new() }
    }

    /// Genesis endowment: sets `a`'s spendable funds to `amount`, with
    /// nothing reserved.
    pub fn endow(&mut self, a: u64, amount: u128)
        requires
            old(self).wf(),
        ensures
            final(self).wf(),
            final(self).spec_free(a) == amount,
            final(self).spec_reserved(a) == 0,
            forall|b: u64|
                #![trigger final(self).spec_free(b)]
                #![trigger final(self).spec_reserved(b)]
                b != a ==> final(self).spec_free(b) == old(self).spec_free(b) && final(self).spec_reserved(b) == old(self).spec_reserved(b),
    {
        self.accounts.insert(a, AccountData { free: amount, reserved: 0 });
    }

    /// Spendable funds of `a`.
    pub fn free_balance(&self, a: u64) -> (r: u128)
        ensures
            r == self.spec_free(a),
    {
        match self.accounts.get(&a) {
            Some(d) => d.free,
            None => 0,
        }
    }

    /// Reserved funds of `a`.
    pub fn reserved_balance(&self, a: u64) -> (r: u128)
        ensures
            r == self.spec_reserved(a),
    {
        match self.accounts.get(&a) {
            Some(d) => d.reserved,
            None => 0,
        }
    }

    /// Creates `amount` new funds in `a`'s spendable balance. Rejected
    /// only when the account could not hold the result.
    pub fn mint(&mut self, a: u64, amount: u128) -> (r: Result<(), LedgerError>)
        requires
            old(self).wf(),
        ensures
            final(self).wf(),
            r is Ok <==> old(self).spec_free(a) + old(self).spec_reserved(a) + amount
                <= u128::MAX,
            r is Ok ==> final(self).spec_free(a) == old(self).spec_free(a) + amount,
            r is Err ==> *final(self) == *old(self) && r->Err_0 == LedgerError::Overflow,
            final(self).spec_reserved(a) == old(self).spec_reserved(a),
            forall|b: u64|
                #![trigger final(self).spec_free(b)]
                #![trigger final(self).spec_reserved(b)]
                b != a ==> final(self).spec_free(b) == old(self).spec_free(b) && final(self).spec_reserved(b) == old(self).spec_reserved(b),
    {
        let d = self.account(a);
        assert(d.free + d.reserved <= u128::MAX);
        let headroom = (u128::MAX - d.free) - d.reserved;
        if amount <= headroom {
            self.accounts.insert(a, AccountData { free: d.free + amount, ..d });
            Ok(())
        } else {
            Err(LedgerError::Overflow)
        }
    }

    /// Removes `amount` from `a`'s spendable balance. Rejected only when
    /// the spendable balance does not cover it.
    pub fn withdraw(&mut self, a: u64, amount: u128) -> (r: Result<(), LedgerError>)
        requires
            old(self).wf(),
        ensures
            final(self).wf(),
            r is Ok <==> amount <= old(self).spec_free(a),
            r is Ok ==> final(self).spec_free(a) == old(self).spec_free(a) - amount,
            r is Err ==> *final(self) == *old(self)
                && r->Err_0 == LedgerError::InsufficientFunds,
            final(self).spec_reserved(a) == old(self).spec_reserved(a),
            forall|b: u64|
                #![trigger final(self).spec_free(b)]
                #![trigger final(self).spec_reserved(b)]
                b != a ==> final(self).spec_free(b) == old(self).spec_free(b) && final(self).spec_reserved(b) == old(self).spec_reserved(b),
    {
        let d = self.account(a);
        if amount <= d.free {
            self.accounts.insert(a, AccountData { free: d.free - amount, ..d });
            Ok(())
        } else {
            Err(LedgerError::InsufficientFunds)
        }
    }

    /// Moves `amount` of spendable funds from `from` to `to`, or does
    /// nothing at all: it fails when `from` cannot pay, or when `to`
    /// could not hold the result.
    pub fn transfer(&mut self, from: u64, to: u64, amount: u128) -> (r: Result<
        (),
        LedgerError,
    >)
        requires
            old(self).wf(),
        ensures
            final(self).wf(),
            r is Ok <==> amount <= old(self).spec_free(from) && (from == to || old(self).spec_free(to) + old(self).spec_reserved(to) + amount <= u128::MAX),
            r is Ok && from != to ==> final(self).spec_free(from) == old(self).spec_free(from)
                - amount && final(self).spec_free(to) == old(self).spec_free(to) + amount,
            r is Ok && from == to ==> *final(self) == *old(self),
            r is Err ==> *final(self) == *old(self),
            r is Err ==> (r->Err_0 == LedgerError::InsufficientFunds <==> amount > old(self).spec_free(from)),
            forall|b: u64|
                #![trigger final(self).spec_free(b)]
                #![trigger final(self).spec_reserved(b)]
                b != from && b != to ==> final(self).spec_free(b) == old(self).spec_free(b)
                    && final(self).spec_reserved(b) == old(self).spec_reserved(b),
            forall|b: u64|
                (#[trigger] final(self).spec_reserved(b)) == old(self).spec_reserved(b),
    {
        let src = self.account(from);
        if amount > src.free {
            return Err(LedgerError::InsufficientFunds);
        }
        if from == to {
            return Ok(());
        }
        let dst = self.account(to);
        assert(dst.free + dst.reserved <= u128::MAX);
        let headroom = (u128::MAX - dst.free) - dst.reserved;
        if amount > headroom {
            return Err(LedgerError::Overflow);
        }
        self.accounts.insert(from, AccountData { free: src.free - amount, ..src });
        self.accounts.insert(to, AccountData { free: dst.free + amount, ..dst });
        Ok(())
    }

    /// Moves `amount` of `a`'s funds from spendable to reserved. Rejected
    /// only when the spendable balance does not cover it.
    pub fn reserve(&mut self, a: u64, amount: u128) -> (r: Result<(), LedgerError>)
        requires
            old(self).wf(),
        ensures
            final(self).wf(),
            r is Ok <==> amount <= old(self).spec_free(a),
            r is Ok ==> final(self).spec_free(a) == old(self).spec_free(a) - amount
                && final(self).spec_reserved(a) == old(self).spec_reserved(a) + amount,
            r is Err ==> *final(self) == *old(self)
                && r->Err_0 == LedgerError::InsufficientFunds,
            forall|b: u64|
                #![trigger final(self).spec_free(b)]
                #![trigger final(self).spec_reserved(b)]
                b != a ==> final(self).spec_free(b) == old(self).spec_free(b) && final(self).spec_reserved(b) == old(self).spec_reserved(b),
    {
        let d = self.account(a);
        if amount <= d.free {
            self.accounts.insert(
                a,
                AccountData { free: d.free - amount, reserved: d.reserved + amount },
            );
            Ok(())
        } else {
            Err(LedgerError::InsufficientFunds)
        }
    }

    /// Moves back to spendable as much of `amount` as is actually
    /// reserved for `a`; never fails.
    pub fn unreserve(&mut self, a: u64, amount: u128)
        requires
            old(self).wf(),
        ensures
            final(self).wf(),
            ({
                let moved = if amount <= old(self).spec_reserved(a) {
                    amount
                } else {
                    old(self).spec_reserved(a)
                };
                final(self).spec_free(a) == old(self).spec_free(a) + moved && final(self).spec_reserved(a) == old(self).spec_reserved(a) - moved
            }),
            forall|b: u64|
                #![trigger final(self).spec_free(b)]
                #![trigger final(self).spec_reserved(b)]
                b != a ==> final(self).spec_free(b) == old(self).spec_free(b) && final(self).spec_reserved(b) == old(self).spec_reserved(b),
    {
        let d = self.account(a);
        let moved = if amount <= d.reserved {
            amount
        } else {
            d.reserved
        };
        self.accounts.insert(
            a,
            AccountData { free: d.free + moved, reserved: d.reserved - moved },
        );
    }

    /// Both balances of `a`, with an absent account read as empty.
    fn account(&self, a: u64) -> (d: AccountData)
        requires
            self.wf(),
        ensures
            d.free == self.spec_free(a),
            d.reserved == self.spec_reserved(a),
            d.free + d.reserved <= u128::MAX,
    {
        match self.accounts.get(&a) {
            Some(d) => *d,
            None => AccountData { free: 0, reserved: 0 },
        }
    }
}

} // verus!
