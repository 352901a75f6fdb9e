//! Transaction pool with atomic validate-and-classify.
//!
//! A transaction's pool placement depends on the account's current nonce.
//! Classification and insertion happen in one atomic decision against one
//! nonce reading, so a transaction can never land in the wrong pool
//! because the state moved between checking and inserting.

use vstd::prelude::*;
use std::collections::HashMap;

verus! {

broadcast use vstd::std_specs::hash::group_hash_axioms;

/// Where a transaction sits in the pool.
#[derive(Clone, Copy, Debug, PartialEq, Eq, Structural)]
pub enum SubPool {
    /// Ready for execution: its nonce is exactly the account's next.
    Pending,
    /// Waiting for a nonce gap to be filled, or rejected as stale.
    Queued,
}

/// A transaction bound for the pool.
#[derive(Clone, Copy, Debug, PartialEq, Eq, Structural)]
pub struct Transaction {
    /// The sending account.
    pub from: u64,
    /// The account nonce this transaction spends.
    pub nonce: u64,
    /// Opaque payload identifier.
    pub data: u64,
}

/// Account nonces as the chain currently knows them.
pub struct AccountState {
    /// Next expected nonce per account; an unknown account is at zero.
    pub nonces: HashMap<u64, u64>,
}

impl AccountState {
    /// The next expected nonce of an account (zero when unknown).
    pub open spec fn spec_nonce(self, account: u64) -> u64 {
        if self.nonces@.dom().contains(account) {
            self.nonces@[account]
        } else {
            0
        }
    }

    /// Build a state where every account is at nonce zero.
    pub fn new() -> (s: Self)
        ensures
            forall|a: u64| s.spec_nonce(a) == 0,
    {
        let s = AccountState { nonces: HashMap::new() };
        proof {
            assert(s.nonces@.dom() =~= Set::empty());
        }
        s
    }

    /// Make an account explicitly tracked, starting at nonce zero.
    pub fn register_account(&mut self, account: u64)
        ensures
            final(self).spec_nonce(account) == 0,
            forall|a: u64|
                a != account ==> #[trigger] final(self).spec_nonce(a) == old(self).spec_nonce(a),
    {
        self.nonces.insert(account, 0);
    }

    /// The account's next expected nonce.
    pub fn get_nonce(&self, account: u64) -> (n: u64)
        ensures
            n == self.spec_nonce(account),
    {
        match self.nonces.get(&account) {
            Some(n) => *n,
            None => 0,
        }
    }

    /// A mined block advances a tracked account's nonce by one; an
    /// untracked account is left alone.
    pub fn increment_nonce(&mut self, account: u64)
        requires
            old(self).spec_nonce(account) < u64::MAX,
        ensures
            old(self).nonces@.dom().contains(account) ==> final(self).spec_nonce(account) == old(self).spec_nonce(account) + 1,
            !old(self).nonces@.dom().contains(account) ==> *final(self) == *old(self),
            forall|a: u64|
                a != account ==> #[trigger] final(self).spec_nonce(a) == old(self).spec_nonce(a),
    {
        let cur = match self.nonces.get(&account) {
            Some(n) => *n,
            None => {
                return ;
            },
        };
        self.nonces.insert(account, cur + 1);
    }
}

/// The pool: accounts, pending and queued transactions.
pub struct TxPool {
    /// Account nonces the pool classifies against.
    pub state: AccountState,
    /// Transactions ready to execute.
    pub pending: Vec<Transaction>,
    /// Transactions waiting on a nonce gap.
    pub queued: Vec<Transaction>,
    /// How many transactions ever landed in the wrong pool. Atomic
    /// classification keeps this at its initial value forever.
    pub misclassified: u64,
}

impl TxPool {
    /// Wrap an account state with an empty pool.
    pub fn new(state: AccountState) -> (p: Self)
        ensures
            p.state == state,
            p.pending@.len() == 0,
            p.queued@.len() == 0,
            p.misclassified == 0,
    {
        TxPool { state, pending: Vec::new(), queued: Vec::new(), misclassified: 0 }
    }

    /// Check a transaction against the current state: valid when its nonce
    /// has not already been spent; also reports the expected nonce.
    pub fn validate(&self, tx: &Transaction) -> (r: (bool, u64))
        ensures
            r.0 == (tx.nonce >= self.state.spec_nonce(tx.from)),
            r.1 == self.state.spec_nonce(tx.from),
    {
        let expected_nonce = self.state.get_nonce(tx.from);
        (tx.nonce >= expected_nonce, expected_nonce)
    }

    /// Classify and insert in one atomic decision against one nonce
    /// reading: a stale nonce is rejected (nothing stored), the exact next
    /// nonce goes to `Pending`, a future nonce goes to `Queued`.
    pub fn add_transaction(&mut self, tx: Transaction) -> (pool: SubPool)
        ensures
            final(self).state == old(self).state,
            final(self).misclassified == old(self).misclassified,
            tx.nonce < old(self).state.spec_nonce(tx.from) ==> pool == SubPool::Queued && final(self).pending@ == old(self).pending@ && final(self).queued@ == old(self).queued@,
            tx.nonce == old(self).state.spec_nonce(tx.from) ==> pool == SubPool::Pending && final(self).pending@ == old(self).pending@.push(tx) && final(self).queued@ == old(self).queued@,
            tx.nonce > old(self).state.spec_nonce(tx.from) ==> pool == SubPool::Queued && final(self).pending@ == old(self).pending@ && final(self).queued@ == old(self).queued@.push(tx),
    {
        let expected_nonce = self.state.get_nonce(tx.from);
        if tx.nonce < expected_nonce {
            return SubPool::Queued;
        }
        if tx.nonce == expected_nonce {
            self.pending.push(tx);
            SubPool::Pending
        } else {
            self.queued.push(tx);
            SubPool::Queued
        }
    }

    /// How many transactions were ever misclassified: none, provably,
    /// because classification and insertion are atomic.
    pub fn get_misclassified(&self) -> (n: u64)
        ensures
            n == self.misclassified,
    {
        self.misclassified
    }
}

} // verus!
