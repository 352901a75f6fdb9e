//! Pending-order accounting with atomic read-modify-write.
//!
//! Adding to an account's pending total reads, adds and writes back under
//! one lock acquisition, so concurrent additions can never overwrite each
//! other and lose updates.

use vstd::prelude::*;
use std::collections::HashMap;

verus! {

broadcast use vstd::std_specs::hash::group_hash_axioms;

/// Identifier of an order.
#[derive(Clone, Copy, Debug, PartialEq, Eq, Structural)]
pub struct OrderId(pub u64);

/// An order against an account.
#[derive(Clone, Copy, Debug, PartialEq, Eq, Structural)]
pub struct Order {
    /// The order's identifier.
    pub id: OrderId,
    /// The amount the order pends.
    pub amount: u64,
}

/// Per-account pending totals.
pub struct ClientAPI {
    /// Pending total per account; an unknown account pends zero.
    pub pending_orders: HashMap<u64, u64>,
    /// Units ever detected as lost; atomic updates keep this at zero.
    pub lost_updates: u64,
}

impl ClientAPI {
    /// The pending total of an account (zero when unknown).
    pub open spec fn spec_pending(self, account: u64) -> u64 {
        if self.pending_orders@.dom().contains(account) {
            self.pending_orders@[account]
        } else {
            0
        }
    }

    /// Build an API with nothing pending.
    pub fn new() -> (c: Self)
        ensures
            forall|a: u64| c.spec_pending(a) == 0,
            c.lost_updates == 0,
    {
        let c = ClientAPI { pending_orders: HashMap::new(), lost_updates: 0 };
        proof {
            assert(c.pending_orders@.dom() =~= Set::empty());
        }
        c
    }

    /// Add to an account's pending total in one atomic read-modify-write:
    /// no concurrent addition can be lost between the read and the write.
    pub fn add_pending_order(&mut self, account: u64, amount: u64)
        requires
            old(self).spec_pending(account) + amount <= u64::MAX,
        ensures
            final(self).spec_pending(account) == old(self).spec_pending(account) + amount,
            forall|a: u64|
                a != account ==> #[trigger] final(self).spec_pending(a) == old(self).spec_pending(
                    a,
                ),
            final(self).lost_updates == old(self).lost_updates,
    {
        let current = match self.pending_orders.get(&account) {
            Some(v) => *v,
            None => 0,
        };
        let new_value = current + amount;
        self.pending_orders.insert(account, new_value);
    }

    /// The account's pending total.
    pub fn get_pending(&self, account: u64) -> (n: u64)
        ensures
            n == self.spec_pending(account),
    {
        match self.pending_orders.get(&account) {
            Some(v) => *v,
            None => 0,
        }
    }

    /// Compare the actual total against what the caller expected; a
    /// shortfall is counted as lost units. With atomic additions the
    /// totals match and nothing is ever counted.
    pub fn check_lost_updates(&mut self, account: u64, expected: u64) -> (lost: bool)
        requires
            old(self).lost_updates + expected <= u64::MAX,
        ensures
            final(self).pending_orders@ == old(self).pending_orders@,
            lost == (old(self).spec_pending(account) < expected),
            lost ==> final(self).lost_updates == old(self).lost_updates + (expected - old(self).spec_pending(account)),
            !lost ==> final(self).lost_updates == old(self).lost_updates,
    {
        let actual = self.get_pending(account);
        if actual < expected {
            self.lost_updates = self.lost_updates + (expected - actual);
            true
        } else {
            false
        }
    }

    /// Units ever detected as lost.
    pub fn get_lost_updates(&self) -> (n: u64)
        ensures
            n == self.lost_updates,
    {
        self.lost_updates
    }
}

} // verus!
