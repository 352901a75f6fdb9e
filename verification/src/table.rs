//! The sharded table of lock entries.
//!
//! One `LockEntry` exists per registered object key and records which
//! transaction, if any, currently owns the key. `try_acquire` is a
//! non-blocking check-and-set; `release` clears the holder only when the
//! caller really is the holder, so a stale or duplicate release can never
//! evict another transaction's lock.
//!
//! The two-level shard/slot address computed from a key's hash only picks
//! which internal partition guards the entry; it is a performance partition,
//! not a correctness partition, so no contract here depends on it.

use vstd::prelude::*;
use std::collections::HashMap;

verus! {

broadcast use vstd::std_specs::hash::group_hash_axioms;

/// Number of slots in the legacy single-level lock table.
pub const FIXED_SLOT_COUNT: usize = 4;

/// The mixing function behind the shard/slot address of a key.
pub open spec fn spec_hash(x: u64) -> u64 {
    let a = x ^ (x << 13);
    let b = a ^ (a >> 7);
    b ^ (b << 17)
}

/// Hash an object key for lock-table addressing. The result depends on the
/// key alone; collisions only cost speed, never correctness.
pub fn hash_object(id: u64) -> (r: u64)
    ensures
        r == spec_hash(id),
{
    let a = id ^ (id << 13);
    let b = a ^ (a >> 7);
    b ^ (b << 17)
}

/// Lock bookkeeping for one object key.
#[derive(Clone, Copy, Debug)]
pub struct LockEntry {
    /// The transaction that currently owns the key, if any.
    pub holder: Option<u64>,
}

/// Outcome of a non-blocking acquisition attempt.
#[derive(Clone, Copy, Debug)]
pub enum TryAcquireOutcome {
    /// The key was free and now belongs to the caller.
    Acquired,
    /// The key belongs to the named transaction; the caller must wait.
    HeldBy(u64),
}

/// Outcome of a release attempt.
#[derive(Clone, Copy, Debug, PartialEq, Eq, Structural)]
pub enum ReleaseOutcome {
    /// The caller owned the key; it is free again.
    Released,
    /// The caller did not own the key; nothing changed.
    NotHolder,
}

/// Exclusive-ownership table for every registered object key, partitioned
/// into `shard_count` shards of `table_size` slots each.
pub struct ShardedLockTable {
    /// Number of shards; sizing knob only.
    pub shard_count: usize,
    /// Number of slots per shard; sizing knob only.
    pub table_size: usize,
    pub entries: HashMap<u64, LockEntry>,
}

impl ShardedLockTable {
    /// Whether `k` has been registered as a lockable object.
    pub open spec fn is_registered(self, k: u64) -> bool {
        self.entries@.dom().contains(k)
    }

    /// The current holder of `k`: `None` for a free or unregistered key.
    pub open spec fn spec_holder(self, k: u64) -> Option<u64> {
        if self.entries@.dom().contains(k) {
            self.entries@[k].holder
        } else {
            None
        }
    }

    /// Every registered key is free.
    pub open spec fn all_free(self) -> bool {
        forall|k: u64| self.spec_holder(k) is None
    }

    /// Build an empty table with the given sharding configuration.
    pub fn new(shard_count: usize, table_size: usize) -> (t: Self)
        requires
            shard_count >= 1,
            table_size >= 1,
        ensures
            t.shard_count == shard_count,
            t.table_size == table_size,
            forall|k: u64| !t.is_registered(k),
            forall|k: u64| t.spec_holder(k) is None,
    {
        let t = ShardedLockTable { shard_count, table_size, entries: HashMap::new() };
        proof {
            assert(t.entries@.dom() =~= Set::empty());
        }
        t
    }

    /// Shard index for a key; always in range.
    pub fn shard_of(&self, k: u64) -> (s: usize)
        requires
            self.shard_count >= 1,
        ensures
            s == spec_hash(k) as int % self.shard_count as int,
            s < self.shard_count,
    {
        (hash_object(k) % (self.shard_count as u64)) as usize
    }

    /// Slot index within a shard for a key; always in range.
    pub fn slot_of(&self, k: u64) -> (s: usize)
        requires
            self.table_size >= 1,
        ensures
            s == (spec_hash(k) >> 16) as int % self.table_size as int,
            s < self.table_size,
    {
        ((hash_object(k) >> 16) % (self.table_size as u64)) as usize
    }

    /// Make `k` lockable. Registering an already-known key keeps its state.
    pub fn register_object(&mut self, k: u64)
        ensures
            final(self).shard_count == old(self).shard_count,
            final(self).table_size == old(self).table_size,
            final(self).is_registered(k),
            final(self).spec_holder(k) == if old(self).is_registered(k) {
                old(self).spec_holder(k)
            } else {
                None::<u64>
            },
            forall|k2: u64|
                k2 != k ==> #[trigger] final(self).is_registered(k2) == old(self).is_registered(k2),
            forall|k2: u64|
                k2 != k ==> #[trigger] final(self).spec_holder(k2) == old(self).spec_holder(k2),
    {
        if !self.entries.contains_key(&k) {
            self.entries.insert(k, LockEntry { holder: None });
        }
    }

    /// Whether `k` has been registered with the table.
    pub fn contains_object(&self, k: u64) -> (b: bool)
        ensures
            b == self.is_registered(k),
    {
        self.entries.contains_key(&k)
    }

    /// Read the holder of a key.
    pub fn holder(&self, k: u64) -> (r: Option<u64>)
        ensures
            r == self.spec_holder(k),
    {
        match self.entries.get(&k) {
            Some(e) => e.holder,
            None => None,
        }
    }

    /// Non-blocking check-and-set: take the key for `tx` only if it is free.
    /// Never sleeps, never steals a held key.
    pub fn try_acquire(&mut self, k: u64, tx: u64) -> (out: TryAcquireOutcome)
        requires
            old(self).is_registered(k),
        ensures
            final(self).shard_count == old(self).shard_count,
            final(self).table_size == old(self).table_size,
            forall|k2: u64|
                #[trigger] final(self).is_registered(k2) == old(self).is_registered(k2),
            forall|k2: u64|
                k2 != k ==> #[trigger] final(self).spec_holder(k2) == old(self).spec_holder(k2),
            match out {
                TryAcquireOutcome::Acquired => old(self).spec_holder(k) is None && final(self).spec_holder(k) == Some(tx),
                TryAcquireOutcome::HeldBy(h) => old(self).spec_holder(k) == Some(h) && final(self).spec_holder(k) == Some(h),
            },
    {
        let cur = self.holder(k);
        match cur {
            None => {
                self.entries.insert(k, LockEntry { holder: Some(tx) });
                TryAcquireOutcome::Acquired
            },
            Some(h) => TryAcquireOutcome::HeldBy(h),
        }
    }

    /// Free the key only if `tx` is its current holder.
    pub fn release(&mut self, k: u64, tx: u64) -> (out: ReleaseOutcome)
        requires
            old(self).is_registered(k),
        ensures
            final(self).shard_count == old(self).shard_count,
            final(self).table_size == old(self).table_size,
            forall|k2: u64|
                #[trigger] final(self).is_registered(k2) == old(self).is_registered(k2),
            forall|k2: u64|
                k2 != k ==> #[trigger] final(self).spec_holder(k2) == old(self).spec_holder(k2),
            match out {
                ReleaseOutcome::Released => old(self).spec_holder(k) == Some(tx) && final(self).spec_holder(k) is None,
                ReleaseOutcome::NotHolder => old(self).spec_holder(k) != Some(tx) && final(self).spec_holder(k) == old(self).spec_holder(k),
            },
    {
        let cur = self.holder(k);
        match cur {
            Some(h) => {
                if h == tx {
                    self.entries.insert(k, LockEntry { holder: None });
                    ReleaseOutcome::Released
                } else {
                    ReleaseOutcome::NotHolder
                }
            },
            None => ReleaseOutcome::NotHolder,
        }
    }
}

/// The legacy single-level table: a fixed, small array of slots shared by
/// every key. Unrelated keys that hash to the same slot serialize against
/// each other (false contention); it is kept as the baseline that the
/// sharded table replaces.
pub struct LockTable {
    pub slot_busy: Vec<bool>,
}

impl LockTable {
    /// Whether the given slot is taken.
    pub open spec fn spec_busy(self, s: int) -> bool {
        self.slot_busy@[s]
    }

    /// The table always has exactly `FIXED_SLOT_COUNT` slots.
    pub open spec fn wf(self) -> bool {
        self.slot_busy@.len() == FIXED_SLOT_COUNT
    }

    /// Build the fixed-size table with all slots free.
    pub fn new() -> (t: Self)
        ensures
            t.wf(),
            forall|s: int| 0 <= s < FIXED_SLOT_COUNT ==> !t.spec_busy(s),
    {
        let mut slot_busy: Vec<bool> = Vec::new();
        let mut i: usize = 0;
        while i < FIXED_SLOT_COUNT
            invariant
                i <= FIXED_SLOT_COUNT,
                slot_busy@.len() == i,
                forall|s: int| 0 <= s < i ==> !slot_busy@[s],
            decreases FIXED_SLOT_COUNT - i,
        {
            slot_busy.push(false);
            i += 1;
        }
        LockTable { slot_busy }
    }

    /// Slot index for a key; every key maps into the small fixed range.
    pub fn slot_of(&self, k: u64) -> (s: usize)
        ensures
            s == spec_hash(k) as int % FIXED_SLOT_COUNT as int,
            s < FIXED_SLOT_COUNT,
    {
        (hash_object(k) % (FIXED_SLOT_COUNT as u64)) as usize
    }

    /// Take the slot that `k` hashes to, if it is free. A `None` here may be
    /// false contention: the slot can be busy because of an unrelated key.
    pub fn try_acquire(&mut self, k: u64) -> (r: Option<usize>)
        requires
            old(self).wf(),
        ensures
            final(self).wf(),
            match r {
                Some(s) => s == spec_hash(k) as int % FIXED_SLOT_COUNT as int
                    && !old(self).spec_busy(s as int) && final(self).spec_busy(s as int) && forall|
                    s2: int,
                |
                    0 <= s2 < FIXED_SLOT_COUNT && s2 != s ==> final(self).spec_busy(s2) == old(self).spec_busy(s2),
                None => old(self).spec_busy(spec_hash(k) as int % FIXED_SLOT_COUNT as int) && *final(self) == *old(self),
            },
    {
        let s = self.slot_of(k);
        if self.slot_busy[s] {
            None
        } else {
            self.slot_busy.set(s, true);
            Some(s)
        }
    }

    /// Free a slot taken by `try_acquire`.
    pub fn release_slot(&mut self, s: usize)
        requires
            old(self).wf(),
            s < FIXED_SLOT_COUNT,
        ensures
            final(self).wf(),
            !final(self).spec_busy(s as int),
            forall|s2: int|
                0 <= s2 < FIXED_SLOT_COUNT && s2 != s ==> final(self).spec_busy(s2) == old(self).spec_busy(s2),
    {
        self.slot_busy.set(s, false);
    }
}

} // verus!
