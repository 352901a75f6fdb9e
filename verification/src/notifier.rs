//! Sequence notification for committed certificates.
//!
//! Consumers wait for a contiguous run of sequence numbers. Every assigned
//! sequence is reported to the notifier — also when the commit itself
//! fails — so the chain of sequences can never acquire a permanent gap
//! that would stall consumers forever.

use vstd::prelude::*;
use std::collections::HashMap;
use crate::keys::sorted_strict;

verus! {

broadcast use vstd::std_specs::hash::group_hash_axioms;

/// How far a contiguous run starting at `start` reaches through the
/// sorted sequence numbers `s`: the first number that is still missing.
pub open spec fn contiguous_reach(s: Seq<u64>, start: u64) -> u64
    decreases s.len(),
{
    if s.len() == 0 {
        start
    } else if s[0] == start && start < u64::MAX {
        contiguous_reach(s.drop_first(), (start + 1) as u64)
    } else {
        contiguous_reach(s.drop_first(), start)
    }
}

/// Tracks which sequence numbers were notified, in sorted order.
pub struct BatchNotifier {
    /// The notified sequence numbers, strictly increasing.
    pub notified_sequences: Vec<u64>,
    /// The first sequence number consumers still expect.
    pub next_expected: u64,
}

impl BatchNotifier {
    /// The sequence list stays sorted and duplicate-free.
    pub open spec fn wf(self) -> bool {
        sorted_strict(self.notified_sequences@)
    }

    /// Build a notifier expecting sequence one first.
    pub fn new() -> (n: Self)
        ensures
            n.wf(),
            n.notified_sequences@.len() == 0,
            n.next_expected == 1,
    {
        BatchNotifier { notified_sequences: Vec::new(), next_expected: 1 }
    }

    /// Record that a sequence number was assigned. Reporting the same
    /// number twice changes nothing.
    pub fn notify_sequence(&mut self, seq: u64)
        requires
            old(self).wf(),
        ensures
            final(self).wf(),
            final(self).next_expected == old(self).next_expected,
            forall|x: u64|
                final(self).notified_sequences@.contains(x) <==> (old(self).notified_sequences@.contains(x) || x == seq),
    {
        crate::keys::insert_sorted(&mut self.notified_sequences, seq);
    }

    /// Whether the notified numbers already cover `next_expected ..= target`
    /// without a gap. Pure check; the caller's runtime parks and retries
    /// around it.
    pub fn wait_for_contiguous(&self, target: u64) -> (r: bool)
        requires
            self.wf(),
        ensures
            r == (contiguous_reach(self.notified_sequences@, self.next_expected) > target),
    {
        let mut current: u64 = self.next_expected;
        let mut i: usize = 0;
        proof {
            assert(self.notified_sequences@.subrange(0, self.notified_sequences@.len() as int)
                =~= self.notified_sequences@);
        }
        while i < self.notified_sequences.len()
            invariant
                i <= self.notified_sequences@.len(),
                contiguous_reach(self.notified_sequences@, self.next_expected)
                    == contiguous_reach(
                    self.notified_sequences@.subrange(
                        i as int,
                        self.notified_sequences@.len() as int,
                    ),
                    current,
                ),
            decreases self.notified_sequences@.len() - i,
        {
            let ghost rest = self.notified_sequences@.subrange(
                i as int,
                self.notified_sequences@.len() as int,
            );
            proof {
                assert(rest[0] == self.notified_sequences@[i as int]);
                assert(rest.drop_first() =~= self.notified_sequences@.subrange(
                    i + 1,
                    self.notified_sequences@.len() as int,
                ));
            }
            if self.notified_sequences[i] == current && current < u64::MAX {
                current = current + 1;
            }
            i += 1;
        }
        proof {
            assert(self.notified_sequences@.subrange(
                self.notified_sequences@.len() as int,
                self.notified_sequences@.len() as int,
            ) =~= Seq::<u64>::empty());
        }
        current > target
    }

    /// A copy of the notified sequence numbers, sorted.
    pub fn get_notified(&self) -> (r: Vec<u64>)
        ensures
            r@ == self.notified_sequences@,
    {
        let mut out: Vec<u64> = Vec::new();
        let mut i: usize = 0;
        while i < self.notified_sequences.len()
            invariant
                i <= self.notified_sequences@.len(),
                out@ == self.notified_sequences@.subrange(0, i as int),
            decreases self.notified_sequences@.len() - i,
        {
            out.push(self.notified_sequences[i]);
            proof {
                assert(out@ =~= self.notified_sequences@.subrange(0, i + 1 as int));
            }
            i += 1;
        }
        proof {
            assert(out@ =~= self.notified_sequences@);
        }
        out
    }
}

/// Commit storage that can be told to fail, for exercising error paths.
pub struct Database {
    /// Committed digests with their sequence numbers.
    pub committed: HashMap<u64, u64>,
    /// When set, every commit fails.
    pub should_fail: bool,
}

impl Database {
    /// The sequence a digest committed at, if it did.
    pub open spec fn spec_committed(self, digest: u64) -> Option<u64> {
        if self.committed@.dom().contains(digest) {
            Some(self.committed@[digest])
        } else {
            None
        }
    }

    /// Build an empty, healthy database.
    pub fn new() -> (d: Self)
        ensures
            forall|x: u64| d.spec_committed(x) is None,
            !d.should_fail,
    {
        let d = Database { committed: HashMap::new(), should_fail: false };
        proof {
            assert(d.committed@.dom() =~= Set::empty());
        }
        d
    }

    /// Switch commit failure on or off.
    pub fn set_fail(&mut self, fail: bool)
        ensures
            final(self).should_fail == fail,
            final(self).committed@ == old(self).committed@,
    {
        self.should_fail = fail;
    }

    /// Store a digest at a sequence, unless failure is switched on.
    pub fn commit(&mut self, digest: u64, seq: u64) -> (r: Result<(), ()>)
        ensures
            old(self).should_fail ==> r is Err && *final(self) == *old(self),
            !old(self).should_fail ==> r is Ok && final(self).spec_committed(digest) == Some(seq)
                && final(self).should_fail == old(self).should_fail && forall|x: u64|
                x != digest ==> #[trigger] final(self).spec_committed(x) == old(self).spec_committed(x),
    {
        if self.should_fail {
            return Err(());
        }
        self.committed.insert(digest, seq);
        Ok(())
    }
}

/// Assigns sequence numbers and commits certificates, always notifying.
pub struct Authority {
    /// The notifier consumers block on.
    pub notifier: BatchNotifier,
    /// Commit storage.
    pub database: Database,
    /// The next sequence number to assign.
    pub next_seq: u64,
}

impl Authority {
    /// Wire a notifier and a database together, starting at sequence one.
    pub fn new(notifier: BatchNotifier, database: Database) -> (a: Self)
        ensures
            a.notifier == notifier,
            a.database == database,
            a.next_seq == 1,
    {
        Authority { notifier, database, next_seq: 1 }
    }

    /// Assign the next sequence to the digest and try to commit it. The
    /// sequence is reported to the notifier whether or not the commit
    /// succeeded, so a failed commit never leaves a gap in the chain.
    pub fn commit_certificate(&mut self, digest: u64) -> (r: Result<u64, ()>)
        requires
            old(self).notifier.wf(),
            old(self).next_seq < u64::MAX,
        ensures
            final(self).notifier.wf(),
            final(self).next_seq == old(self).next_seq + 1,
            // the assigned sequence is notified on every path
            forall|x: u64|
                final(self).notifier.notified_sequences@.contains(x) <==> (old(self).notifier.notified_sequences@.contains(x) || x == old(self).next_seq),
            final(self).notifier.next_expected == old(self).notifier.next_expected,
            old(self).database.should_fail ==> r is Err && final(self).database == old(self).database,
            !old(self).database.should_fail ==> r == Ok::<u64, ()>(old(self).next_seq) && final(self).database.spec_committed(digest) == Some(old(self).next_seq),
    {
        let seq = self.next_seq;
        self.next_seq = self.next_seq + 1;
        let result = self.database.commit(digest, seq);
        // always notify, also when the commit failed
        self.notifier.notify_sequence(seq);
        match result {
            Ok(()) => Ok(seq),
            Err(()) => Err(()),
        }
    }

    /// The notifier consumers should subscribe to.
    pub fn notifier(&self) -> (n: &BatchNotifier)
        ensures
            n == self.notifier,
    {
        &self.notifier
    }
}

} // verus!
