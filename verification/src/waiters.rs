//! Per-key FIFO queues of blocked requesters.
//!
//! A transaction that finds a key held registers here and parks on a wake
//! handle owned by the caller's runtime. Release wakes exactly the head of
//! the key's queue (no thundering herd, no starvation), and a timed-out
//! requester cancels its registration without being woken.

use vstd::prelude::*;
use std::collections::HashMap;

verus! {

broadcast use vstd::std_specs::hash::group_hash_axioms;

/// FIFO waiter queues, one per contended key. A key with no queue is a key
/// with no waiters.
pub struct WaiterRegistry {
    /// Waiting transactions per key, longest-waiting first.
    pub queues: HashMap<u64, Vec<u64>>,
}

impl WaiterRegistry {
    /// The queue of transactions waiting for `k`, longest-waiting first.
    pub open spec fn spec_queue(self, k: u64) -> Seq<u64> {
        if self.queues@.dom().contains(k) {
            self.queues@[k]@
        } else {
            Seq::empty()
        }
    }

    /// No transaction is waiting for any key.
    pub open spec fn no_waiters(self) -> bool {
        forall|k: u64| self.spec_queue(k).len() == 0
    }

    /// Build a registry with no waiters.
    pub fn new() -> (w: Self)
        ensures
            forall|k: u64| w.spec_queue(k).len() == 0,
    {
        let w = WaiterRegistry { queues: HashMap::new() };
        proof {
            assert(w.queues@.dom() =~= Set::empty());
        }
        w
    }

    /// Number of transactions waiting for `k`.
    pub fn queue_len(&self, k: u64) -> (n: usize)
        ensures
            n == self.spec_queue(k).len(),
    {
        match self.queues.get(&k) {
            Some(q) => q.len(),
            None => 0,
        }
    }

    /// Append `tx` to the back of `k`'s queue: later arrivals wait longer.
    pub fn enqueue(&mut self, k: u64, tx: u64)
        ensures
            final(self).spec_queue(k) == old(self).spec_queue(k).push(tx),
            forall|k2: u64|
                k2 != k ==> #[trigger] final(self).spec_queue(k2) == old(self).spec_queue(k2),
    {
        let mut q: Vec<u64> = match self.queues.remove(&k) {
            Some(q) => q,
            None => Vec::new(),
        };
        q.push(tx);
        self.queues.insert(k, q);
        proof {
            assert(self.spec_queue(k) =~= old(self).spec_queue(k).push(tx));
        }
    }

    /// Pop and return the longest-waiting transaction for `k`, if any.
    /// The caller signals that transaction's wake handle; the wake is a
    /// hint, not a transfer of ownership, so the woken party must retry.
    pub fn wake_head(&mut self, k: u64) -> (woken: Option<u64>)
        ensures
            forall|k2: u64|
                k2 != k ==> #[trigger] final(self).spec_queue(k2) == old(self).spec_queue(k2),
            match woken {
                Some(tx) => old(self).spec_queue(k).len() > 0 && tx == old(self).spec_queue(k)[0]
                    && final(self).spec_queue(k) == old(self).spec_queue(k).drop_first(),
                None => old(self).spec_queue(k).len() == 0 && final(self).spec_queue(k) == old(self).spec_queue(k),
            },
    {
        match self.queues.remove(&k) {
            None => None,
            Some(mut q) => {
                if q.len() == 0 {
                    self.queues.insert(k, q);
                    proof {
                        assert(self.spec_queue(k) =~= old(self).spec_queue(k));
                    }
                    None
                } else {
                    let h = q.remove(0);
                    self.queues.insert(k, q);
                    proof {
                        assert(self.spec_queue(k) =~= old(self).spec_queue(k).drop_first());
                    }
                    Some(h)
                }
            },
        }
    }

    /// Remove `tx` from `k`'s queue without waking it, keeping every other
    /// waiter in order. Used when an acquisition attempt abandons waiting.
    pub fn cancel(&mut self, k: u64, tx: u64)
        ensures
            final(self).spec_queue(k) == old(self).spec_queue(k).filter(|x: u64| x != tx),
            forall|k2: u64|
                k2 != k ==> #[trigger] final(self).spec_queue(k2) == old(self).spec_queue(k2),
    {
        match self.queues.remove(&k) {
            None => {
                proof {
                    reveal(Seq::filter);
                    assert(old(self).spec_queue(k).filter(|x: u64| x != tx) =~= Seq::<
                        u64,
                    >::empty());
                    assert(self.spec_queue(k) =~= Seq::<u64>::empty());
                }
            },
            Some(q) => {
                let mut nq: Vec<u64> = Vec::new();
                let mut i: usize = 0;
                proof {
                    reveal(Seq::filter);
                    assert(q@.subrange(0, 0) =~= Seq::<u64>::empty());
                }
                while i < q.len()
                    invariant
                        i <= q.len(),
                        nq@ == q@.subrange(0, i as int).filter(|x: u64| x != tx),
                    decreases q.len() - i,
                {
                    let ghost ip1: int = i + 1;
                    proof {
                        reveal(Seq::filter);
                        assert(q@.subrange(0, ip1).drop_last() =~= q@.subrange(0, i as int));
                        assert(q@.subrange(0, ip1).last() == q@[i as int]);
                    }
                    if q[i] != tx {
                        nq.push(q[i]);
                    }
                    i += 1;
                }
                proof {
                    assert(q@.subrange(0, q@.len() as int) =~= q@);
                }
                self.queues.insert(k, nq);
                proof {
                    assert(self.spec_queue(k) =~= old(self).spec_queue(k).filter(
                        |x: u64| x != tx,
                    ));
                }
            },
        }
    }
}

/// A registry whose queues gained no member relative to an empty one is
/// itself empty: waiters never appear out of nowhere.
pub proof fn lemma_no_waiters_preserved(w0: WaiterRegistry, w1: WaiterRegistry)
    requires
        w0.no_waiters(),
        forall|k: u64, x: u64|
            #[trigger] w1.spec_queue(k).contains(x) ==> w0.spec_queue(k).contains(x),
    ensures
        w1.no_waiters(),
{
    assert forall|k: u64| w1.spec_queue(k).len() == 0 by {
        if w1.spec_queue(k).len() > 0 {
            assert(w1.spec_queue(k).contains(w1.spec_queue(k)[0]));
            let x = w1.spec_queue(k)[0];
            assert(w0.spec_queue(k).contains(x));
            let j = choose|j: int| 0 <= j < w0.spec_queue(k).len() && w0.spec_queue(k)[j] == x;
        }
    }
}

/// Filtering a queue can only remove members, never add them.
pub proof fn lemma_filter_subset(q: Seq<u64>, pred: spec_fn(u64) -> bool, x: u64)
    requires
        q.filter(pred).contains(x),
    ensures
        q.contains(x),
    decreases q.len(),
{
    reveal(Seq::filter);
    if q.len() > 0 {
        let f = q.filter(pred);
        let j = choose|j: int| 0 <= j < f.len() && f[j] == x;
        if q.last() == x {
            assert(q[q.len() - 1] == x);
        } else {
            if pred(q.last()) {
                assert(f == q.drop_last().filter(pred).push(q.last()));
                assert(j < f.len() - 1);
                assert(q.drop_last().filter(pred)[j] == x);
            }
            lemma_filter_subset(q.drop_last(), pred, x);
            let i = choose|i: int| 0 <= i < q.drop_last().len() && q.drop_last()[i] == x;
            assert(q[i] == x);
        }
    }
}

/// A queue with `a` dropped never holds `a`.
pub proof fn lemma_filter_gone(q: Seq<u64>, a: u64)
    ensures
        !q.filter(|x: u64| x != a).contains(a),
    decreases q.len(),
{
    reveal(Seq::filter);
    if q.len() == 0 {
    } else {
        lemma_filter_gone(q.drop_last(), a);
        if q.filter(|x: u64| x != a).contains(a) {
            let f = q.filter(|x: u64| x != a);
            let j = choose|j: int| 0 <= j < f.len() && f[j] == a;
            if q.last() != a {
                assert(f == q.drop_last().filter(|x: u64| x != a).push(q.last()));
                if j < f.len() - 1 {
                    assert(q.drop_last().filter(|x: u64| x != a)[j] == a);
                }
            }
        }
    }
}

} // verus!
