//! Lock guards: the token a transaction holds for the duration of its work.
//!
//! A guard is constructed only by a successful coordinator run. Its release
//! walks the held keys in reverse canonical order, hands each key back to
//! the table, and wakes the head waiter of each freed key. Release is
//! idempotent: the second call is a no-op, so an explicit early release and
//! a scope-exit release can both fire safely.

use vstd::prelude::*;
use crate::keys::sorted_strict;
use crate::table::{ReleaseOutcome, ShardedLockTable};
use crate::waiters::WaiterRegistry;

verus! {

/// Whether `k` occurs among the first `upto` entries of `keys`.
pub open spec fn among(keys: Seq<u64>, upto: int, k: u64) -> bool {
    exists|j: int| 0 <= j < upto && keys[j] == k
}

/// The holder of a key after `owner` hands it back: cleared when `owner`
/// really held it, untouched otherwise.
pub open spec fn released_holder(pre: Option<u64>, owner: u64) -> Option<u64> {
    if pre == Some(owner) {
        None
    } else {
        pre
    }
}

/// Release `keys[0..upto]` on behalf of `owner`, in reverse canonical
/// order, waking the head waiter of every key that was actually freed.
/// Returns the transactions to wake, for the caller's runtime to signal.
///
/// Keys that `owner` does not hold are left exactly as they were: a stale
/// release never evicts another transaction.
#[verifier::loop_isolation(false)]
pub fn release_keys(
    t: &mut ShardedLockTable,
    w: &mut WaiterRegistry,
    keys: &Vec<u64>,
    upto: usize,
    owner: u64,
) -> (woken: Vec<u64>)
    requires
        upto <= keys@.len(),
        sorted_strict(keys@),
        forall|j: int| 0 <= j < upto ==> old(t).is_registered(#[trigger] keys@[j]),
    ensures
        final(t).shard_count == old(t).shard_count,
        final(t).table_size == old(t).table_size,
        forall|k: u64| #[trigger] final(t).is_registered(k) == old(t).is_registered(k),
        forall|k: u64|
            among(keys@, upto as int, k) ==> #[trigger] final(t).spec_holder(k) == released_holder(
                old(t).spec_holder(k),
                owner,
            ),
        forall|k: u64|
            !among(keys@, upto as int, k) ==> #[trigger] final(t).spec_holder(k) == old(t).spec_holder(k),
        forall|k: u64|
            (among(keys@, upto as int, k) && old(t).spec_holder(k) == Some(owner) && old(w).spec_queue(k).len() > 0) ==> #[trigger] final(w).spec_queue(k) == old(w).spec_queue(
                k,
            ).drop_first(),
        forall|k: u64|
            (among(keys@, upto as int, k) && old(t).spec_holder(k) == Some(owner) && old(w).spec_queue(k).len() > 0) ==> woken@.contains(#[trigger] old(w).spec_queue(k)[0]),
        forall|k: u64|
            !(among(keys@, upto as int, k) && old(t).spec_holder(k) == Some(owner) && old(w).spec_queue(k).len() > 0) ==> #[trigger] final(w).spec_queue(k) == old(w).spec_queue(
                k,
            ),
{
    let ghost t0 = *t;
    let ghost w0 = *w;
    let mut woken: Vec<u64> = Vec::new();
    let mut i: usize = upto;
    while i > 0
        invariant
            i <= upto,
            upto <= keys@.len(),
            sorted_strict(keys@),
            forall|j: int| 0 <= j < upto ==> t0.is_registered(#[trigger] keys@[j]),
            t.shard_count == t0.shard_count,
            t.table_size == t0.table_size,
            forall|k: u64| #[trigger] t.is_registered(k) == t0.is_registered(k),
            forall|k: u64|
                (among(keys@, upto as int, k) && !among(keys@, i as int, k))
                    ==> #[trigger] t.spec_holder(k) == released_holder(
                    t0.spec_holder(k),
                    owner,
                ),
            forall|k: u64|
                !(among(keys@, upto as int, k) && !among(keys@, i as int, k))
                    ==> #[trigger] t.spec_holder(k) == t0.spec_holder(k),
            forall|k: u64|
                (among(keys@, upto as int, k) && !among(keys@, i as int, k) && t0.spec_holder(
                    k,
                ) == Some(owner) && w0.spec_queue(k).len() > 0) ==> #[trigger] w.spec_queue(k)
                    == w0.spec_queue(k).drop_first(),
            forall|k: u64|
                (among(keys@, upto as int, k) && !among(keys@, i as int, k) && t0.spec_holder(
                    k,
                ) == Some(owner) && w0.spec_queue(k).len() > 0) ==> woken@.contains(
                    #[trigger] w0.spec_queue(k)[0],
                ),
            forall|k: u64|
                !(among(keys@, upto as int, k) && !among(keys@, i as int, k) && t0.spec_holder(k) == Some(owner) && w0.spec_queue(k).len() > 0)
                    ==> #[trigger] w.spec_queue(k) == w0.spec_queue(k),
        decreases i,
    {
        let ghost ipre: int = i as int;
        i -= 1;
        let k = keys[i];
        proof {
            // k is not among the still-unprocessed prefix: strict sortedness
            // makes every key distinct.
            assert(!among(keys@, i as int, k)) by {
                if among(keys@, i as int, k) {
                    let j = choose|j: int| 0 <= j < i && keys@[j] == k;
                    assert(keys@[j] < keys@[i as int]);
                }
            }
            // and k had not been processed yet, so its entry still has its
            // original state.
            assert(among(keys@, ipre, k));
        }
        let ghost t_pre = *t;
        let ghost w_pre = *w;
        let ghost woken_pre = woken@;
        let out = t.release(k, owner);
        match out {
            ReleaseOutcome::Released => {
                let head = w.wake_head(k);
                match head {
                    Some(tx) => {
                        woken.push(tx);
                    },
                    None => {},
                }
            },
            ReleaseOutcome::NotHolder => {},
        }
        proof {
            assert forall|x: u64| woken_pre.contains(x) implies woken@.contains(x) by {
                let j = choose|j: int| 0 <= j < woken_pre.len() && woken_pre[j] == x;
                assert(woken@[j] == x);
            }
            // A key newly counted as processed is either k itself or was
            // already processed before this iteration.
            assert forall|k2: u64|
                among(keys@, upto as int, k2) && !among(keys@, i as int, k2) && k2 != k implies
            !among(keys@, ipre, k2) by {
                if among(keys@, ipre, k2) {
                    let j = choose|j: int| 0 <= j < ipre && keys@[j] == k2;
                    assert(j != i);
                    assert(among(keys@, i as int, k2));
                }
            }
            assert forall|k2: u64|
                (among(keys@, upto as int, k2) && !among(keys@, i as int, k2)) implies #[trigger] t
                .spec_holder(k2) == released_holder(t0.spec_holder(k2), owner) by {
                if k2 == k {
                    assert(t_pre.spec_holder(k) == t0.spec_holder(k));
                } else {
                    assert(t.spec_holder(k2) == t_pre.spec_holder(k2));
                }
            }
            assert forall|k2: u64|
                !(among(keys@, upto as int, k2) && !among(keys@, i as int, k2))
                    implies #[trigger] t.spec_holder(k2) == t0.spec_holder(k2) by {
                assert(k2 != k);
            }
            assert forall|k2: u64|
                (among(keys@, upto as int, k2) && !among(keys@, i as int, k2) && t0.spec_holder(
                    k2,
                ) == Some(owner) && w0.spec_queue(k2).len() > 0) implies #[trigger] w.spec_queue(
                    k2,
                ) == w0.spec_queue(k2).drop_first() by {
                if k2 == k {
                    assert(t_pre.spec_holder(k) == t0.spec_holder(k));
                    assert(t_pre.spec_holder(k) == Some(owner));
                    assert(w_pre.spec_queue(k) == w0.spec_queue(k));
                    assert(woken@.last() == w0.spec_queue(k)[0]);
                    assert(woken@[woken@.len() - 1] == w0.spec_queue(k)[0]);
                    assert(w.spec_queue(k) == w0.spec_queue(k).drop_first());
                    assert(woken@.contains(w0.spec_queue(k)[0]));
                } else {
                    assert(w_pre.spec_queue(k2) == w0.spec_queue(k2).drop_first());
                    assert(woken_pre.contains(w0.spec_queue(k2)[0]));
                    assert(w.spec_queue(k2) == w_pre.spec_queue(k2));
                    assert(woken@.contains(w0.spec_queue(k2)[0]));
                }
            }
            assert forall|k2: u64|
                (among(keys@, upto as int, k2) && !among(keys@, i as int, k2) && t0.spec_holder(
                    k2,
                ) == Some(owner) && w0.spec_queue(k2).len() > 0) implies woken@.contains(
                #[trigger] w0.spec_queue(k2)[0]) by {
                if k2 == k {
                    assert(t_pre.spec_holder(k) == t0.spec_holder(k));
                    assert(woken@[woken@.len() - 1] == w0.spec_queue(k)[0]);
                } else {
                    assert(w_pre.spec_queue(k2) == w0.spec_queue(k2).drop_first());
                    assert(woken_pre.contains(w0.spec_queue(k2)[0]));
                    let jj = choose|jj: int| 0 <= jj < woken_pre.len() && woken_pre[jj] == w0.spec_queue(k2)[0];
                    assert(woken@[jj] == w0.spec_queue(k2)[0]);
                }
            }
            assert forall|k2: u64|
                !(among(keys@, upto as int, k2) && !among(keys@, i as int, k2) && t0.spec_holder(k2) == Some(owner) && w0.spec_queue(k2).len() > 0)
                    implies #[trigger] w.spec_queue(k2) == w0.spec_queue(k2) by {
                if k2 == k {
                    assert(t_pre.spec_holder(k) == t0.spec_holder(k));
                    assert(w_pre.spec_queue(k) == w0.spec_queue(k));
                } else {
                    assert(w.spec_queue(k2) == w_pre.spec_queue(k2));
                }
            }
        }
    }
    woken
}

/// A token for the keys one transaction holds. Owned exclusively by the
/// transaction that acquired it; `released` goes from false to true exactly
/// once.
pub struct LockGuard {
    /// The transaction that owns these keys.
    pub owner: u64,
    /// The held keys, in canonical (strictly increasing) order.
    pub held_keys: Vec<u64>,
    /// Whether the guard has already been handed back.
    pub released: bool,
}

impl LockGuard {
    /// Structural well-formedness: held keys are in canonical order.
    pub open spec fn wf(self) -> bool {
        sorted_strict(self.held_keys@)
    }

    /// A live guard's keys are all owned by the guard's transaction in `t`.
    pub open spec fn holds_all(self, t: ShardedLockTable) -> bool {
        forall|j: int|
            0 <= j < self.held_keys@.len() ==> t.spec_holder(#[trigger] self.held_keys@[j])
                == Some(self.owner)
    }

    /// Hand every held key back, in reverse canonical order, waking the
    /// head waiter of each freed key; returns the transactions to wake.
    /// Releasing an already-released guard changes nothing at all.
    pub fn release(&mut self, t: &mut ShardedLockTable, w: &mut WaiterRegistry) -> (woken: Vec<
        u64,
    >)
        requires
            old(self).wf(),
            forall|j: int|
                0 <= j < old(self).held_keys@.len() ==> old(t).is_registered(
                    #[trigger] old(self).held_keys@[j],
                ),
        ensures
            final(self).owner == old(self).owner,
            final(self).held_keys == old(self).held_keys,
            final(self).released,
            old(self).released ==> *final(t) == *old(t) && *final(w) == *old(w) && woken@.len()
                == 0,
            !old(self).released ==> {
                &&& final(t).shard_count == old(t).shard_count
                &&& final(t).table_size == old(t).table_size
                &&& forall|k: u64| #[trigger] final(t).is_registered(k) == old(t).is_registered(k)
                &&& forall|k: u64|
                    old(self).held_keys@.contains(k) ==> #[trigger] final(t).spec_holder(k)
                        == released_holder(old(t).spec_holder(k), old(self).owner)
                &&& forall|k: u64|
                    !old(self).held_keys@.contains(k) ==> #[trigger] final(t).spec_holder(k) == old(t).spec_holder(k)
                &&& forall|k: u64|
                    (old(self).held_keys@.contains(k) && old(t).spec_holder(k) == Some(
                        old(self).owner,
                    ) && old(w).spec_queue(k).len() > 0) ==> #[trigger] final(w).spec_queue(k)
                        == old(w).spec_queue(k).drop_first() && woken@.contains(
                        old(w).spec_queue(k)[0],
                    )
                &&& forall|k: u64|
                    !(old(self).held_keys@.contains(k) && old(t).spec_holder(k) == Some(
                        old(self).owner,
                    ) && old(w).spec_queue(k).len() > 0) ==> #[trigger] final(w).spec_queue(k)
                        == old(w).spec_queue(k)
            },
    {
        if self.released {
            return Vec::new();
        }
        self.released = true;
        let upto = self.held_keys.len();
        let woken = release_keys(t, w, &self.held_keys, upto, self.owner);
        proof {
            assert forall|k: u64| old(self).held_keys@.contains(k) implies among(
                old(self).held_keys@,
                upto as int,
                k,
            ) by {}
            assert forall|k: u64|
                among(old(self).held_keys@, upto as int, k) implies old(self).held_keys@.contains(k) by {
                let j = choose|j: int| 0 <= j < upto && old(self).held_keys@[j] == k;
                assert(old(self).held_keys@[j] == k);
            }
        }
        woken
    }
}

/// Mutual exclusion: two live guards of different transactions can never
/// hold the same key. The table maps each key to at most one holder, and a
/// live guard's keys are all mapped to its owner, so a key of one guard
/// cannot appear in the other.
pub proof fn lemma_mutual_exclusion(
    t: ShardedLockTable,
    g1: LockGuard,
    g2: LockGuard,
    k: u64,
)
    requires
        g1.owner != g2.owner,
        !g1.released,
        !g2.released,
        g1.holds_all(t),
        g2.holds_all(t),
        g1.held_keys@.contains(k),
    ensures
        !g2.held_keys@.contains(k),
{
    let j1 = choose|j: int| 0 <= j < g1.held_keys@.len() && g1.held_keys@[j] == k;
    assert(t.spec_holder(g1.held_keys@[j1]) == Some(g1.owner));
    if g2.held_keys@.contains(k) {
        let j2 = choose|j: int| 0 <= j < g2.held_keys@.len() && g2.held_keys@[j] == k;
        assert(t.spec_holder(g2.held_keys@[j2]) == Some(g2.owner));
    }
}

} // verus!
