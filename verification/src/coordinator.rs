//! Multi-key acquisition with bounded waiting and rollback.
//!
//! An acquisition attempt walks its canonical key sequence and takes each
//! key in turn. When a key is held by another transaction the attempt
//! registers as a waiter and reports which key it blocks on; the caller's
//! runtime parks until woken or until the deadline, then drives the attempt
//! again. A deadline reached mid-way rolls every already-held key back, in
//! reverse order and waking their waiters, so a timed-out transaction
//! leaves the table exactly as it found it.
//!
//! Progress is driven by `step`, a pure state transition over the table and
//! the waiter registry: all blocking, timing and signalling stays with the
//! caller's runtime.

use vstd::prelude::*;
use crate::guard::{among, released_holder, release_keys, LockGuard};
use crate::keys::{canonicalize, sorted_strict};
use crate::table::{ShardedLockTable, TryAcquireOutcome};
use crate::waiters::{lemma_filter_gone, lemma_filter_subset, WaiterRegistry};

verus! {

/// Why an acquisition attempt failed.
#[derive(Clone, Copy, Debug, PartialEq, Eq, Structural)]
pub enum AcquireError {
    /// The deadline passed before every key was held. All partial progress
    /// has been rolled back; retrying with a fresh attempt is safe.
    Timeout,
    /// A requested key was never registered. Checked before any key is
    /// taken, so this never causes partial lock state.
    KeyNotFound,
}

/// One in-flight attempt to take a set of keys for one transaction.
pub struct AcquisitionRequest {
    /// The requesting transaction.
    pub tx: u64,
    /// The requested keys in canonical acquisition order.
    pub keys: Vec<u64>,
    /// Absolute time after which the attempt gives up.
    pub deadline: u64,
    /// How many keys of `keys` are currently held: `keys[0..next]`.
    pub next: usize,
}

/// What one drive of an acquisition attempt produced.
pub enum StepOutcome {
    /// Every key is held; here is the guard. The attempt is finished.
    Done(LockGuard),
    /// The named key is held by another transaction; the caller is
    /// registered as a waiter on it and should park until woken or until
    /// the deadline, then step again. The wake is a hint, not a grant.
    Wait(u64),
    /// The deadline passed. Every key the attempt held has been handed
    /// back; the payload lists the waiters to wake for those keys.
    TimedOut(Vec<u64>),
}

impl AcquisitionRequest {
    /// Keys are canonical and the progress index stays in range.
    pub open spec fn wf(self) -> bool {
        &&& sorted_strict(self.keys@)
        &&& self.next <= self.keys@.len()
    }

    /// Every requested key is a registered object of `t`.
    pub open spec fn registered_in(self, t: ShardedLockTable) -> bool {
        forall|j: int| 0 <= j < self.keys@.len() ==> t.is_registered(#[trigger] self.keys@[j])
    }

    /// The key the attempt is about to take (meaningful while `next` is in
    /// range).
    pub open spec fn wait_key(self) -> u64 {
        self.keys@[self.next as int]
    }

    /// The transaction holds exactly the canonical prefix `keys[0..next]`,
    /// nothing more anywhere in the table.
    pub open spec fn holds_exact_prefix(self, t: ShardedLockTable) -> bool {
        forall|k: u64|
            (#[trigger] t.spec_holder(k) == Some(self.tx)) <==> among(
                self.keys@,
                self.next as int,
                k,
            )
    }

    /// The transaction is registered as a waiter at most on its wait key.
    pub open spec fn waits_only_on_wait_key(self, w: WaiterRegistry) -> bool {
        forall|k: u64|
            #[trigger] w.spec_queue(k).contains(self.tx) ==> self.next < self.keys@.len() && k
                == self.wait_key()
    }

    /// Everything `step` relies on and preserves.
    pub open spec fn inv(self, t: ShardedLockTable, w: WaiterRegistry) -> bool {
        &&& self.wf()
        &&& self.registered_in(t)
        &&& self.holds_exact_prefix(t)
        &&& self.waits_only_on_wait_key(w)
    }
}

/// Open an acquisition attempt: canonicalize the requested keys, refuse the
/// attempt outright if any of them is unknown, and fix the deadline. No key
/// is taken here, so a refused attempt leaves no partial state. The
/// transaction must be fresh: it holds nothing and waits nowhere.
#[verifier::loop_isolation(false)]
pub fn begin(
    t: &ShardedLockTable,
    w: &WaiterRegistry,
    tx: u64,
    requested: &Vec<u64>,
    now: u64,
    timeout: u64,
) -> (r: Result<AcquisitionRequest, AcquireError>)
    requires
        forall|k: u64| #[trigger] t.spec_holder(k) != Some(tx),
        forall|k: u64| !(#[trigger] w.spec_queue(k)).contains(tx),
    ensures
        match r {
            Ok(req) => {
                &&& req.tx == tx
                &&& req.next == 0
                &&& req.deadline == now.saturating_add(timeout)
                &&& forall|x: u64|
                    #![trigger req.keys@.contains(x)]
                    #![trigger requested@.contains(x)]
                    req.keys@.contains(x) <==> requested@.contains(x)
                &&& req.inv(*t, *w)
            },
            Err(e) => {
                &&& e == AcquireError::KeyNotFound
                &&& exists|x: u64| #[trigger] requested@.contains(x) && !t.is_registered(x)
            },
        },
{
    let keys = canonicalize(requested);
    let mut j: usize = 0;
    while j < keys.len()
        invariant
            j <= keys.len(),
            forall|i: int| 0 <= i < j ==> t.is_registered(#[trigger] keys@[i]),
        decreases keys.len() - j,
    {
        if !t.contains_object(keys[j]) {
            proof {
                assert(keys@.contains(keys@[j as int]));
                assert(requested@.contains(keys@[j as int]));
                assert(requested@.contains(keys@[j as int]) && !t.is_registered(
                    keys@[j as int],
                ));
            }
            return Err(AcquireError::KeyNotFound);
        }
        j += 1;
    }
    let req = AcquisitionRequest { tx, keys, deadline: now.saturating_add(timeout), next: 0 };
    proof {
        assert forall|k: u64| !among(req.keys@, 0, k) by {}
    }
    Ok(req)
}

/// Drive an attempt forward at time `now`.
///
/// Past the deadline: cancel the pending wait registration, hand back every
/// held key in reverse order waking their waiters, and report `TimedOut` —
/// afterwards the transaction holds nothing and every other holder is
/// untouched. Before the deadline: take keys in canonical order until
/// either all are held (`Done`, with the guard) or one is held by another
/// transaction (`Wait`, with the caller put at the back of that key's FIFO
/// queue).
#[verifier::rlimit(30)]
#[verifier::loop_isolation(false)]
pub fn step(
    t: &mut ShardedLockTable,
    w: &mut WaiterRegistry,
    r: &mut AcquisitionRequest,
    now: u64,
) -> (out: StepOutcome)
    requires
        old(r).inv(*old(t), *old(w)),
    ensures
        final(r).tx == old(r).tx,
        final(r).keys@ == old(r).keys@,
        final(r).deadline == old(r).deadline,
        final(t).shard_count == old(t).shard_count,
        final(t).table_size == old(t).table_size,
        forall|k: u64| #[trigger] final(t).is_registered(k) == old(t).is_registered(k),
        final(r).inv(*final(t), *final(w)),
        forall|k: u64, x: u64|
            #[trigger] final(w).spec_queue(k).contains(x) ==> old(w).spec_queue(k).contains(x)
                || x == old(r).tx,
        match out {
            StepOutcome::Done(g) => {
                &&& now < old(r).deadline
                &&& g.owner == old(r).tx
                &&& g.held_keys@ == old(r).keys@
                &&& !g.released
                &&& g.wf()
                &&& g.holds_all(*final(t))
                &&& final(r).next == old(r).keys@.len()
                &&& forall|k: u64|
                    (among(old(r).keys@, final(r).next as int, k) && !among(
                        old(r).keys@,
                        old(r).next as int,
                        k,
                    )) ==> old(t).spec_holder(k) is None
                &&& forall|k: u64|
                    !among(old(r).keys@, old(r).keys@.len() as int, k) ==> #[trigger] final(t).spec_holder(k) == old(t).spec_holder(k)
                &&& forall|k: u64| !(#[trigger] final(w).spec_queue(k)).contains(old(r).tx)
            },
            StepOutcome::Wait(kw) => {
                &&& now < old(r).deadline
                &&& final(r).next < old(r).keys@.len()
                &&& kw == final(r).wait_key()
                &&& final(r).next >= old(r).next
                &&& exists|h: u64|
                    h != old(r).tx && #[trigger] final(t).spec_holder(kw) == Some(h)
                &&& final(w).spec_queue(kw).len() > 0
                &&& final(w).spec_queue(kw).last() == old(r).tx
                &&& forall|k: u64|
                    (among(old(r).keys@, final(r).next as int, k) && !among(
                        old(r).keys@,
                        old(r).next as int,
                        k,
                    )) ==> old(t).spec_holder(k) is None
                &&& forall|k: u64|
                    !among(old(r).keys@, final(r).next as int, k) ==> #[trigger] final(t).spec_holder(k) == old(t).spec_holder(k)
            },
            StepOutcome::TimedOut(woken) => {
                &&& now >= old(r).deadline
                &&& final(r).next == 0
                &&& forall|k: u64|
                    #[trigger] final(t).spec_holder(k) == released_holder(
                        old(t).spec_holder(k),
                        old(r).tx,
                    )
                &&& forall|k: u64| !(#[trigger] final(w).spec_queue(k)).contains(old(r).tx)
                &&& forall|k: u64|
                    (among(old(r).keys@, old(r).next as int, k) && old(w).spec_queue(k).len() > 0)
                        ==> woken@.contains(#[trigger] old(w).spec_queue(k)[0])
            },
        },
{
    let ghost t0 = *t;
    let ghost w0 = *w;
    let ghost next0: int = r.next as int;
    let len = r.keys.len();
    if now >= r.deadline {
        if r.next < len {
            let kw = r.keys[r.next];
            w.cancel(kw, r.tx);
            proof {
                lemma_filter_gone(w0.spec_queue(kw), r.tx);
                // the wait key is not part of the held prefix, so its queue
                // being filtered leaves the prefix queues untouched
                assert(!among(r.keys@, r.next as int, kw)) by {
                    if among(r.keys@, r.next as int, kw) {
                        let j = choose|j: int| 0 <= j < r.next && r.keys@[j] == kw;
                        assert(r.keys@[j] < r.keys@[r.next as int]);
                    }
                }
            }
        }
        let ghost w1 = *w;
        let upto = r.next;
        let woken = release_keys(t, w, &r.keys, upto, r.tx);
        r.next = 0;
        proof {
            assert forall|k: u64| #[trigger] t.spec_holder(k) == released_holder(
                t0.spec_holder(k),
                r.tx,
            ) by {
                if among(r.keys@, upto as int, k) {
                } else {
                    assert(t.spec_holder(k) == t0.spec_holder(k));
                    assert(t0.spec_holder(k) != Some(r.tx));
                }
            }
            assert forall|k: u64| !(#[trigger] w.spec_queue(k)).contains(r.tx) by {
                if w.spec_queue(k).contains(r.tx) {
                    let j = choose|j: int| 0 <= j < w.spec_queue(k).len() && w.spec_queue(k)[j]
                        == r.tx;
                    if among(r.keys@, upto as int, k) && t0.spec_holder(k) == Some(r.tx)
                        && w1.spec_queue(k).len() > 0 {
                        assert(w.spec_queue(k) == w1.spec_queue(k).drop_first());
                        assert(w1.spec_queue(k)[j + 1] == r.tx);
                        assert(w1.spec_queue(k).contains(r.tx));
                        assert(w0.spec_queue(k).contains(r.tx));
                    } else {
                        assert(w.spec_queue(k) == w1.spec_queue(k));
                        assert(w1.spec_queue(k).contains(r.tx));
                    }
                }
            }
            assert forall|k: u64|
                (among(r.keys@, upto as int, k) && w0.spec_queue(k).len() > 0) implies
            woken@.contains(#[trigger] w0.spec_queue(k)[0]) by {
                assert(t0.spec_holder(k) == Some(r.tx));
                assert(w1.spec_queue(k) == w0.spec_queue(k));
            }
            assert forall|k2: u64, x: u64|
                #[trigger] w.spec_queue(k2).contains(x) implies w0.spec_queue(k2).contains(x)
                || x == r.tx by {
                if among(r.keys@, upto as int, k2) && t0.spec_holder(k2) == Some(r.tx)
                    && w1.spec_queue(k2).len() > 0 {
                    assert(w.spec_queue(k2) == w1.spec_queue(k2).drop_first());
                    let j = choose|j: int|
                        0 <= j < w.spec_queue(k2).len() && w.spec_queue(k2)[j] == x;
                    assert(w1.spec_queue(k2)[j + 1] == x);
                    assert(w1.spec_queue(k2).contains(x));
                } else {
                    assert(w.spec_queue(k2) == w1.spec_queue(k2));
                }
                if w1.spec_queue(k2).contains(x) {
                    if next0 < len && k2 == r.keys@[next0] {
                        assert(w1.spec_queue(k2) == w0.spec_queue(k2).filter(
                            |y: u64| y != r.tx,
                        ));
                        lemma_filter_subset(w0.spec_queue(k2), |y: u64| y != r.tx, x);
                    } else {
                        assert(w1.spec_queue(k2) == w0.spec_queue(k2));
                    }
                }
            }
            assert forall|k: u64| !among(r.keys@, 0, k) by {}
        }
        return StepOutcome::TimedOut(woken);
    }
    if r.next < len {
        let kw = r.keys[r.next];
        w.cancel(kw, r.tx);
        proof {
            lemma_filter_gone(w0.spec_queue(kw), r.tx);
        }
    }
    proof {
        assert forall|k: u64| !(#[trigger] w.spec_queue(k)).contains(r.tx) by {
            if w.spec_queue(k).contains(r.tx) {
                if r.next < r.keys@.len() && k == r.keys@[r.next as int] {
                } else {
                    assert(w.spec_queue(k) == w0.spec_queue(k));
                }
            }
        }
    }
    let ghost w1 = *w;
    while r.next < r.keys.len()
        invariant
            r.tx == old(r).tx,
            r.keys == old(r).keys,
            r.deadline == old(r).deadline,
            r.next <= r.keys@.len(),
            sorted_strict(r.keys@),
            r.next >= old(r).next,
            t.shard_count == t0.shard_count,
            t.table_size == t0.table_size,
            forall|k: u64| #[trigger] t.is_registered(k) == t0.is_registered(k),
            r.registered_in(*t),
            r.holds_exact_prefix(*t),
            forall|k: u64|
                !among(r.keys@, r.next as int, k) ==> #[trigger] t.spec_holder(k) == t0.spec_holder(k),
            forall|j: int|
                next0 <= j < r.next ==> t0.spec_holder(#[trigger] r.keys@[j]) is None,
            next0 <= r.next,
            forall|k: u64| #[trigger] w.spec_queue(k) == w1.spec_queue(k),
            forall|k: u64| !(#[trigger] w.spec_queue(k)).contains(r.tx),
        decreases r.keys@.len() - r.next,
    {
        let k = r.keys[r.next];
        proof {
            assert(!among(r.keys@, r.next as int, k)) by {
                if among(r.keys@, r.next as int, k) {
                    let j = choose|j: int| 0 <= j < r.next && r.keys@[j] == k;
                    assert(r.keys@[j] < r.keys@[r.next as int]);
                }
            }
        }
        let ghost t_pre = *t;
        let out = t.try_acquire(k, r.tx);
        match out {
            TryAcquireOutcome::Acquired => {
                r.next += 1;
                proof {
                    assert forall|k2: u64|
                        (#[trigger] t.spec_holder(k2) == Some(r.tx)) <==> among(
                            r.keys@,
                            r.next as int,
                            k2,
                        ) by {
                        if k2 == k {
                            assert(r.keys@[r.next - 1] == k);
                        } else {
                            assert(t.spec_holder(k2) == t_pre.spec_holder(k2));
                            assert(among(r.keys@, r.next as int, k2) == among(
                                r.keys@,
                                r.next - 1,
                                k2,
                            )) by {
                                if among(r.keys@, r.next as int, k2) {
                                    let j = choose|j: int| 0 <= j < r.next && r.keys@[j] == k2;
                                    assert(j != r.next - 1);
                                }
                            }
                        }
                    }
                    assert forall|j: int| next0 <= j < r.next implies t0.spec_holder(
                        #[trigger] r.keys@[j],
                    ) is None by {
                        if j == r.next - 1 {
                            assert(t_pre.spec_holder(k) == t0.spec_holder(k));
                            assert(t_pre.spec_holder(k) is None);
                        }
                    }
                    assert forall|k2: u64|
                        !among(r.keys@, r.next as int, k2) implies #[trigger] t.spec_holder(k2)
                        == t0.spec_holder(k2) by {
                        assert(k2 != k);
                        assert(!among(r.keys@, r.next - 1, k2)) by {
                            if among(r.keys@, r.next - 1, k2) {
                                assert(among(r.keys@, r.next as int, k2));
                            }
                        }
                        assert(t.spec_holder(k2) == t_pre.spec_holder(k2));
                    }
                }
            },
            TryAcquireOutcome::HeldBy(h) => {
                proof {
                    assert(h != r.tx) by {
                        if h == r.tx {
                            assert(t_pre.spec_holder(k) == Some(r.tx));
                            assert(among(r.keys@, r.next as int, k));
                        }
                    }
                }
                w.enqueue(k, r.tx);
                proof {
                    assert forall|k2: u64|
                        (among(r.keys@, r.next as int, k2) && !among(r.keys@, next0, k2))
                        implies t0.spec_holder(k2) is None by {
                        let j = choose|j: int| 0 <= j < r.next && r.keys@[j] == k2;
                        assert(j >= next0);
                        assert(t0.spec_holder(r.keys@[j]) is None);
                    }
                    assert(w.spec_queue(k).last() == r.tx);
                    assert forall|k2: u64|
                        #[trigger] w.spec_queue(k2).contains(r.tx) implies r.next
                        < r.keys@.len() && k2 == r.wait_key() by {
                        if k2 != k {
                            assert(w.spec_queue(k2) == w1.spec_queue(k2));
                        }
                    }
                    assert forall|k2: u64, x: u64|
                        #[trigger] w.spec_queue(k2).contains(x) implies w0.spec_queue(
                        k2).contains(x) || x == r.tx by {
                        let ghost wmid = w1;
                        if k2 == k && x != r.tx {
                            let j = choose|j: int|
                                0 <= j < w.spec_queue(k2).len() && w.spec_queue(k2)[j] == x;
                            assert(w.spec_queue(k) == wmid.spec_queue(k).push(r.tx));
                            assert(j < w.spec_queue(k).len() - 1);
                            assert(wmid.spec_queue(k)[j] == x);
                            assert(wmid.spec_queue(k).contains(x));
                        } else if k2 != k {
                            assert(w.spec_queue(k2) == wmid.spec_queue(k2));
                        }
                        if x != r.tx && wmid.spec_queue(k2).contains(x) {
                            if next0 < r.keys@.len() && k2 == r.keys@[next0] {
                                assert(wmid.spec_queue(k2) == w0.spec_queue(k2).filter(
                                    |y: u64| y != r.tx,
                                ));
                                lemma_filter_subset(w0.spec_queue(k2), |y: u64| y != r.tx, x);
                            } else {
                                assert(wmid.spec_queue(k2) == w0.spec_queue(k2));
                            }
                        }
                    }
                }
                return StepOutcome::Wait(k);
            },
        }
    }
    let g = LockGuard { owner: r.tx, held_keys: r.keys.clone(), released: false };
    proof {
        assert forall|k2: u64|
            (among(r.keys@, r.next as int, k2) && !among(r.keys@, next0, k2)) implies
        t0.spec_holder(k2) is None by {
            let j = choose|j: int| 0 <= j < r.next && r.keys@[j] == k2;
            assert(j >= next0);
            assert(t0.spec_holder(r.keys@[j]) is None);
        }
        assert forall|j: int| 0 <= j < g.held_keys@.len() implies t.spec_holder(
            #[trigger] g.held_keys@[j],
        ) == Some(g.owner) by {
            assert(among(r.keys@, r.next as int, g.held_keys@[j]));
        }
        assert forall|k2: u64, x: u64|
            #[trigger] w.spec_queue(k2).contains(x) implies w0.spec_queue(k2).contains(x)
            || x == r.tx by {
            assert(w.spec_queue(k2) == w1.spec_queue(k2));
            if x != r.tx {
                if next0 < r.keys@.len() && k2 == r.keys@[next0] {
                    assert(w1.spec_queue(k2) == w0.spec_queue(k2).filter(|y: u64| y != r.tx));
                    lemma_filter_subset(w0.spec_queue(k2), |y: u64| y != r.tx, x);
                } else {
                    assert(w1.spec_queue(k2) == w0.spec_queue(k2));
                }
            }
        }
    }
    StepOutcome::Done(g)
}

/// Two waiting transactions can never block on each other: whoever holds
/// the key another waits for acquired it in canonical order, so each held
/// key is smaller than its holder's wait key — a cycle would need a key
/// smaller than itself. Every acquisition path shares one canonical order
/// (`lemma_canonical_unique`), so this holds across call sites, whatever
/// order their callers listed the keys in.
pub proof fn lemma_no_circular_wait(
    t: ShardedLockTable,
    r1: AcquisitionRequest,
    r2: AcquisitionRequest,
)
    requires
        r1.tx != r2.tx,
        r1.wf(),
        r2.wf(),
        r1.next < r1.keys@.len(),
        r2.next < r2.keys@.len(),
        r1.holds_exact_prefix(t),
        r2.holds_exact_prefix(t),
        t.spec_holder(r1.wait_key()) == Some(r2.tx),
    ensures
        t.spec_holder(r2.wait_key()) != Some(r1.tx),
{
    if t.spec_holder(r2.wait_key()) == Some(r1.tx) {
        assert(among(r2.keys@, r2.next as int, r1.wait_key()));
        assert(among(r1.keys@, r1.next as int, r2.wait_key()));
        let j2 = choose|j: int| 0 <= j < r2.next && r2.keys@[j] == r1.wait_key();
        let j1 = choose|j: int| 0 <= j < r1.next && r1.keys@[j] == r2.wait_key();
        assert(r2.keys@[j2] < r2.keys@[r2.next as int]);
        assert(r1.keys@[j1] < r1.keys@[r1.next as int]);
    }
}

} // verus!
