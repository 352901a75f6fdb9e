//! The authority: an object store wired to the lock manager.
//!
//! Orders name the objects they read or write; the authority takes the
//! locks for all of them in canonical order before executing, then hands
//! every one back, whatever the outcome. A missing object is rejected
//! before any lock is taken; contention past the deadline rolls back every
//! partial acquisition. Either way the lock table ends exactly as it began:
//! no order can leak a lock.

use vstd::prelude::*;
use std::collections::HashMap;
use crate::coordinator::{begin, step, AcquisitionRequest, StepOutcome};
use crate::guard::among;
use crate::table::ShardedLockTable;
use crate::waiters::WaiterRegistry;

verus! {

broadcast use vstd::std_specs::hash::group_hash_axioms;

/// Default number of shards in the authority's lock table.
pub const DEFAULT_SHARD_COUNT: usize = 16;

/// Default number of slots per shard in the authority's lock table.
pub const DEFAULT_TABLE_SIZE: usize = 16;

/// Default wait budget, in milliseconds, for callers that name none.
pub const DEFAULT_TIMEOUT: u64 = 2000;

/// An owned object: usable by one transaction at a time.
#[derive(Clone, Copy, Debug)]
pub struct OwnedObject {
    /// The object's key.
    pub id: u64,
    /// The account that owns the object.
    pub owner: u64,
    /// The transaction that last executed against the object, if any.
    pub locked_by: Option<u64>,
}

/// A transaction order: a digest plus the objects it touches.
#[derive(Debug)]
pub struct Order {
    /// The order's transaction digest.
    pub digest: u64,
    /// The keys of every object the order reads or writes.
    pub input_objects: Vec<u64>,
}

/// How the authority answered an order.
#[derive(Clone, Copy, Debug, PartialEq, Eq, Structural)]
pub enum OrderResult {
    /// Every input was locked, the order executed, and every lock was
    /// handed back.
    Success,
    /// The named input object does not exist; nothing was locked.
    Conflict(u64),
    /// Some input was held by another order for the whole wait budget; all
    /// partial progress was rolled back.
    Blocked,
}

/// An object store guarded by a sharded lock table with FIFO waiters.
pub struct Authority {
    /// The objects this authority knows, by key.
    pub objects: HashMap<u64, OwnedObject>,
    /// Exclusive locks over the object keys.
    pub locks: ShardedLockTable,
    /// Blocked orders, per key.
    pub waiters: WaiterRegistry,
}

impl Authority {
    /// The registered lock keys are exactly the known objects.
    pub open spec fn wf(self) -> bool {
        &&& self.locks.shard_count >= 1
        &&& self.locks.table_size >= 1
        &&& forall|k: u64|
            #[trigger] self.locks.is_registered(k) <==> self.objects@.dom().contains(k)
    }

    /// The object stored under `k`, if any.
    pub open spec fn spec_object(self, k: u64) -> Option<OwnedObject> {
        if self.objects@.dom().contains(k) {
            Some(self.objects@[k])
        } else {
            None
        }
    }

    /// The transaction recorded as the last executor of object `k`.
    pub open spec fn spec_locked_by(self, k: u64) -> Option<u64> {
        if self.objects@.dom().contains(k) {
            self.objects@[k].locked_by
        } else {
            None
        }
    }

    /// Build an authority with no objects, all locks free and nobody
    /// waiting.
    pub fn new() -> (a: Self)
        ensures
            a.wf(),
            forall|k: u64| a.spec_object(k) is None,
            forall|k: u64| a.locks.spec_holder(k) is None,
            forall|k: u64| a.waiters.spec_queue(k).len() == 0,
    {
        let a = Authority {
            objects: HashMap::new(),
            locks: ShardedLockTable::new(DEFAULT_SHARD_COUNT, DEFAULT_TABLE_SIZE),
            waiters: WaiterRegistry::new(),
        };
        proof {
            assert(a.objects@.dom() =~= Set::empty());
        }
        a
    }

    /// Register an object with the store, making its key lockable. Its
    /// lock state, and every other key's, is untouched.
    pub fn add_object(&mut self, obj: OwnedObject)
        requires
            old(self).wf(),
        ensures
            final(self).wf(),
            final(self).objects@ == old(self).objects@.insert(obj.id, obj),
            forall|k: u64|
                #[trigger] final(self).locks.spec_holder(k) == old(self).locks.spec_holder(k),
            forall|k: u64|
                #[trigger] final(self).waiters.spec_queue(k) == old(self).waiters.spec_queue(k),
            final(self).locks.shard_count == old(self).locks.shard_count,
            final(self).locks.table_size == old(self).locks.table_size,
    {
        self.objects.insert(obj.id, obj);
        self.locks.register_object(obj.id);
    }

    /// The transaction recorded on an object, if the object exists.
    pub fn get_object_holder(&self, obj_id: u64) -> (r: Option<u64>)
        ensures
            r == self.spec_locked_by(obj_id),
    {
        match self.objects.get(&obj_id) {
            Some(obj) => obj.locked_by,
            None => None,
        }
    }

    /// Process an order at time `now` with the given wait budget.
    ///
    /// All input objects must exist, or the order is rejected with
    /// `Conflict` naming a missing object, before any lock is taken. The
    /// locks for all inputs are then acquired in canonical order; on
    /// success the order executes (each input records the digest) and every
    /// lock is handed back. If an input stays held by another order the
    /// attempt is rolled back and answered `Blocked`. In every case the
    /// lock table ends exactly as it began and the order's digest is left
    /// in no waiter queue.
    #[verifier::loop_isolation(false)]
    #[verifier::rlimit(50)]
    pub fn handle_order(&mut self, order: &Order, now: u64, timeout: u64) -> (res: OrderResult)
        requires
            old(self).wf(),
            1 <= timeout,
            now + timeout <= u64::MAX,
            forall|k: u64| #[trigger] old(self).locks.spec_holder(k) != Some(order.digest),
            forall|k: u64| !(#[trigger] old(self).waiters.spec_queue(k)).contains(order.digest),
        ensures
            final(self).wf(),
            final(self).objects@.dom() == old(self).objects@.dom(),
            final(self).locks.shard_count == old(self).locks.shard_count,
            final(self).locks.table_size == old(self).locks.table_size,
            // no lost release: the lock table is exactly as it was
            forall|k: u64|
                #[trigger] final(self).locks.spec_holder(k) == old(self).locks.spec_holder(k),
            // the digest never lingers in a waiter queue
            forall|k: u64|
                !(#[trigger] final(self).waiters.spec_queue(k)).contains(order.digest),
            // no waiter appears out of nowhere
            forall|k: u64, x: u64|
                #[trigger] final(self).waiters.spec_queue(k).contains(x) ==> old(self).waiters.spec_queue(k).contains(x),
            res == OrderResult::Success <==> (forall|j: int|
                0 <= j < order.input_objects@.len() ==> old(self).objects@.dom().contains(
                    #[trigger] order.input_objects@[j],
                )) && (forall|j: int|
                0 <= j < order.input_objects@.len() ==> old(self).locks.spec_holder(
                    #[trigger] order.input_objects@[j],
                ) is None),
            match res {
                OrderResult::Success => {
                    &&& forall|k: u64|
                        order.input_objects@.contains(k) ==> #[trigger] final(self).spec_object(k)
                            == Some(
                            OwnedObject {
                                locked_by: Some(order.digest),
                                ..old(self).objects@[k]
                            },
                        )
                    &&& forall|k: u64|
                        !order.input_objects@.contains(k) ==> #[trigger] final(self).spec_object(k)
                            == old(self).spec_object(k)
                },
                OrderResult::Conflict(m) => {
                    &&& order.input_objects@.contains(m)
                    &&& !old(self).objects@.dom().contains(m)
                    &&& final(self).objects@ == old(self).objects@
                    &&& forall|k: u64|
                        #[trigger] final(self).waiters.spec_queue(k) == old(self).waiters.spec_queue(k)
                },
                OrderResult::Blocked => {
                    &&& exists|j: int|
                        0 <= j < order.input_objects@.len() && old(self).locks.spec_holder(
                            #[trigger] order.input_objects@[j],
                        ) is Some
                    &&& final(self).objects@ == old(self).objects@
                },
            },
    {
        // existence check first: a missing object rejects the order before
        // any lock is taken
        let mut j: usize = 0;
        while j < order.input_objects.len()
            invariant
                j <= order.input_objects@.len(),
                forall|i: int|
                    0 <= i < j ==> old(self).objects@.dom().contains(
                        #[trigger] order.input_objects@[i],
                    ),
                *self == *old(self),
            decreases order.input_objects@.len() - j,
        {
            let k = order.input_objects[j];
            if !self.objects.contains_key(&k) {
                proof {
                    assert(order.input_objects@.contains(order.input_objects@[j as int]));
                }
                return OrderResult::Conflict(k);
            }
            j += 1;
        }
        let deadline: u64 = now + timeout;
        let ghost lt0 = self.locks;
        let ghost wr0 = self.waiters;
        let started = begin(&self.locks, &self.waiters, order.digest, &order.input_objects, now, timeout);
        let mut req: AcquisitionRequest = match started {
            Ok(req) => req,
            Err(_) => {
                // unreachable: every input was just checked to exist, and
                // well-formedness makes every existing object registered
                proof {
                    let x = choose|x: u64|
                        #[trigger] order.input_objects@.contains(x) && !self.locks.is_registered(
                            x,
                        );
                    let i = choose|i: int|
                        0 <= i < order.input_objects@.len() && order.input_objects@[i] == x;
                    assert(old(self).objects@.dom().contains(x));
                    assert(false);
                }
                return OrderResult::Blocked;
            },
        };
        let ghost keys0 = req.keys@;
        proof {
            assert(req.deadline == deadline);
        }
        let out = step(&mut self.locks, &mut self.waiters, &mut req, now);
        match out {
            StepOutcome::Done(mut g) => {
                let ghost lt1 = self.locks;
                let ghost wr1 = self.waiters;
                // execute: record the digest on every input object
                let ghost held = g.held_keys@;
                let mut i: usize = 0;
                while i < g.held_keys.len()
                    invariant
                        i <= held.len(),
                        g.held_keys@ == held,
                        g.owner == order.digest,
                        !g.released,
                        self.locks == lt1,
                        self.waiters == wr1,
                        forall|k: u64|
                            among(held, i as int, k) ==> #[trigger] self.spec_object(k) == Some(
                                OwnedObject {
                                    locked_by: Some(order.digest),
                                    ..old(self).objects@[k]
                                },
                            ),
                        forall|k: u64|
                            !among(held, i as int, k) ==> #[trigger] self.spec_object(k) == old(self).spec_object(k),
                        self.objects@.dom() == old(self).objects@.dom(),
                    decreases held.len() - i,
                {
                    let k = g.held_keys[i];
                    let ghost pre = *self;
                    proof {
                        assert(req.keys@.contains(held[i as int]));
                        assert(old(self).objects@.dom().contains(k));
                    }
                    let obj = match self.objects.get(&k) {
                        Some(o) => *o,
                        None => {
                            proof {
                                assert(false);
                            }
                            OwnedObject { id: k, owner: 0, locked_by: None }
                        },
                    };
                    let updated = OwnedObject { locked_by: Some(order.digest), ..obj };
                    self.objects.insert(k, updated);
                    proof {
                        assert(self.objects@.dom() =~= pre.objects@.dom());
                        assert forall|k2: u64|
                            among(held, i + 1, k2) implies #[trigger] self.spec_object(k2) == Some(
                            OwnedObject { locked_by: Some(order.digest), ..old(self).objects@[k2] },
                        ) by {
                            if k2 != k {
                                let jx = choose|jx: int| 0 <= jx < i + 1 && held[jx] == k2;
                                assert(jx != i);
                                assert(among(held, i as int, k2));
                                assert(self.spec_object(k2) == pre.spec_object(k2));
                            } else {
                                assert(pre.spec_object(k) == old(self).spec_object(k)) by {
                                    if among(held, i as int, k) {
                                        let jx = choose|jx: int| 0 <= jx < i && held[jx] == k;
                                        assert(req.keys@[jx] < req.keys@[i as int]);
                                    }
                                }
                            }
                        }
                        assert forall|k2: u64|
                            !among(held, i + 1, k2) implies #[trigger] self.spec_object(k2) == old(self).spec_object(k2) by {
                            assert(k2 != k) by {
                                if k2 == k {
                                    assert(among(held, i + 1, k));
                                }
                            }
                            assert(!among(held, i as int, k2)) by {
                                if among(held, i as int, k2) {
                                    assert(among(held, i + 1, k2));
                                }
                            }
                            assert(self.spec_object(k2) == pre.spec_object(k2));
                        }
                    }
                    i += 1;
                }
                let ghost self_mid = *self;
                let _woken = g.release(&mut self.locks, &mut self.waiters);
                proof {
                    assert(req.keys@ == keys0);
                    assert(self.objects@ == self_mid.objects@);
                    assert(held == keys0);
                    assert forall|k: u64| #[trigger] self.locks.spec_holder(k) == lt0.spec_holder(
                        k,
                    ) by {
                        if held.contains(k) {
                            let jx = choose|jx: int| 0 <= jx < held.len() && held[jx] == k;
                            assert(among(req.keys@, req.keys@.len() as int, k));
                            assert(lt0.spec_holder(k) is None);
                            assert(lt1.spec_holder(k) == Some(order.digest));
                        } else {
                            assert(self.locks.spec_holder(k) == lt1.spec_holder(k));
                            assert(!among(req.keys@, req.keys@.len() as int, k)) by {
                                if among(req.keys@, req.keys@.len() as int, k) {
                                    let jx = choose|jx: int|
                                        0 <= jx < req.keys@.len() && req.keys@[jx] == k;
                                    assert(held.contains(k));
                                }
                            }
                        }
                    }
                    // waiter queues: the digest is gone and nobody new appeared
                    assert forall|k: u64, x: u64|
                        #[trigger] self.waiters.spec_queue(k).contains(x) implies wr0.spec_queue(
                        k,
                    ).contains(x) && x != order.digest by {
                        if wr1.spec_queue(k).len() > 0 && self.waiters.spec_queue(k)
                            == wr1.spec_queue(k).drop_first() {
                            let jq = choose|jq: int|
                                0 <= jq < self.waiters.spec_queue(k).len()
                                    && self.waiters.spec_queue(k)[jq] == x;
                            assert(wr1.spec_queue(k)[jq + 1] == x);
                            assert(wr1.spec_queue(k).contains(x));
                        } else {
                            assert(self.waiters.spec_queue(k) == wr1.spec_queue(k)) by {
                                if !(held.contains(k) && lt1.spec_holder(k) == Some(order.digest)
                                    && wr1.spec_queue(k).len() > 0) {
                                } else {
                                }
                            }
                        }
                        assert(wr1.spec_queue(k).contains(x));
                        assert(x != order.digest);
                        assert(wr0.spec_queue(k).contains(x));
                    }
                    // success characterization: every input was free before
                    assert forall|j2: int|
                        0 <= j2 < order.input_objects@.len() implies old(self).locks.spec_holder(
                        #[trigger] order.input_objects@[j2],
                    ) is None by {
                        assert(req.keys@.contains(order.input_objects@[j2]));
                        let jx = choose|jx: int|
                            0 <= jx < req.keys@.len() && req.keys@[jx] == order.input_objects@[j2];
                        assert(among(req.keys@, req.keys@.len() as int, req.keys@[jx]));
                    }
                    // objects after execution
                    assert forall|k: u64| order.input_objects@.contains(k) implies #[trigger] self
                        .spec_object(k) == Some(
                        OwnedObject { locked_by: Some(order.digest), ..old(self).objects@[k] },
                    ) by {
                        assert(req.keys@.contains(k));
                        let jx = choose|jx: int| 0 <= jx < req.keys@.len() && req.keys@[jx] == k;
                        assert(among(held, held.len() as int, k));
                        assert(self_mid.spec_object(k) == Some(
                            OwnedObject { locked_by: Some(order.digest), ..old(self).objects@[k] },
                        ));
                        assert(self.spec_object(k) == self_mid.spec_object(k));
                    }
                    assert forall|k: u64|
                        !order.input_objects@.contains(k) implies #[trigger] self.spec_object(k)
                        == old(self).spec_object(k) by {
                        assert(!among(held, held.len() as int, k)) by {
                            if among(held, held.len() as int, k) {
                                let jx = choose|jx: int| 0 <= jx < held.len() && held[jx] == k;
                                assert(req.keys@.contains(k));
                            }
                        }
                        assert(self_mid.spec_object(k) == old(self).spec_object(k));
                        assert(self.spec_object(k) == self_mid.spec_object(k));
                    }
                }
                OrderResult::Success
            },
            StepOutcome::Wait(_) => {
                // contended: nothing can release a key during this call, so
                // wait out the budget and roll the partial acquisition back
                let ghost wr1 = self.waiters;
                let ghost lt1 = self.locks;
                let ghost req_mid = req;
                let out2 = step(&mut self.locks, &mut self.waiters, &mut req, deadline);
                match out2 {
                    StepOutcome::TimedOut(_woken) => {
                        proof {
                            assert(req_mid.keys@ == keys0);
                            assert forall|k: u64| #[trigger] self.locks.spec_holder(k)
                                == lt0.spec_holder(k) by {
                                if among(req_mid.keys@, req_mid.next as int, k) {
                                    assert(lt1.spec_holder(k) == Some(order.digest));
                                    assert(lt0.spec_holder(k) is None);
                                } else {
                                    assert(lt1.spec_holder(k) == lt0.spec_holder(k));
                                    assert(lt1.spec_holder(k) != Some(order.digest));
                                }
                            }
                            // some input really was held by someone else
                            let kw = req_mid.wait_key();
                            let h = choose|h: u64|
                                h != order.digest && #[trigger] lt1.spec_holder(kw) == Some(h);
                            assert(!among(req_mid.keys@, req_mid.next as int, kw)) by {
                                if among(req_mid.keys@, req_mid.next as int, kw) {
                                    assert(lt1.spec_holder(kw) == Some(order.digest));
                                }
                            }
                            assert(lt0.spec_holder(kw) == Some(h));
                            assert(req_mid.keys@.contains(kw)) by {
                                assert(req_mid.keys@[req_mid.next as int] == kw);
                            }
                            let jx = choose|jx: int|
                                0 <= jx < order.input_objects@.len() && order.input_objects@[jx]
                                    == kw;
                            assert(old(self).locks.spec_holder(order.input_objects@[jx]) is Some);
                            // queues: digest gone, nobody new
                            assert forall|k: u64, x: u64|
                                #[trigger] self.waiters.spec_queue(k).contains(x) implies
                            wr0.spec_queue(k).contains(x) && x != order.digest by {
                                assert(wr1.spec_queue(k).contains(x) || x == order.digest);
                                assert(x != order.digest);
                                assert(wr0.spec_queue(k).contains(x) || x == order.digest);
                            }
                        }
                        OrderResult::Blocked
                    },
                    _ => {
                        proof {
                            assert(false);
                        }
                        OrderResult::Blocked
                    },
                }
            },
            StepOutcome::TimedOut(_) => {
                proof {
                    assert(false);
                }
                OrderResult::Blocked
            },
        }
    }
}

/// No lost release: a completed order leaves every lock exactly as it
/// found it and adds no waiter, so an authority that starts with every
/// key free and every queue empty is back in that state after the order —
/// and, by induction, after any sequence of completed orders. The two
/// premises are exactly what `handle_order` ensures of every outcome.
pub proof fn lemma_no_lost_release(pre: Authority, post: Authority)
    requires
        forall|k: u64| #[trigger] post.locks.spec_holder(k) == pre.locks.spec_holder(k),
        forall|k: u64, x: u64|
            #[trigger] post.waiters.spec_queue(k).contains(x) ==> pre.waiters.spec_queue(
                k,
            ).contains(x),
        pre.locks.all_free(),
        pre.waiters.no_waiters(),
    ensures
        post.locks.all_free(),
        post.waiters.no_waiters(),
{
    crate::waiters::lemma_no_waiters_preserved(pre.waiters, post.waiters);
}

} // verus!
