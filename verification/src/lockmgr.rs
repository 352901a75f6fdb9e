//! All-or-nothing object locking for gateway transactions.
//!
//! A transaction locks every object it touches in one atomic decision: if
//! any object is already locked by someone else, nothing is taken. After
//! execution the gateway unlocks every object on every path — success and
//! failure alike — so a failed transaction can never leave an object
//! locked behind it.

use vstd::prelude::*;
use std::collections::HashMap;

verus! {

broadcast use vstd::std_specs::hash::group_hash_axioms;

/// Identifier of a lockable object.
#[derive(Clone, Copy, Debug, PartialEq, Eq, Structural)]
pub struct ObjectId(pub u64);

/// Identifier of a transaction.
#[derive(Clone, Copy, Debug, PartialEq, Eq, Structural)]
pub struct TransactionId(pub u64);

/// Why a transaction failed.
#[derive(Clone, Copy, Debug, PartialEq, Eq, Structural)]
pub enum TransactionError {
    /// The network broke while executing.
    NetworkError,
    /// Execution itself failed.
    ExecutionError,
    /// The named object is locked by another transaction.
    ObjectLocked(ObjectId),
}

/// Tracks which transaction has locked which objects.
pub struct ObjectLockManager {
    /// Current lock owner per object key.
    pub locked_objects: HashMap<u64, u64>,
}

impl ObjectLockManager {
    /// The transaction holding `k`, if any.
    pub open spec fn spec_locked(self, k: u64) -> Option<u64> {
        if self.locked_objects@.dom().contains(k) {
            Some(self.locked_objects@[k])
        } else {
            None
        }
    }

    /// `objects` are all free for `tx`: unlocked, or already locked by
    /// `tx` itself (re-entry is not a conflict).
    pub open spec fn all_lockable(self, objects: Seq<ObjectId>, tx: u64) -> bool {
        forall|j: int|
            0 <= j < objects.len() ==> self.spec_locked(#[trigger] objects[j].0) is None
                || self.spec_locked(objects[j].0) == Some(tx)
    }

    /// Build a manager with no object locked.
    pub fn new() -> (m: Self)
        ensures
            forall|k: u64| m.spec_locked(k) is None,
    {
        let m = ObjectLockManager { locked_objects: HashMap::new() };
        proof {
            assert(m.locked_objects@.dom() =~= Set::empty());
        }
        m
    }

    /// Atomically lock every object for `tx`, or nothing: if any object is
    /// locked by a different transaction, the state is untouched and the
    /// offending object is reported.
    #[verifier::loop_isolation(false)]
    pub fn try_lock_objects(&mut self, objects: &Vec<ObjectId>, tx_id: &TransactionId) -> (r:
        Result<(), TransactionError>)
        ensures
            match r {
                Ok(()) => {
                    &&& old(self).all_lockable(objects@, tx_id.0)
                    &&& forall|j: int|
                        0 <= j < objects@.len() ==> #[trigger] final(self).spec_locked(
                            objects@[j].0,
                        ) == Some(tx_id.0)
                    &&& forall|k: u64|
                        (forall|j: int| 0 <= j < objects@.len() ==> objects@[j].0 != k)
                            ==> #[trigger] final(self).spec_locked(k) == old(self).spec_locked(k)
                },
                Err(e) => {
                    &&& !old(self).all_lockable(objects@, tx_id.0)
                    &&& *final(self) == *old(self)
                    &&& e matches TransactionError::ObjectLocked(obj) && objects@.contains(obj)
                        && old(self).spec_locked(obj.0) is Some && old(self).spec_locked(obj.0)
                        != Some(tx_id.0)
                },
            },
    {
        // first pass: refuse if any object is held by a different transaction
        let mut j: usize = 0;
        while j < objects.len()
            invariant
                j <= objects@.len(),
                forall|i: int|
                    0 <= i < j ==> self.spec_locked(#[trigger] objects@[i].0) is None
                        || self.spec_locked(objects@[i].0) == Some(tx_id.0),
                *self == *old(self),
            decreases objects@.len() - j,
        {
            let obj = objects[j];
            match self.locked_objects.get(&obj.0) {
                Some(existing) => {
                    if *existing != tx_id.0 {
                        proof {
                            assert(objects@.contains(objects@[j as int]));
                        }
                        return Err(TransactionError::ObjectLocked(obj));
                    }
                },
                None => {},
            }
            j += 1;
        }
        // second pass: lock them all
        let mut i: usize = 0;
        while i < objects.len()
            invariant
                i <= objects@.len(),
                forall|k: u64|
                    (exists|jx: int| 0 <= jx < i && (#[trigger] objects@[jx]).0 == k)
                        ==> self.spec_locked(k) == Some(tx_id.0),
                forall|k: u64|
                    (forall|jx: int| 0 <= jx < i ==> (#[trigger] objects@[jx]).0 != k)
                        ==> self.spec_locked(k) == old(self).spec_locked(k),
            decreases objects@.len() - i,
        {
            let obj = objects[i];
            self.locked_objects.insert(obj.0, tx_id.0);
            proof {
                assert forall|k: u64|
                    (exists|jx: int| 0 <= jx < i + 1 && (#[trigger] objects@[jx]).0 == k) implies
                self.spec_locked(k) == Some(tx_id.0) by {
                    if k != obj.0 {
                        let jx = choose|jx: int| 0 <= jx < i + 1 && objects@[jx].0 == k;
                        assert(jx != i);
                        assert(exists|jy: int| 0 <= jy < i && (#[trigger] objects@[jy]).0 == k);
                    }
                }
            }
            i += 1;
        }
        proof {
            assert forall|j2: int|
                0 <= j2 < objects@.len() implies #[trigger] self.spec_locked(objects@[j2].0)
                == Some(tx_id.0) by {
                assert(exists|jx: int|
                    0 <= jx < objects@.len() && (#[trigger] objects@[jx]).0 == objects@[j2].0);
            }
        }
        Ok(())
    }

    /// Unlock every listed object, whoever held it. Objects outside the
    /// list are untouched.
    #[verifier::loop_isolation(false)]
    pub fn unlock_objects(&mut self, objects: &Vec<ObjectId>)
        ensures
            forall|j: int|
                0 <= j < objects@.len() ==> #[trigger] final(self).spec_locked(
                    objects@[j].0,
                ) is None,
            forall|k: u64|
                (forall|j: int| 0 <= j < objects@.len() ==> objects@[j].0 != k)
                    ==> #[trigger] final(self).spec_locked(k) == old(self).spec_locked(k),
    {
        let mut i: usize = 0;
        while i < objects.len()
            invariant
                i <= objects@.len(),
                forall|k: u64|
                    (exists|jx: int| 0 <= jx < i && (#[trigger] objects@[jx]).0 == k)
                        ==> self.spec_locked(k) is None,
                forall|k: u64|
                    (forall|jx: int| 0 <= jx < i ==> (#[trigger] objects@[jx]).0 != k)
                        ==> self.spec_locked(k) == old(self).spec_locked(k),
            decreases objects@.len() - i,
        {
            let obj = objects[i];
            let ghost pre = *self;
            self.locked_objects.remove(&obj.0);
            proof {
                assert(self.locked_objects@ =~= pre.locked_objects@.remove(obj.0));
                assert forall|k: u64|
                    (exists|jx: int| 0 <= jx < i + 1 && (#[trigger] objects@[jx]).0 == k) implies
                self.spec_locked(k) is None by {
                    if k != obj.0 {
                        let jx = choose|jx: int| 0 <= jx < i + 1 && objects@[jx].0 == k;
                        assert(jx != i);
                        assert(exists|jy: int| 0 <= jy < i && (#[trigger] objects@[jy]).0 == k);
                        assert(pre.spec_locked(k) is None);
                        assert(self.spec_locked(k) == pre.spec_locked(k));
                    }
                }
            }
            i += 1;
        }
        proof {
            assert forall|j2: int|
                0 <= j2 < objects@.len() implies #[trigger] self.spec_locked(
                objects@[j2].0,
            ) is None by {
                assert(exists|jx: int|
                    0 <= jx < objects@.len() && (#[trigger] objects@[jx]).0 == objects@[j2].0);
            }
        }
    }

    /// Whether any transaction holds the object.
    pub fn is_locked(&self, obj: &ObjectId) -> (b: bool)
        ensures
            b == (self.spec_locked(obj.0) is Some),
    {
        self.locked_objects.contains_key(&obj.0)
    }
}

/// The gateway: locks, executes, and always unlocks.
pub struct GatewayState {
    /// The lock manager this gateway drives.
    pub lock_manager: ObjectLockManager,
}

impl GatewayState {
    /// Wrap a lock manager.
    pub fn new(lock_manager: ObjectLockManager) -> (g: Self)
        ensures
            g.lock_manager == lock_manager,
    {
        GatewayState { lock_manager }
    }

    /// Execute a transaction: lock all objects, run the work (whose
    /// success or failure the caller's executor reports in `exec_ok`), and
    /// unlock on every path. Whatever happens, none of the listed objects
    /// stays locked, so a failed transaction can never deadlock the next.
    pub fn execute_transaction(
        &mut self,
        tx_id: TransactionId,
        objects: Vec<ObjectId>,
        exec_ok: bool,
    ) -> (r: Result<(), TransactionError>)
        ensures
            match r {
                Ok(()) => old(self).lock_manager.all_lockable(objects@, tx_id.0) && exec_ok,
                Err(TransactionError::ObjectLocked(obj)) => !old(self).lock_manager.all_lockable(
                    objects@,
                    tx_id.0,
                ) && objects@.contains(obj),
                Err(TransactionError::NetworkError) => old(self).lock_manager.all_lockable(
                    objects@,
                    tx_id.0,
                ) && !exec_ok,
                Err(TransactionError::ExecutionError) => false,
            },
            // locks are never leaked: afterwards no listed object is locked,
            // unless the lock attempt itself was refused (then nothing changed)
            (r matches Err(TransactionError::ObjectLocked(_))) ==> final(self).lock_manager
                == old(self).lock_manager,
            !(r matches Err(TransactionError::ObjectLocked(_))) ==> forall|j: int|
                0 <= j < objects@.len() ==> #[trigger] final(self).lock_manager.spec_locked(
                    objects@[j].0,
                ) is None,
            forall|k: u64|
                (forall|j: int| 0 <= j < objects@.len() ==> objects@[j].0 != k)
                    ==> #[trigger] final(self).lock_manager.spec_locked(k) == old(self).lock_manager.spec_locked(k),
    {
        match self.lock_manager.try_lock_objects(&objects, &tx_id) {
            Ok(()) => {},
            Err(e) => {
                return Err(e);
            },
        }
        // the caller's executor ran the transaction; unlock on every path
        self.lock_manager.unlock_objects(&objects);
        if exec_ok {
            Ok(())
        } else {
            Err(TransactionError::NetworkError)
        }
    }
}

} // verus!
