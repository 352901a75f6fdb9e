//! Versioned gas objects and the processor that spends them.
//!
//! A transaction request names the exact gas object version it was built
//! against. The processor executes only against that version: a request
//! whose version no longer matches fails loudly instead of silently
//! spending a newer object, so the same request always gives the same
//! result.

use vstd::prelude::*;
use std::collections::HashMap;

verus! {

broadcast use vstd::std_specs::hash::group_hash_axioms;

/// A gas object with version tracking.
#[derive(Clone, Copy, Debug, PartialEq, Eq, Structural)]
pub struct GasObject {
    /// The object's key.
    pub id: u64,
    /// Bumped on every update.
    pub version: u64,
    /// Remaining balance.
    pub balance: u64,
}

/// A transaction request pinned to a gas object version.
#[derive(Clone, Copy, Debug, PartialEq, Eq, Structural)]
pub struct TransactionRequest {
    /// The request's digest.
    pub digest: u64,
    /// The gas object to spend from.
    pub gas_object_id: u64,
    /// The gas object version the request was built against.
    pub gas_version: u64,
    /// How much gas the request needs.
    pub gas_required: u64,
}

/// Store of the latest version of each object.
pub struct ObjectStore {
    /// The objects by key.
    pub objects: HashMap<u64, GasObject>,
}

impl ObjectStore {
    /// The stored object under `id`, if any.
    pub open spec fn spec_get(self, id: u64) -> Option<GasObject> {
        if self.objects@.dom().contains(id) {
            Some(self.objects@[id])
        } else {
            None
        }
    }

    /// Build an empty store.
    pub fn new() -> (s: Self)
        ensures
            forall|id: u64| s.spec_get(id) is None,
    {
        let s = ObjectStore { objects: HashMap::new() };
        proof {
            assert(s.objects@.dom() =~= Set::empty());
        }
        s
    }

    /// Store an object under its key, replacing any previous version.
    pub fn insert(&mut self, obj: GasObject)
        ensures
            final(self).spec_get(obj.id) == Some(obj),
            forall|id: u64|
                id != obj.id ==> #[trigger] final(self).spec_get(id) == old(self).spec_get(id),
    {
        self.objects.insert(obj.id, obj);
    }

    /// The latest version of the object, if it exists.
    pub fn get_latest(&self, id: u64) -> (r: Option<GasObject>)
        ensures
            r == self.spec_get(id),
    {
        match self.objects.get(&id) {
            Some(o) => Some(*o),
            None => None,
        }
    }

    /// The object only if it currently sits at exactly `version`.
    pub fn get_at_version(&self, id: u64, version: u64) -> (r: Option<GasObject>)
        ensures
            match self.spec_get(id) {
                Some(o) => r == if o.version == version {
                    Some(o)
                } else {
                    None::<GasObject>
                },
                None => r is None,
            },
    {
        match self.objects.get(&id) {
            Some(o) => {
                if o.version == version {
                    Some(*o)
                } else {
                    None
                }
            },
            None => None,
        }
    }

    /// Set a new balance, bumping the version; returns the updated object,
    /// or `None` (leaving the store untouched) if the key is unknown.
    pub fn update(&mut self, id: u64, new_balance: u64) -> (r: Option<GasObject>)
        requires
            old(self).spec_get(id) matches Some(o) ==> o.version < u64::MAX,
        ensures
            match old(self).spec_get(id) {
                Some(o) => {
                    &&& r == Some(
                        GasObject { id: o.id, version: (o.version + 1) as u64, balance: new_balance },
                    )
                    &&& final(self).spec_get(id) == r
                },
                None => r is None && *final(self) == *old(self),
            },
            forall|id2: u64|
                id2 != id ==> #[trigger] final(self).spec_get(id2) == old(self).spec_get(id2),
    {
        let cur = match self.objects.get(&id) {
            Some(o) => *o,
            None => {
                return None;
            },
        };
        let updated = GasObject { id: cur.id, version: cur.version + 1, balance: new_balance };
        self.objects.insert(id, updated);
        Some(updated)
    }
}

/// What failed for a request.
#[derive(Clone, Copy, Debug, PartialEq, Eq, Structural)]
pub enum ExecFailure {
    /// The named gas object does not exist.
    GasObjectNotFound,
    /// The store has moved past the requested version.
    VersionMismatch,
    /// The gas object's balance cannot cover the request.
    InsufficientGas,
}

/// The recorded outcome of one request.
#[derive(Clone, Copy, Debug, PartialEq, Eq, Structural)]
pub struct TransactionResult {
    /// The request's digest.
    pub digest: u64,
    /// Whether the request executed.
    pub success: bool,
    /// Gas actually deducted.
    pub gas_used: u64,
    /// The gas object version the execution saw.
    pub gas_version_used: u64,
    /// Why the request failed, when it did.
    pub error: Option<ExecFailure>,
}

/// Executes requests against the store, recording one result each.
pub struct TransactionProcessor {
    /// The object store being spent from.
    pub store: ObjectStore,
    /// One entry per executed request, in execution order.
    pub results: Vec<TransactionResult>,
}

impl TransactionProcessor {
    /// The result that `execute` records for `request` against store state
    /// `store`.
    pub open spec fn spec_outcome(store: ObjectStore, request: TransactionRequest)
        -> TransactionResult {
        match store.spec_get(request.gas_object_id) {
            None => TransactionResult {
                digest: request.digest,
                success: false,
                gas_used: 0,
                gas_version_used: request.gas_version,
                error: Some(ExecFailure::GasObjectNotFound),
            },
            Some(o) => {
                if o.version != request.gas_version {
                    TransactionResult {
                        digest: request.digest,
                        success: false,
                        gas_used: 0,
                        gas_version_used: request.gas_version,
                        error: Some(ExecFailure::VersionMismatch),
                    }
                } else if o.balance < request.gas_required {
                    TransactionResult {
                        digest: request.digest,
                        success: false,
                        gas_used: 0,
                        gas_version_used: o.version,
                        error: Some(ExecFailure::InsufficientGas),
                    }
                } else {
                    TransactionResult {
                        digest: request.digest,
                        success: true,
                        gas_used: request.gas_required,
                        gas_version_used: o.version,
                        error: None,
                    }
                }
            },
        }
    }

    /// Wrap a store with an empty result log.
    pub fn new(store: ObjectStore) -> (p: Self)
        ensures
            p.store == store,
            p.results@.len() == 0,
    {
        TransactionProcessor { store, results: Vec::new() }
    }

    /// Execute a request against exactly its requested gas version.
    ///
    /// A missing object, a version that has moved on, or an insufficient
    /// balance fails the request and leaves the store untouched. Otherwise
    /// the gas is deducted and the object's version bumped. Exactly one
    /// result is recorded either way.
    pub fn execute(&mut self, request: &TransactionRequest)
        requires
            old(self).store.spec_get(request.gas_object_id) matches Some(o) ==> o.version
                < u64::MAX,
        ensures
            final(self).results@ == old(self).results@.push(
                TransactionProcessor::spec_outcome(old(self).store, *request),
            ),
            TransactionProcessor::spec_outcome(old(self).store, *request).success ==> {
                &&& old(self).store.spec_get(request.gas_object_id) matches Some(o)
                    && final(self).store.spec_get(request.gas_object_id) == Some(
                    GasObject {
                        id: o.id,
                        version: (o.version + 1) as u64,
                        balance: (o.balance - request.gas_required) as u64,
                    },
                )
            },
            !TransactionProcessor::spec_outcome(old(self).store, *request).success ==> final(self).store == old(self).store,
            forall|id: u64|
                id != request.gas_object_id ==> #[trigger] final(self).store.spec_get(id) == old(self).store.spec_get(id),
    {
        let gas_obj = match self.store.get_at_version(request.gas_object_id, request.gas_version) {
            Some(obj) => obj,
            None => {
                let latest = self.store.get_latest(request.gas_object_id);
                let failure = match latest {
                    Some(_) => ExecFailure::VersionMismatch,
                    None => ExecFailure::GasObjectNotFound,
                };
                self.record_result(
                    TransactionResult {
                        digest: request.digest,
                        success: false,
                        gas_used: 0,
                        gas_version_used: request.gas_version,
                        error: Some(failure),
                    },
                );
                return ;
            },
        };
        if gas_obj.balance < request.gas_required {
            self.record_result(
                TransactionResult {
                    digest: request.digest,
                    success: false,
                    gas_used: 0,
                    gas_version_used: gas_obj.version,
                    error: Some(ExecFailure::InsufficientGas),
                },
            );
            return ;
        }
        let new_balance = gas_obj.balance - request.gas_required;
        let _updated = self.store.update(request.gas_object_id, new_balance);
        self.record_result(
            TransactionResult {
                digest: request.digest,
                success: true,
                gas_used: request.gas_required,
                gas_version_used: gas_obj.version,
                error: None,
            },
        );
    }

    /// Append a result to the log.
    pub fn record_result(&mut self, result: TransactionResult)
        ensures
            final(self).results@ == old(self).results@.push(result),
            final(self).store == old(self).store,
    {
        self.results.push(result);
    }

    /// A copy of the result log, in execution order.
    pub fn get_results(&self) -> (r: Vec<TransactionResult>)
        ensures
            r@ == self.results@,
    {
        let mut out: Vec<TransactionResult> = Vec::new();
        let mut i: usize = 0;
        while i < self.results.len()
            invariant
                i <= self.results@.len(),
                out@ == self.results@.subrange(0, i as int),
            decreases self.results@.len() - i,
        {
            out.push(self.results[i]);
            proof {
                assert(out@ =~= self.results@.subrange(0, i + 1 as int));
            }
            i += 1;
        }
        proof {
            assert(out@ =~= self.results@);
        }
        out
    }
}

} // verus!
