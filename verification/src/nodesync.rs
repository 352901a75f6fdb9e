//! Certificate effect bookkeeping for node synchronization.
//!
//! A certificate's effect may be produced by the download path or by the
//! consensus path, racing each other. Both paths decide by whether the
//! effect exists, never by the pending flag alone, so the effect is stored
//! on every path — a failed consensus round retries instead of silently
//! dropping it.

use vstd::prelude::*;
use std::collections::HashMap;

verus! {

broadcast use vstd::std_specs::hash::group_hash_axioms;

/// A downloaded certificate.
#[derive(Clone, Copy, Debug, PartialEq, Eq, Structural)]
pub struct Certificate {
    /// The certificate's digest.
    pub digest: u64,
    /// Opaque payload identifier.
    pub data: u64,
}

/// The effect of executing a certificate.
#[derive(Clone, Copy, Debug, PartialEq, Eq, Structural)]
pub struct CertificateEffect {
    /// The certificate this effect belongs to.
    pub cert_digest: u64,
    /// The effect's own digest.
    pub effect_digest: u64,
}

/// Stores certificate effects, remembering insertion order.
pub struct NodeSyncStore {
    /// Effects by certificate digest.
    pub effects: HashMap<u64, CertificateEffect>,
    /// Certificate digests in first-stored order.
    pub order: Vec<u64>,
}

impl NodeSyncStore {
    /// The order log lists exactly the stored digests.
    pub open spec fn wf(self) -> bool {
        forall|x: u64| self.order@.contains(x) <==> self.effects@.dom().contains(x)
    }

    /// The effect stored for a certificate, if any.
    pub open spec fn spec_effect(self, cert: u64) -> Option<CertificateEffect> {
        if self.effects@.dom().contains(cert) {
            Some(self.effects@[cert])
        } else {
            None
        }
    }

    /// Build an empty store.
    pub fn new() -> (s: Self)
        ensures
            s.wf(),
            forall|x: u64| s.spec_effect(x) is None,
    {
        let s = NodeSyncStore { effects: HashMap::new(), order: Vec::new() };
        proof {
            assert(s.effects@.dom() =~= Set::empty());
        }
        s
    }

    /// Store an effect under its certificate digest.
    pub fn store_effect(&mut self, effect: CertificateEffect)
        requires
            old(self).wf(),
        ensures
            final(self).wf(),
            final(self).spec_effect(effect.cert_digest) == Some(effect),
            forall|x: u64|
                x != effect.cert_digest ==> #[trigger] final(self).spec_effect(x) == old(self).spec_effect(x),
    {
        let ghost pre = *self;
        if !self.effects.contains_key(&effect.cert_digest) {
            self.order.push(effect.cert_digest);
        }
        self.effects.insert(effect.cert_digest, effect);
        proof {
            assert forall|x: u64|
                self.order@.contains(x) <==> self.effects@.dom().contains(x) by {
                if x != effect.cert_digest {
                    assert(self.order@.contains(x) == pre.order@.contains(x)) by {
                        if pre.order@.contains(x) {
                            let j = choose|j: int|
                                0 <= j < pre.order@.len() && pre.order@[j] == x;
                            assert(self.order@[j] == x);
                        }
                        if self.order@.contains(x) {
                            let j = choose|j: int|
                                0 <= j < self.order@.len() && self.order@[j] == x;
                            assert(pre.order@[j] == x);
                        }
                    }
                } else {
                    if !pre.effects@.dom().contains(x) {
                        assert(self.order@[self.order@.len() - 1] == x);
                    } else {
                        assert(pre.order@.contains(x));
                        let j = choose|j: int| 0 <= j < pre.order@.len() && pre.order@[j] == x;
                        assert(self.order@[j] == x);
                    }
                }
            }
        }
    }

    /// Whether an effect is stored for the certificate.
    pub fn has_effect(&self, cert_digest: u64) -> (b: bool)
        ensures
            b == (self.spec_effect(cert_digest) is Some),
    {
        self.effects.contains_key(&cert_digest)
    }

    /// The stored certificate digests, in first-stored order.
    pub fn get_all_effects(&self) -> (r: Vec<u64>)
        ensures
            r@ == self.order@,
    {
        let mut out: Vec<u64> = Vec::new();
        let mut i: usize = 0;
        while i < self.order.len()
            invariant
                i <= self.order@.len(),
                out@ == self.order@.subrange(0, i as int),
            decreases self.order@.len() - i,
        {
            out.push(self.order[i]);
            proof {
                assert(out@ =~= self.order@.subrange(0, i + 1 as int));
            }
            i += 1;
        }
        proof {
            assert(out@ =~= self.order@);
        }
        out
    }
}

/// Certificates currently being downloaded or processed.
pub struct PendingCerts {
    /// Digests currently pending.
    pub pending: Vec<u64>,
}

impl PendingCerts {
    /// Whether the digest is pending.
    pub open spec fn spec_contains(self, digest: u64) -> bool {
        self.pending@.contains(digest)
    }

    /// Build an empty pending set.
    pub fn new() -> (p: Self)
        ensures
            forall|x: u64| !p.spec_contains(x),
    {
        let p = PendingCerts { pending: Vec::new() };
        proof {
            assert forall|x: u64| !p.spec_contains(x) by {
                if p.spec_contains(x) {
                    let j = choose|j: int| 0 <= j < p.pending@.len() && p.pending@[j] == x;
                }
            }
        }
        p
    }

    /// Mark a digest pending. Marking twice changes nothing.
    pub fn add(&mut self, digest: u64)
        ensures
            forall|x: u64|
                #[trigger] final(self).spec_contains(x) <==> (old(self).spec_contains(x) || x
                    == digest),
    {
        let ghost pre = self.pending@;
        let already = self.contains(digest);
        if !already {
            self.pending.push(digest);
        }
        proof {
            assert forall|x: u64|
                #[trigger] self.spec_contains(x) <==> (pre.contains(x) || x == digest) by {
                if already {
                } else {
                    if self.spec_contains(x) {
                        let j = choose|j: int|
                            0 <= j < self.pending@.len() && self.pending@[j] == x;
                        if j < pre.len() {
                            assert(pre.contains(x));
                        }
                    }
                    if pre.contains(x) {
                        let j = choose|j: int| 0 <= j < pre.len() && pre[j] == x;
                        assert(self.pending@[j] == x);
                    }
                    if x == digest {
                        assert(self.pending@[pre.len() as int] == x);
                    }
                }
            }
        }
    }

    /// Unmark a digest; reports whether it was pending.
    pub fn remove(&mut self, digest: u64) -> (was: bool)
        ensures
            was == old(self).spec_contains(digest),
            forall|x: u64|
                #[trigger] final(self).spec_contains(x) <==> (old(self).spec_contains(x) && x
                    != digest),
    {
        let was = self.contains(digest);
        let mut nq: Vec<u64> = Vec::new();
        let mut i: usize = 0;
        while i < self.pending.len()
            invariant
                i <= self.pending@.len(),
                forall|x: u64|
                    nq@.contains(x) <==> (self.pending@.subrange(0, i as int).contains(x) && x
                        != digest),
            decreases self.pending@.len() - i,
        {
            let ghost pren = nq@;
            let ghost ip1: int = i + 1;
            if self.pending[i] != digest {
                nq.push(self.pending[i]);
            }
            proof {
                assert forall|x: u64|
                    nq@.contains(x) <==> (self.pending@.subrange(0, ip1).contains(x) && x
                        != digest) by {
                    if nq@.contains(x) {
                        let j = choose|j: int| 0 <= j < nq@.len() && nq@[j] == x;
                        if j < pren.len() {
                            assert(pren.contains(x));
                            let j2 = choose|j2: int|
                                0 <= j2 < i && self.pending@.subrange(0, i as int)[j2] == x;
                            assert(self.pending@.subrange(0, ip1)[j2] == x);
                        } else {
                            assert(x == self.pending@[i as int]);
                            assert(self.pending@.subrange(0, ip1)[i as int] == x);
                        }
                    }
                    if self.pending@.subrange(0, ip1).contains(x) && x != digest {
                        let j = choose|j: int|
                            0 <= j < ip1 && self.pending@.subrange(0, ip1)[j] == x;
                        if j < i {
                            assert(self.pending@.subrange(0, i as int)[j] == x);
                            assert(pren.contains(x));
                            let j3 = choose|j3: int| 0 <= j3 < pren.len() && pren[j3] == x;
                            assert(nq@[j3] == x);
                        } else {
                            assert(x == self.pending@[i as int]);
                            assert(nq@[nq@.len() - 1] == x);
                        }
                    }
                }
            }
            i += 1;
        }
        proof {
            assert(self.pending@.subrange(0, self.pending@.len() as int) =~= self.pending@);
        }
        self.pending = nq;
        was
    }

    /// Whether the digest is pending.
    pub fn contains(&self, digest: u64) -> (b: bool)
        ensures
            b == self.spec_contains(digest),
    {
        let mut i: usize = 0;
        while i < self.pending.len()
            invariant
                i <= self.pending@.len(),
                forall|j: int| 0 <= j < i ==> self.pending@[j] != digest,
            decreases self.pending@.len() - i,
        {
            if self.pending[i] == digest {
                proof {
                    assert(self.pending@.contains(self.pending@[i as int]));
                }
                return true;
            }
            i += 1;
        }
        proof {
            if self.spec_contains(digest) {
                let j = choose|j: int|
                    0 <= j < self.pending@.len() && self.pending@[j] == digest;
            }
        }
        false
    }
}

/// The two racing paths that produce certificate effects.
pub struct NodeSyncState {
    /// Effect storage.
    pub store: NodeSyncStore,
    /// Certificates in flight.
    pub pending: PendingCerts,
}

impl NodeSyncState {
    /// Wire the store and the pending set together.
    pub fn new(store: NodeSyncStore, pending: PendingCerts) -> (s: Self)
        ensures
            s.store == store,
            s.pending == pending,
    {
        NodeSyncState { store, pending }
    }

    /// The download path: after the download completes, decide by effect
    /// existence — never by the pending flag — and store the effect if it
    /// is not there yet. Afterwards the effect exists and the certificate
    /// is no longer pending.
    pub fn download_and_sync(&mut self, cert_digest: u64)
        requires
            old(self).store.wf(),
        ensures
            final(self).store.wf(),
            final(self).store.spec_effect(cert_digest) is Some,
            !final(self).pending.spec_contains(cert_digest),
            forall|x: u64|
                x != cert_digest ==> #[trigger] final(self).store.spec_effect(x) == old(self).store.spec_effect(x),
            forall|x: u64|
                x != cert_digest ==> #[trigger] final(self).pending.spec_contains(x) == old(self).pending.spec_contains(x),
    {
        self.pending.add(cert_digest);
        // the download itself happens in the caller's runtime
        if self.store.has_effect(cert_digest) {
            self.pending.remove(cert_digest);
            return ;
        }
        self.store.store_effect(
            CertificateEffect { cert_digest, effect_digest: cert_digest },
        );
        self.pending.remove(cert_digest);
    }

    /// The consensus path: decide by effect existence, and on a failed
    /// round retry and store the effect anyway, so the effect is never
    /// lost between the two paths. Afterwards the effect exists and the
    /// certificate is no longer pending.
    pub fn process_from_consensus(&mut self, cert_digest: u64, should_fail: bool)
        requires
            old(self).store.wf(),
        ensures
            final(self).store.wf(),
            final(self).store.spec_effect(cert_digest) is Some,
            !final(self).pending.spec_contains(cert_digest),
            forall|x: u64|
                x != cert_digest ==> #[trigger] final(self).store.spec_effect(x) == old(self).store.spec_effect(x),
            forall|x: u64|
                x != cert_digest ==> #[trigger] final(self).pending.spec_contains(x) == old(self).pending.spec_contains(x),
    {
        if self.store.has_effect(cert_digest) {
            self.pending.remove(cert_digest);
            return ;
        }
        self.pending.remove(cert_digest);
        if should_fail {
            // the round failed: re-mark pending, store a retry effect, and
            // clear the mark — the effect is preserved either way
            self.pending.add(cert_digest);
            self.store.store_effect(
                CertificateEffect { cert_digest, effect_digest: cert_digest },
            );
            self.pending.remove(cert_digest);
            return ;
        }
        self.store.store_effect(
            CertificateEffect { cert_digest, effect_digest: cert_digest },
        );
    }
}

} // verus!
