//! Certificate processing with an unbounded dependency queue.
//!
//! A certificate whose parent is not yet processed is queued — the queue
//! never refuses an entry, so a deep ancestry chain cannot wedge the
//! system against a full queue — and its ancestor chain is fetched and
//! processed down to the first already-processed ancestor.

use vstd::prelude::*;

verus! {

/// A certificate and its parent dependency.
#[derive(Clone, Copy, Debug, PartialEq, Eq, Structural)]
pub struct Certificate {
    /// The certificate's identifier.
    pub id: u64,
    /// The parent certificate that must be processed first, if any.
    pub parent_id: Option<u64>,
}

/// Termination measure for chasing a certificate's ancestry.
pub open spec fn cert_rank(c: Certificate) -> int {
    match c.parent_id {
        Some(p) => p + 1,
        None => 0,
    }
}

/// Processes certificates, queueing those that wait for a parent.
pub struct CertificateWaiter {
    /// Certificates waiting for their parent, in arrival order. Unbounded:
    /// queueing never blocks or refuses.
    pub queue: Vec<Certificate>,
    /// Identifiers of processed certificates.
    pub processed: Vec<u64>,
    /// How many queued certificates await consumption.
    pub pending_count: usize,
}

impl CertificateWaiter {
    /// The pending counter mirrors the queue.
    pub open spec fn wf(self) -> bool {
        self.pending_count == self.queue@.len()
    }

    /// Whether a certificate has been processed.
    pub open spec fn spec_processed(self, id: u64) -> bool {
        self.processed@.contains(id)
    }

    /// Build an empty waiter.
    pub fn new() -> (w: Self)
        ensures
            w.wf(),
            w.queue@.len() == 0,
            w.processed@.len() == 0,
    {
        CertificateWaiter { queue: Vec::new(), processed: Vec::new(), pending_count: 0 }
    }

    /// Whether a certificate has been processed.
    pub fn is_processed(&self, id: u64) -> (b: bool)
        ensures
            b == self.spec_processed(id),
    {
        let mut i: usize = 0;
        while i < self.processed.len()
            invariant
                i <= self.processed@.len(),
                forall|j: int| 0 <= j < i ==> self.processed@[j] != id,
            decreases self.processed@.len() - i,
        {
            if self.processed[i] == id {
                proof {
                    assert(self.processed@.contains(self.processed@[i as int]));
                }
                return true;
            }
            i += 1;
        }
        proof {
            if self.spec_processed(id) {
                let j = choose|j: int|
                    0 <= j < self.processed@.len() && self.processed@[j] == id;
            }
        }
        false
    }

    /// Process a certificate. One whose parent is processed (or absent) is
    /// marked processed at once. Otherwise it is queued — the queue always
    /// has room — and its ancestor chain is fetched and processed until an
    /// already-processed ancestor (or the root) is reached, so progress is
    /// made even for deep chains. Earlier queue entries are never touched,
    /// and nothing already processed is forgotten.
    pub fn process_certificate(&mut self, cert: Certificate) -> (r: bool)
        requires
            old(self).wf(),
        ensures
            r,
            final(self).wf(),
            old(self).queue@.len() <= final(self).queue@.len(),
            final(self).queue@.subrange(0, old(self).queue@.len() as int) == old(self).queue@,
            forall|x: u64|
                old(self).spec_processed(x) ==> #[trigger] final(self).spec_processed(x),
            final(self).processed@.len() > old(self).processed@.len(),
            match cert.parent_id {
                None => final(self).spec_processed(cert.id) && final(self).queue@ == old(
                    self,
                ).queue@,
                Some(p) => {
                    &&& (old(self).spec_processed(p) ==> final(self).spec_processed(cert.id)
                        && final(self).queue@ == old(self).queue@)
                    &&& (!old(self).spec_processed(p) ==> final(self).queue@[old(
                        self,
                    ).queue@.len() as int] == cert && final(self).processed@.len() > old(
                        self,
                    ).processed@.len())
                },
            },
        decreases cert_rank(cert), 1int,
    {
        match cert.parent_id {
            Some(parent_id) => {
                if !self.is_processed(parent_id) {
                    let ghost pre = *self;
                    self.queue.push(cert);
                    self.pending_count = self.queue.len();
                    self.fetch_parent(parent_id);
                    proof {
                        assert(self.queue@.subrange(0, pre.queue@.len() as int + 1).subrange(
                            0,
                            pre.queue@.len() as int,
                        ) =~= self.queue@.subrange(0, pre.queue@.len() as int));
                        assert(self.queue@.subrange(0, pre.queue@.len() as int + 1)[pre.queue@.len() as int]
                            == cert);
                        assert(pre.queue@.push(cert).subrange(0, pre.queue@.len() as int)
                            =~= pre.queue@);
                    }
                    return true;
                }
            },
            None => {},
        }
        let ghost pre = *self;
        self.processed.push(cert.id);
        proof {
            assert(self.processed@[pre.processed@.len() as int] == cert.id);
            assert forall|x: u64|
                pre.spec_processed(x) implies #[trigger] self.spec_processed(x) by {
                let j = choose|j: int|
                    0 <= j < pre.processed@.len() && pre.processed@[j] == x;
                assert(self.processed@[j] == x);
            }
            assert(self.queue@.subrange(0, self.queue@.len() as int) =~= self.queue@);
        }
        true
    }

    /// Fetch a missing parent and process it, recursively walking up the
    /// ancestry: parent `p` depends on `p - 1`, down to the root.
    pub fn fetch_parent(&mut self, parent_id: u64)
        requires
            old(self).wf(),
        ensures
            final(self).wf(),
            old(self).queue@.len() <= final(self).queue@.len(),
            final(self).queue@.subrange(0, old(self).queue@.len() as int) == old(self).queue@,
            forall|x: u64|
                old(self).spec_processed(x) ==> #[trigger] final(self).spec_processed(x),
            final(self).processed@.len() > old(self).processed@.len(),
        decreases parent_id + 1, 0int,
    {
        let grandparent: Option<u64> = if parent_id > 1 {
            Some(parent_id - 1)
        } else {
            None
        };
        let parent_cert = Certificate { id: parent_id, parent_id: grandparent };
        let _ = self.process_certificate(parent_cert);
    }

    /// Take the oldest queued certificate and process it again; its parent
    /// may have been processed meanwhile. Reports whether a certificate
    /// was consumed.
    pub fn consume_one(&mut self) -> (consumed: bool)
        requires
            old(self).wf(),
        ensures
            final(self).wf(),
            consumed == (old(self).queue@.len() > 0),
            forall|x: u64|
                old(self).spec_processed(x) ==> #[trigger] final(self).spec_processed(x),
    {
        if self.queue.len() == 0 {
            return false;
        }
        let cert = self.queue.remove(0);
        self.pending_count = self.pending_count - 1;
        let _ = self.process_certificate(cert);
        true
    }
}

} // verus!
