//! Region lifecycle guarded against stale "dropping" marks.
//!
//! Dropping a region marks it as in-flight, performs the drop, and
//! releases the mark before the procedure returns. The release is
//! idempotent, so an extra scope-exit release is harmless — and a
//! completed drop can never leave the region marked as dropping forever.

use vstd::prelude::*;

verus! {

/// Marks for regions with an operation in flight.
pub struct OperatingRegions {
    /// Regions currently being dropped.
    pub dropping: Vec<u64>,
    /// Regions currently being created.
    pub creating: Vec<u64>,
}

impl OperatingRegions {
    /// Whether a drop is in flight for the region.
    pub open spec fn spec_dropping(self, region_id: u64) -> bool {
        self.dropping@.contains(region_id)
    }

    /// Build with no operation in flight.
    pub fn new() -> (r: Self)
        ensures
            forall|x: u64| !r.spec_dropping(x),
            r.creating@.len() == 0,
    {
        let r = OperatingRegions { dropping: Vec::new(), creating: Vec::new() };
        proof {
            assert forall|x: u64| !r.spec_dropping(x) by {
                if r.spec_dropping(x) {
                    let j = choose|j: int| 0 <= j < r.dropping@.len() && r.dropping@[j] == x;
                }
            }
        }
        r
    }

    /// Whether a drop is in flight for the region.
    pub fn is_dropping(&self, region_id: u64) -> (b: bool)
        ensures
            b == self.spec_dropping(region_id),
    {
        let mut i: usize = 0;
        while i < self.dropping.len()
            invariant
                i <= self.dropping@.len(),
                forall|j: int| 0 <= j < i ==> self.dropping@[j] != region_id,
            decreases self.dropping@.len() - i,
        {
            if self.dropping[i] == region_id {
                proof {
                    assert(self.dropping@.contains(self.dropping@[i as int]));
                }
                return true;
            }
            i += 1;
        }
        proof {
            if self.spec_dropping(region_id) {
                let j = choose|j: int|
                    0 <= j < self.dropping@.len() && self.dropping@[j] == region_id;
            }
        }
        false
    }

    /// Mark a drop in flight. Marking twice changes nothing.
    pub fn mark_dropping(&mut self, region_id: u64)
        ensures
            forall|x: u64|
                #[trigger] final(self).spec_dropping(x) <==> (old(self).spec_dropping(x) || x
                    == region_id),
            final(self).creating@ == old(self).creating@,
    {
        let ghost pre = self.dropping@;
        if !self.is_dropping(region_id) {
            self.dropping.push(region_id);
            proof {
                assert forall|x: u64|
                    #[trigger] self.spec_dropping(x) <==> (pre.contains(x) || x == region_id) by {
                    if self.spec_dropping(x) {
                        let j = choose|j: int|
                            0 <= j < self.dropping@.len() && self.dropping@[j] == x;
                        if j < pre.len() {
                            assert(pre.contains(x));
                        }
                    }
                    if pre.contains(x) {
                        let j = choose|j: int| 0 <= j < pre.len() && pre[j] == x;
                        assert(self.dropping@[j] == x);
                    }
                    if x == region_id {
                        assert(self.dropping@[pre.len() as int] == x);
                    }
                }
            }
        }
    }

    /// Clear the drop mark. Clearing an absent mark changes nothing.
    pub fn unmark_dropping(&mut self, region_id: u64)
        ensures
            forall|x: u64|
                #[trigger] final(self).spec_dropping(x) <==> (old(self).spec_dropping(x) && x
                    != region_id),
            final(self).creating@ == old(self).creating@,
    {
        let mut nq: Vec<u64> = Vec::new();
        let mut i: usize = 0;
        while i < self.dropping.len()
            invariant
                i <= self.dropping@.len(),
                forall|x: u64|
                    nq@.contains(x) <==> (self.dropping@.subrange(0, i as int).contains(x) && x
                        != region_id),
            decreases self.dropping@.len() - i,
        {
            let ghost pren = nq@;
            let ghost ip1: int = i + 1;
            if self.dropping[i] != region_id {
                nq.push(self.dropping[i]);
            }
            proof {
                assert forall|x: u64|
                    nq@.contains(x) <==> (self.dropping@.subrange(0, ip1).contains(x) && x
                        != region_id) by {
                    if nq@.contains(x) {
                        let j = choose|j: int| 0 <= j < nq@.len() && nq@[j] == x;
                        if j < pren.len() {
                            assert(pren.contains(x));
                            let j2 = choose|j2: int|
                                0 <= j2 < i && self.dropping@.subrange(0, i as int)[j2] == x;
                            assert(self.dropping@.subrange(0, ip1)[j2] == x);
                        } else {
                            assert(x == self.dropping@[i as int]);
                            assert(self.dropping@.subrange(0, ip1)[i as int] == x);
                        }
                    }
                    if self.dropping@.subrange(0, ip1).contains(x) && x != region_id {
                        let j = choose|j: int|
                            0 <= j < ip1 && self.dropping@.subrange(0, ip1)[j] == x;
                        if j < i {
                            assert(self.dropping@.subrange(0, i as int)[j] == x);
                            assert(pren.contains(x));
                            let j3 = choose|j3: int| 0 <= j3 < pren.len() && pren[j3] == x;
                            assert(nq@[j3] == x);
                        } else {
                            assert(x == self.dropping@[i as int]);
                            assert(nq@[nq@.len() - 1] == x);
                        }
                    }
                }
            }
            i += 1;
        }
        proof {
            assert(self.dropping@.subrange(0, self.dropping@.len() as int) =~= self.dropping@);
        }
        self.dropping = nq;
    }
}

/// A guard for one in-flight region drop: released at most once, and a
/// second release is a no-op.
pub struct DroppingRegionGuard {
    /// The region being dropped.
    pub region_id: u64,
    /// Whether the guard already released its mark.
    pub released: bool,
}

impl DroppingRegionGuard {
    /// Mark the region as dropping and hand back the guard for it.
    pub fn new(region_id: u64, operating_regions: &mut OperatingRegions) -> (g: Self)
        ensures
            g.region_id == region_id,
            !g.released,
            forall|x: u64|
                #[trigger] final(operating_regions).spec_dropping(x) <==> (old(operating_regions).spec_dropping(x) || x == region_id),
    {
        operating_regions.mark_dropping(region_id);
        DroppingRegionGuard { region_id, released: false }
    }

    /// Clear the mark; the second and later calls change nothing.
    pub fn release(&mut self, operating_regions: &mut OperatingRegions)
        ensures
            final(self).region_id == old(self).region_id,
            final(self).released,
            old(self).released ==> *final(operating_regions) == *old(operating_regions),
            !old(self).released ==> forall|x: u64|
                #[trigger] final(operating_regions).spec_dropping(x) <==> (old(operating_regions).spec_dropping(x) && x != old(self).region_id),
    {
        if !self.released {
            operating_regions.unmark_dropping(self.region_id);
            self.released = true;
        }
    }
}

/// A region and its payload.
pub struct Region {
    /// The region's key.
    pub id: u64,
    /// The region's bytes; cleared when dropped.
    pub data: Vec<u8>,
    /// Whether the region was dropped.
    pub dropped: bool,
}

/// The regions this node stores.
pub struct RegionStore {
    /// The stored regions.
    pub regions: Vec<Region>,
}

impl RegionStore {
    /// Whether a live (undropped) region with this key exists.
    pub open spec fn spec_valid(self, region_id: u64) -> bool {
        exists|j: int|
            0 <= j < self.regions@.len() && (#[trigger] self.regions@[j]).id == region_id
                && !self.regions@[j].dropped
    }

    /// Build a store with two seeded live regions.
    pub fn new() -> (s: Self)
        ensures
            s.spec_valid(1),
            s.spec_valid(2),
            s.regions@.len() == 2,
    {
        let mut regions: Vec<Region> = Vec::new();
        let mut d1: Vec<u8> = Vec::new();
        d1.push(1);
        d1.push(2);
        d1.push(3);
        regions.push(Region { id: 1, data: d1, dropped: false });
        let mut d2: Vec<u8> = Vec::new();
        d2.push(4);
        d2.push(5);
        d2.push(6);
        regions.push(Region { id: 2, data: d2, dropped: false });
        let s = RegionStore { regions };
        proof {
            assert((s.regions@[0]).id == 1 && !s.regions@[0].dropped);
            assert((s.regions@[1]).id == 2 && !s.regions@[1].dropped);
        }
        s
    }

    /// Drop every region with this key: mark dropped and clear the data.
    pub fn drop_region(&mut self, region_id: u64)
        ensures
            !final(self).spec_valid(region_id),
            final(self).regions@.len() == old(self).regions@.len(),
            forall|j: int|
                0 <= j < old(self).regions@.len() && (#[trigger] old(self).regions@[j]).id
                    != region_id ==> final(self).regions@[j] == old(self).regions@[j],
    {
        let mut i: usize = 0;
        while i < self.regions.len()
            invariant
                i <= self.regions@.len(),
                self.regions@.len() == old(self).regions@.len(),
                forall|j: int|
                    0 <= j < i && (#[trigger] old(self).regions@[j]).id == region_id ==> (
                    self.regions@[j]).id == region_id && self.regions@[j].dropped,
                forall|j: int|
                    0 <= j < old(self).regions@.len() && !(0 <= j < i && (old(self).regions@[j]).id == region_id) ==> #[trigger] self.regions@[j] == old(self).regions@[j],
            decreases self.regions@.len() - i,
        {
            if self.regions[i].id == region_id {
                let r = Region { id: region_id, data: Vec::new(), dropped: true };
                self.regions.set(i, r);
            }
            i += 1;
        }
        proof {
            assert forall|j: int|
                0 <= j < self.regions@.len() && (#[trigger] self.regions@[j]).id == region_id
                    implies self.regions@[j].dropped by {
                if (old(self).regions@[j]).id == region_id {
                } else {
                    assert(self.regions@[j] == old(self).regions@[j]);
                }
            }
        }
    }

    /// Whether a live region with this key exists.
    pub fn is_region_valid(&self, region_id: u64) -> (b: bool)
        ensures
            b == self.spec_valid(region_id),
    {
        let mut i: usize = 0;
        while i < self.regions.len()
            invariant
                i <= self.regions@.len(),
                forall|j: int|
                    0 <= j < i ==> !((#[trigger] self.regions@[j]).id == region_id
                        && !self.regions@[j].dropped),
            decreases self.regions@.len() - i,
        {
            if self.regions[i].id == region_id && !self.regions[i].dropped {
                return true;
            }
            i += 1;
        }
        false
    }

    /// The bytes of the live region with this key, if one exists.
    pub fn read_region(&self, region_id: u64) -> (r: Option<Vec<u8>>)
        ensures
            (r is Some) == self.spec_valid(region_id),
            r matches Some(d) ==> exists|j: int|
                0 <= j < self.regions@.len() && (#[trigger] self.regions@[j]).id == region_id
                    && !self.regions@[j].dropped && d@ == self.regions@[j].data@,
    {
        let mut i: usize = 0;
        while i < self.regions.len()
            invariant
                i <= self.regions@.len(),
                forall|j: int|
                    0 <= j < i ==> !((#[trigger] self.regions@[j]).id == region_id
                        && !self.regions@[j].dropped),
            decreases self.regions@.len() - i,
        {
            if self.regions[i].id == region_id && !self.regions[i].dropped {
                let mut out: Vec<u8> = Vec::new();
                let mut k: usize = 0;
                while k < self.regions[i].data.len()
                    invariant
                        i < self.regions@.len(),
                        k <= self.regions@[i as int].data@.len(),
                        out@ == self.regions@[i as int].data@.subrange(0, k as int),
                    decreases self.regions@[i as int].data@.len() - k,
                {
                    out.push(self.regions[i].data[k]);
                    proof {
                        assert(out@ =~= self.regions@[i as int].data@.subrange(0, k + 1 as int));
                    }
                    k += 1;
                }
                proof {
                    assert(out@ =~= self.regions@[i as int].data@);
                }
                return Some(out);
            }
            i += 1;
        }
        None
    }
}

/// Drops a region under a guard that is always released.
pub struct DropTableProcedure {
    /// The in-flight marks.
    pub operating_regions: OperatingRegions,
    /// The region storage.
    pub store: RegionStore,
}

impl DropTableProcedure {
    /// Wire marks and storage together.
    pub fn new(operating_regions: OperatingRegions, store: RegionStore) -> (p: Self)
        ensures
            p.operating_regions == operating_regions,
            p.store == store,
    {
        DropTableProcedure { operating_regions, store }
    }

    /// Drop the region: mark, drop, release. The guard is released before
    /// returning, so afterwards the region is neither valid nor still
    /// marked as dropping — no stale mark can block later operations.
    pub fn execute(&mut self, region_id: u64) -> (ok: bool)
        ensures
            ok,
            !final(self).store.spec_valid(region_id),
            !final(self).operating_regions.spec_dropping(region_id),
            forall|x: u64|
                x != region_id ==> #[trigger] final(self).operating_regions.spec_dropping(x) == old(self).operating_regions.spec_dropping(x),
    {
        let mut guard = DroppingRegionGuard::new(region_id, &mut self.operating_regions);
        self.store.drop_region(region_id);
        guard.release(&mut self.operating_regions);
        true
    }
}

/// Why a region read was refused.
#[derive(Clone, Copy, Debug, PartialEq, Eq, Structural)]
pub enum RegionReadError {
    /// A drop is still in flight for the region.
    BeingDropped,
    /// No live region with that key exists.
    NotFound,
}

/// Reads regions, honouring in-flight drop marks.
pub struct RegionReader {
    /// The in-flight marks.
    pub operating_regions: OperatingRegions,
    /// The region storage.
    pub store: RegionStore,
}

impl RegionReader {
    /// Wire marks and storage together.
    pub fn new(operating_regions: OperatingRegions, store: RegionStore) -> (r: Self)
        ensures
            r.operating_regions == operating_regions,
            r.store == store,
    {
        RegionReader { operating_regions, store }
    }

    /// Read a region's bytes: refused while a drop is in flight, and
    /// reported missing when no live region exists.
    pub fn read(&self, region_id: u64) -> (r: Result<Vec<u8>, RegionReadError>)
        ensures
            self.operating_regions.spec_dropping(region_id) ==> r == Err::<
                Vec<u8>,
                RegionReadError,
            >(RegionReadError::BeingDropped),
            !self.operating_regions.spec_dropping(region_id) ==> ((r is Ok)
                == self.store.spec_valid(region_id)) && (!self.store.spec_valid(region_id) ==> r
                == Err::<Vec<u8>, RegionReadError>(RegionReadError::NotFound)),
    {
        if self.operating_regions.is_dropping(region_id) {
            return Err(RegionReadError::BeingDropped);
        }
        match self.store.read_region(region_id) {
            Some(data) => Ok(data),
            None => Err(RegionReadError::NotFound),
        }
    }
}

} // verus!
