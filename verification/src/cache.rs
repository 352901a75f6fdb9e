//! A versioned data cache whose writer hands the persisting work outward.
//!
//! Updating the cache and persisting the bytes are separated: the update
//! happens under the cache's lock and produces a snapshot, and the slow
//! persisting runs on the snapshot outside the lock, so readers are never
//! starved by a writer stuck in a long write.

use vstd::prelude::*;

verus! {

/// Cached bytes with a version counter.
pub struct DataCache {
    /// The cached bytes.
    pub data: Vec<u8>,
    /// Bumped on every update.
    pub version: u64,
}

impl DataCache {
    /// Build the cache with its initial contents at version zero.
    pub fn new() -> (c: Self)
        ensures
            c.data@ == seq![1u8, 2u8, 3u8, 4u8, 5u8],
            c.version == 0,
    {
        let mut data: Vec<u8> = Vec::new();
        data.push(1);
        data.push(2);
        data.push(3);
        data.push(4);
        data.push(5);
        let c = DataCache { data, version: 0 };
        proof {
            assert(c.data@ =~= seq![1u8, 2u8, 3u8, 4u8, 5u8]);
        }
        c
    }

    /// Replace the contents and bump the version.
    pub fn update(&mut self, new_data: Vec<u8>)
        requires
            old(self).version < u64::MAX,
        ensures
            final(self).data@ == new_data@,
            final(self).version == old(self).version + 1,
    {
        self.data = new_data;
        self.version = self.version + 1;
    }

    /// The cached bytes.
    pub fn get_data(&self) -> (r: &Vec<u8>)
        ensures
            r@ == self.data@,
    {
        &self.data
    }

    /// The current version.
    pub fn version(&self) -> (v: u64)
        ensures
            v == self.version,
    {
        self.version
    }
}

/// Owns the cache and prepares snapshots for persisting.
pub struct StreamWriter {
    /// The cache being written through.
    pub data_cache: DataCache,
}

impl StreamWriter {
    /// Build a writer over a fresh cache.
    pub fn new() -> (w: Self)
        ensures
            w.data_cache.data@ == seq![1u8, 2u8, 3u8, 4u8, 5u8],
            w.data_cache.version == 0,
    {
        StreamWriter { data_cache: DataCache::new() }
    }

    /// Apply an update and return the snapshot to persist. The caller's
    /// runtime performs the slow write on the snapshot after this returns,
    /// outside the cache's lock.
    pub fn prepare_persist(&mut self, new_data: Vec<u8>) -> (snapshot: Vec<u8>)
        requires
            old(self).data_cache.version < u64::MAX,
        ensures
            final(self).data_cache.data@ == new_data@,
            final(self).data_cache.version == old(self).data_cache.version + 1,
            snapshot@ == new_data@,
    {
        let ghost v = new_data@;
        self.data_cache.update(new_data);
        let mut snapshot: Vec<u8> = Vec::new();
        let mut i: usize = 0;
        while i < self.data_cache.data.len()
            invariant
                i <= self.data_cache.data@.len(),
                snapshot@ == self.data_cache.data@.subrange(0, i as int),
                self.data_cache.data@ == v,
            decreases self.data_cache.data@.len() - i,
        {
            snapshot.push(self.data_cache.data[i]);
            proof {
                assert(snapshot@ =~= self.data_cache.data@.subrange(0, i + 1 as int));
            }
            i += 1;
        }
        proof {
            assert(snapshot@ =~= self.data_cache.data@);
        }
        snapshot
    }

    /// The version a reader observes.
    pub fn read_data(&self) -> (v: u64)
        ensures
            v == self.data_cache.version,
    {
        self.data_cache.version()
    }

    /// The cache itself.
    pub fn cache(&self) -> (c: &DataCache)
        ensures
            c == &self.data_cache,
    {
        &self.data_cache
    }
}

} // verus!
