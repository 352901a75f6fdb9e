//! Object version selection at epoch initialization.
//!
//! An object's next version must respect both the parent-sync table, which
//! checkpoint execution may race ahead of, and the version at which the
//! object first became shared. Taking the larger of the two makes the
//! choice safe whichever table was updated last.

use vstd::prelude::*;
use std::collections::HashMap;

verus! {

broadcast use vstd::std_specs::hash::group_hash_axioms;

/// A reference to an object at a version.
#[derive(Clone, Copy, Debug, PartialEq, Eq, Structural)]
pub struct ObjectRef {
    /// The object's key.
    pub id: u64,
    /// The referenced version.
    pub version: u64,
}

/// Parent-sync entries: the latest known version per object.
pub struct ParentSyncTable {
    /// Latest entry per object key.
    pub entries: HashMap<u64, ObjectRef>,
}

impl ParentSyncTable {
    /// The latest entry for an object, if any.
    pub open spec fn spec_entry(self, id: u64) -> Option<ObjectRef> {
        if self.entries@.dom().contains(id) {
            Some(self.entries@[id])
        } else {
            None
        }
    }

    /// Build an empty table.
    pub fn new() -> (t: Self)
        ensures
            forall|id: u64| t.spec_entry(id) is None,
    {
        let t = ParentSyncTable { entries: HashMap::new() };
        proof {
            assert(t.entries@.dom() =~= Set::empty());
        }
        t
    }

    /// The latest entry for an object, if any.
    pub fn get_latest_parent_entry(&self, id: u64) -> (r: Option<ObjectRef>)
        ensures
            r == self.spec_entry(id),
    {
        match self.entries.get(&id) {
            Some(e) => Some(*e),
            None => None,
        }
    }

    /// Record a new latest entry for its object.
    pub fn update_entry(&mut self, obj_ref: ObjectRef)
        ensures
            final(self).spec_entry(obj_ref.id) == Some(obj_ref),
            forall|id: u64|
                id != obj_ref.id ==> #[trigger] final(self).spec_entry(id) == old(self).spec_entry(
                    id,
                ),
    {
        self.entries.insert(obj_ref.id, obj_ref);
    }
}

/// Initial shared versions of objects that moved from owned to shared.
pub struct SharedObjectTable {
    /// Initial shared version per object key.
    pub initial_versions: HashMap<u64, u64>,
}

impl SharedObjectTable {
    /// The initial shared version of an object, if it became shared.
    pub open spec fn spec_initial(self, id: u64) -> Option<u64> {
        if self.initial_versions@.dom().contains(id) {
            Some(self.initial_versions@[id])
        } else {
            None
        }
    }

    /// Build an empty table.
    pub fn new() -> (t: Self)
        ensures
            forall|id: u64| t.spec_initial(id) is None,
    {
        let t = SharedObjectTable { initial_versions: HashMap::new() };
        proof {
            assert(t.initial_versions@.dom() =~= Set::empty());
        }
        t
    }

    /// The initial shared version of an object, if any.
    pub fn get_initial_shared_version(&self, id: u64) -> (r: Option<u64>)
        ensures
            r == self.spec_initial(id),
    {
        match self.initial_versions.get(&id) {
            Some(v) => Some(*v),
            None => None,
        }
    }

    /// Record the version at which an object became shared.
    pub fn set_initial_shared_version(&mut self, id: u64, version: u64)
        ensures
            final(self).spec_initial(id) == Some(version),
            forall|id2: u64|
                id2 != id ==> #[trigger] final(self).spec_initial(id2) == old(self).spec_initial(
                    id2,
                ),
    {
        self.initial_versions.insert(id, version);
    }
}

/// Chooses next versions for objects during epoch initialization.
pub struct EpochStore {
    /// The parent-sync table, possibly being raced by checkpoint sync.
    pub parent_sync: ParentSyncTable,
    /// The initial shared versions.
    pub shared_objects: SharedObjectTable,
}

impl EpochStore {
    /// The version the parent-sync table knows for an object, zero when
    /// absent.
    pub open spec fn spec_parent_version(self, id: u64) -> u64 {
        match self.parent_sync.spec_entry(id) {
            Some(e) => e.version,
            None => 0,
        }
    }

    /// The initial shared version of an object, zero when absent.
    pub open spec fn spec_initial_version(self, id: u64) -> u64 {
        match self.shared_objects.spec_initial(id) {
            Some(v) => v,
            None => 0,
        }
    }

    /// Wire the two tables together.
    pub fn new(parent_sync: ParentSyncTable, shared_objects: SharedObjectTable) -> (s: Self)
        ensures
            s.parent_sync == parent_sync,
            s.shared_objects == shared_objects,
    {
        EpochStore { parent_sync, shared_objects }
    }

    /// The next version to use for an object: one past the larger of the
    /// parent-sync version and the initial shared version, so neither a
    /// stale parent entry nor a late share can make the epoch go backwards.
    pub fn get_next_version(&self, object_id: u64) -> (v: u64)
        requires
            self.spec_parent_version(object_id) < u64::MAX,
            self.spec_initial_version(object_id) < u64::MAX,
        ensures
            v == (if self.spec_parent_version(object_id) >= self.spec_initial_version(object_id) {
                self.spec_parent_version(object_id) + 1
            } else {
                self.spec_initial_version(object_id) + 1
            }),
            v > self.spec_parent_version(object_id),
            v > self.spec_initial_version(object_id),
    {
        let initial_version = match self.shared_objects.get_initial_shared_version(object_id) {
            Some(v) => v,
            None => 0,
        };
        let parent_version = match self.parent_sync.get_latest_parent_entry(object_id) {
            Some(e) => e.version,
            None => 0,
        };
        let version = if parent_version >= initial_version {
            parent_version
        } else {
            initial_version
        };
        version + 1
    }
}

} // verus!
