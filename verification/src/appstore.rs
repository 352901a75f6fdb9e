//! Configuration loading that happens exactly once.
//!
//! The application store loads its environment from storage at
//! construction and serves the cached value afterwards. Components reading
//! the environment cannot trigger another load, so concurrent
//! initialization can never load the configuration twice.

use vstd::prelude::*;

verus! {

/// The deployment environment.
#[derive(Clone, Copy, Debug, PartialEq, Eq, Structural)]
pub enum Environment {
    /// Local development.
    Development,
    /// Pre-production staging.
    Staging,
    /// Production.
    Production,
}

/// Persistent storage; counts how often the environment was loaded.
pub struct Storage {
    /// The number of loads performed against this storage.
    pub load_count: u64,
}

impl Storage {
    /// Build storage that was never read.
    pub fn new() -> (s: Self)
        ensures
            s.load_count == 0,
    {
        Storage { load_count: 0 }
    }

    /// Load the configured environment; every call costs one read.
    pub fn load_api_environment(&mut self) -> (e: Environment)
        requires
            old(self).load_count < u64::MAX,
        ensures
            final(self).load_count == old(self).load_count + 1,
            e == Environment::Production,
    {
        self.load_count = self.load_count + 1;
        Environment::Production
    }

    /// How many loads this storage has served.
    pub fn get_load_count(&self) -> (n: u64)
        ensures
            n == self.load_count,
    {
        self.load_count
    }
}

/// The application store: loads once at construction, caches forever.
pub struct AppStore {
    /// The storage the environment came from.
    pub storage: Storage,
    /// The environment loaded at construction.
    pub current_env: Environment,
}

impl AppStore {
    /// Build the store, performing the one and only load.
    pub fn new(storage: Storage) -> (a: Self)
        requires
            storage.load_count < u64::MAX,
        ensures
            a.storage.load_count == storage.load_count + 1,
            a.current_env == Environment::Production,
    {
        let mut storage = storage;
        let env = storage.load_api_environment();
        AppStore { storage, current_env: env }
    }

    /// The cached environment; never reloads.
    pub fn get_api_environment(&self) -> (e: Environment)
        ensures
            e == self.current_env,
    {
        self.current_env
    }

    /// A component reads the environment during its initialization; the
    /// read is served from the cache, so the load count cannot move.
    pub fn initialize_component(&self, _component: u64) -> (e: Environment)
        ensures
            e == self.current_env,
    {
        self.get_api_environment()
    }
}

} // verus!
