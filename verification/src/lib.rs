//! An object-granular lock manager for a transaction-processing authority,
//! together with verified models of the surrounding subsystems that consume
//! it: schedulers, caches, notifiers, stores and pools whose decisions are
//! pure functions of their state.
//!
//! Every transaction must obtain exclusive access to each object it touches
//! before executing, and must hand every object back exactly once, however
//! its execution ends. The lock manager enforces this with a canonical key
//! order (deadlock avoidance), a sharded table of lock entries (contention
//! isolation), per-key FIFO waiter queues (fairness), and idempotent guards
//! (guaranteed release).

pub mod keys;
pub mod table;
pub mod waiters;
pub mod guard;
pub mod coordinator;
pub mod authority;
pub mod lockmgr;
pub mod objstore;
pub mod txpool;
pub mod auth;
pub mod notifier;
pub mod parexec;
pub mod nodesync;
pub mod epoch;
pub mod chain;
pub mod cache;
pub mod appstore;
pub mod clientapi;
pub mod executorq;
pub mod server;
pub mod regions;
pub mod controller;
pub mod scheduler;
pub mod certwaiter;
pub mod raft;

use vstd::prelude::*;

verus! {

/// Identifier of a lockable object.
pub type ObjectKey = u64;

/// Identifier of a transaction.
pub type TxId = u64;

} // verus!
