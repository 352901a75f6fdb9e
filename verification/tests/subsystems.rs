use lockmgr::auth::{AuthHandler, AuthResult, AuthStore};
use lockmgr::clientapi::ClientAPI;
use lockmgr::epoch::{EpochStore, ObjectRef, ParentSyncTable, SharedObjectTable};
use lockmgr::lockmgr::{GatewayState, ObjectId, ObjectLockManager, TransactionError, TransactionId};
use lockmgr::nodesync::{NodeSyncState, NodeSyncStore, PendingCerts};
use lockmgr::notifier::{Authority, BatchNotifier, Database};
use lockmgr::objstore::{
    ExecFailure, GasObject, ObjectStore, TransactionProcessor, TransactionRequest,
};
use lockmgr::txpool::{AccountState, SubPool, Transaction, TxPool};

#[test]
fn gateway_unlocks_on_success_and_on_failure() {
    let mgr = ObjectLockManager::new();
    let mut gw = GatewayState::new(mgr);
    let obj_a = ObjectId(10);

    // a failing transaction still unlocks its objects
    let r = gw.execute_transaction(TransactionId(1), vec![obj_a], false);
    assert!(matches!(r, Err(TransactionError::NetworkError)));
    assert!(!gw.lock_manager.is_locked(&obj_a));

    // so the next transaction on the same object succeeds
    let r = gw.execute_transaction(TransactionId(2), vec![obj_a], true);
    assert!(matches!(r, Ok(())));
    assert!(!gw.lock_manager.is_locked(&obj_a));
}

#[test]
fn locked_object_refuses_other_transactions_atomically() {
    let mut mgr = ObjectLockManager::new();
    let a = ObjectId(1);
    let b = ObjectId(2);
    mgr.try_lock_objects(&vec![a], &TransactionId(7)).unwrap();
    // all-or-nothing: b stays unlocked because a conflicted
    let r = mgr.try_lock_objects(&vec![a, b], &TransactionId(8));
    match r {
        Err(TransactionError::ObjectLocked(obj)) => assert_eq!(obj, a),
        _ => panic!("conflicting lock must be refused"),
    }
    assert!(!mgr.is_locked(&b));
    // re-entry by the same transaction is not a conflict
    assert!(mgr.try_lock_objects(&vec![a, b], &TransactionId(7)).is_ok());
    mgr.unlock_objects(&vec![a, b]);
    assert!(!mgr.is_locked(&a));
    assert!(!mgr.is_locked(&b));
}

#[test]
fn processor_refuses_stale_gas_versions() {
    let mut store = ObjectStore::new();
    store.insert(GasObject { id: 1, version: 1, balance: 1000 });
    let mut p = TransactionProcessor::new(store);

    let tx1 = TransactionRequest { digest: 1, gas_object_id: 1, gas_version: 1, gas_required: 400 };
    let tx2 = TransactionRequest { digest: 2, gas_object_id: 1, gas_version: 1, gas_required: 300 };
    p.execute(&tx1);
    p.execute(&tx2);
    let results = p.get_results();
    assert_eq!(results.len(), 2);
    assert!(results[0].success);
    assert_eq!(results[0].gas_used, 400);
    // tx2 was built against version 1 but the store moved to version 2
    assert!(!results[1].success);
    assert_eq!(results[1].error, Some(ExecFailure::VersionMismatch));
    let latest = p.store.get_latest(1).unwrap();
    assert_eq!(latest.version, 2);
    assert_eq!(latest.balance, 600);
}

#[test]
fn processor_reports_missing_objects_and_insufficient_gas() {
    let mut store = ObjectStore::new();
    store.insert(GasObject { id: 1, version: 1, balance: 100 });
    let mut p = TransactionProcessor::new(store);
    let missing =
        TransactionRequest { digest: 1, gas_object_id: 9, gas_version: 1, gas_required: 1 };
    let poor = TransactionRequest { digest: 2, gas_object_id: 1, gas_version: 1, gas_required: 200 };
    p.execute(&missing);
    p.execute(&poor);
    let results = p.get_results();
    assert_eq!(results[0].error, Some(ExecFailure::GasObjectNotFound));
    assert_eq!(results[1].error, Some(ExecFailure::InsufficientGas));
    // failures never touch the store
    assert_eq!(p.store.get_latest(1).unwrap().balance, 100);
}

#[test]
fn object_store_versioned_reads() {
    let mut store = ObjectStore::new();
    store.insert(GasObject { id: 3, version: 5, balance: 10 });
    assert!(store.get_at_version(3, 5).is_some());
    assert!(store.get_at_version(3, 4).is_none());
    assert!(store.get_at_version(8, 5).is_none());
    let updated = store.update(3, 7).unwrap();
    assert_eq!(updated.version, 6);
    assert_eq!(updated.balance, 7);
    assert!(store.update(99, 1).is_none());
}

#[test]
fn txpool_classifies_against_one_nonce_reading() {
    let mut state = AccountState::new();
    state.register_account(1);
    state.increment_nonce(1);
    let mut pool = TxPool::new(state);

    let stale = Transaction { from: 1, nonce: 0, data: 100 };
    let next = Transaction { from: 1, nonce: 1, data: 101 };
    let future = Transaction { from: 1, nonce: 5, data: 102 };
    assert_eq!(pool.add_transaction(stale), SubPool::Queued);
    assert_eq!(pool.add_transaction(next), SubPool::Pending);
    assert_eq!(pool.add_transaction(future), SubPool::Queued);
    assert_eq!(pool.pending.len(), 1);
    assert_eq!(pool.queued.len(), 1, "a stale transaction is rejected, not stored");
    assert_eq!(pool.get_misclassified(), 0);
    let (valid, expected) = pool.validate(&Transaction { from: 1, nonce: 1, data: 0 });
    assert!(valid);
    assert_eq!(expected, 1);
}

#[test]
fn untracked_accounts_start_at_nonce_zero() {
    let mut state = AccountState::new();
    assert_eq!(state.get_nonce(42), 0);
    state.increment_nonce(42);
    assert_eq!(state.get_nonce(42), 0, "an untracked account is left alone");
    state.register_account(42);
    state.increment_nonce(42);
    assert_eq!(state.get_nonce(42), 1);
}

#[test]
fn concurrent_logins_with_one_token_all_succeed() {
    let mut store = AuthStore::new();
    store.add_token(123, 1, 0);
    let mut handler = AuthHandler::new(store);
    for i in 0..10 {
        let r = handler.authenticate(123, i);
        assert!(matches!(r, AuthResult::Success));
    }
    assert_eq!(handler.store.get_failed_count(), 0);
    assert_eq!(handler.store.tokens.get(&123).unwrap().last_active, 9);
}

#[test]
fn unknown_tokens_are_refused() {
    let store = AuthStore::new();
    let mut handler = AuthHandler::new(store);
    assert!(matches!(handler.authenticate(5, 0), AuthResult::AuthenticationFailed));
    assert_eq!(handler.store.get_failed_count(), 0);
}

#[test]
fn failed_commit_still_notifies_its_sequence() {
    let notifier = BatchNotifier::new();
    let database = Database::new();
    let mut authority = Authority::new(notifier, database);

    assert_eq!(authority.commit_certificate(11), Ok(1));
    authority.database.set_fail(true);
    assert!(authority.commit_certificate(12).is_err());
    authority.database.set_fail(false);
    assert_eq!(authority.commit_certificate(13), Ok(3));

    // no gap: sequences 1, 2, 3 were all notified
    assert_eq!(authority.notifier().get_notified(), vec![1, 2, 3]);
    assert!(authority.notifier().wait_for_contiguous(3));
    assert!(!authority.notifier().wait_for_contiguous(4));
}

#[test]
fn contiguity_check_detects_gaps() {
    let mut n = BatchNotifier::new();
    n.notify_sequence(1);
    n.notify_sequence(3);
    assert!(n.wait_for_contiguous(1));
    assert!(!n.wait_for_contiguous(3), "sequence two is missing");
    n.notify_sequence(2);
    assert!(n.wait_for_contiguous(3));
    // duplicate notification changes nothing
    n.notify_sequence(2);
    assert_eq!(n.get_notified(), vec![1, 2, 3]);
}

#[test]
fn effects_survive_both_paths_and_failed_rounds() {
    let store = NodeSyncStore::new();
    let pending = PendingCerts::new();
    let mut state = NodeSyncState::new(store, pending);

    state.download_and_sync(1);
    state.process_from_consensus(2, true);
    state.download_and_sync(3);
    state.process_from_consensus(3, false);

    for cert in [1, 2, 3] {
        assert!(state.store.has_effect(cert), "effect lost for cert {cert}");
        assert!(!state.pending.contains(cert));
    }
    assert_eq!(state.store.get_all_effects(), vec![1, 2, 3]);
}

#[test]
fn pending_certs_add_remove_contains() {
    let mut p = PendingCerts::new();
    p.add(5);
    p.add(5);
    assert!(p.contains(5));
    assert!(!p.contains(6));
    assert!(p.remove(5));
    assert!(!p.remove(5));
    assert!(!p.contains(5));
}

#[test]
fn next_version_takes_the_larger_table() {
    let parent_sync = ParentSyncTable::new();
    let mut shared = SharedObjectTable::new();
    shared.set_initial_shared_version(7, 100);
    let store = EpochStore::new(parent_sync, shared);
    // only the shared table knows the object: 100 + 1
    assert_eq!(store.get_next_version(7), 101);

    let mut parent_sync = ParentSyncTable::new();
    parent_sync.update_entry(ObjectRef { id: 7, version: 150 });
    let mut shared = SharedObjectTable::new();
    shared.set_initial_shared_version(7, 100);
    let store = EpochStore::new(parent_sync, shared);
    // the parent-sync table caught up past the share point: 150 + 1
    assert_eq!(store.get_next_version(7), 151);
    // an unknown object starts at 1
    assert_eq!(store.get_next_version(8), 1);
}

#[test]
fn lost_update_counter_stays_zero_with_atomic_additions() {
    let mut api = ClientAPI::new();
    for _ in 0..10 {
        api.add_pending_order(1, 100);
    }
    assert_eq!(api.get_pending(1), 1000);
    assert!(!api.check_lost_updates(1, 1000));
    assert_eq!(api.get_lost_updates(), 0);
    // a genuine shortfall is detected and counted
    assert!(api.check_lost_updates(1, 1300));
    assert_eq!(api.get_lost_updates(), 300);
    assert_eq!(api.get_pending(2), 0);
}
