use lockmgr::authority::{Authority, Order, OrderResult, OwnedObject};
use lockmgr::coordinator::{begin, step, AcquireError, StepOutcome};
use lockmgr::guard::release_keys;
use lockmgr::keys::canonicalize;
use lockmgr::table::{
    hash_object, LockTable, ReleaseOutcome, ShardedLockTable, TryAcquireOutcome, FIXED_SLOT_COUNT,
};
use lockmgr::waiters::WaiterRegistry;

fn table_with_keys(keys: &[u64]) -> ShardedLockTable {
    let mut t = ShardedLockTable::new(16, 16);
    for k in keys {
        t.register_object(*k);
    }
    t
}

#[test]
fn canonical_order_ignores_arrival_order() {
    let a = canonicalize(&vec![10, 20]);
    let b = canonicalize(&vec![20, 10]);
    assert_eq!(a, vec![10, 20]);
    assert_eq!(b, vec![10, 20]);
    let c = canonicalize(&vec![7, 3, 7, 1, 3]);
    assert_eq!(c, vec![1, 3, 7]);
    let empty = canonicalize(&vec![]);
    assert!(empty.is_empty());
}

#[test]
fn try_acquire_is_exclusive_and_release_checks_holder() {
    let mut t = table_with_keys(&[5]);
    assert!(matches!(t.try_acquire(5, 100), TryAcquireOutcome::Acquired));
    // mutual exclusion: a second transaction is told who holds the key
    match t.try_acquire(5, 200) {
        TryAcquireOutcome::HeldBy(h) => assert_eq!(h, 100),
        TryAcquireOutcome::Acquired => panic!("second acquire must not succeed"),
    }
    // a non-holder cannot release the key
    assert_eq!(t.release(5, 200), ReleaseOutcome::NotHolder);
    assert_eq!(t.holder(5), Some(100));
    assert_eq!(t.release(5, 100), ReleaseOutcome::Released);
    assert_eq!(t.holder(5), None);
}

#[test]
fn reacquire_after_release_succeeds() {
    let mut t = table_with_keys(&[9]);
    assert!(matches!(t.try_acquire(9, 1), TryAcquireOutcome::Acquired));
    assert_eq!(t.release(9, 1), ReleaseOutcome::Released);
    assert!(matches!(t.try_acquire(9, 2), TryAcquireOutcome::Acquired));
}

#[test]
fn waiters_are_fifo_and_cancel_preserves_order() {
    let mut w = WaiterRegistry::new();
    w.enqueue(7, 100);
    w.enqueue(7, 200);
    w.enqueue(7, 300);
    assert_eq!(w.queue_len(7), 3);
    w.cancel(7, 200);
    assert_eq!(w.queue_len(7), 2);
    assert_eq!(w.wake_head(7), Some(100));
    assert_eq!(w.wake_head(7), Some(300));
    assert_eq!(w.wake_head(7), None);
}

#[test]
fn full_acquire_succeeds_and_guard_release_frees_all() {
    let mut t = table_with_keys(&[1, 2, 3]);
    let mut w = WaiterRegistry::new();
    let req = begin(&t, &w, 42, &vec![3, 1, 2], 0, 1000);
    let mut req = req.expect("all keys registered");
    assert_eq!(req.deadline, 1000);
    let out = step(&mut t, &mut w, &mut req, 0);
    let mut guard = match out {
        StepOutcome::Done(g) => g,
        _ => panic!("uncontended acquire must finish"),
    };
    assert_eq!(guard.owner, 42);
    assert_eq!(guard.held_keys, vec![1, 2, 3]);
    assert_eq!(t.holder(1), Some(42));
    assert_eq!(t.holder(2), Some(42));
    assert_eq!(t.holder(3), Some(42));
    let woken = guard.release(&mut t, &mut w);
    assert!(woken.is_empty());
    assert!(guard.released);
    assert_eq!(t.holder(1), None);
    assert_eq!(t.holder(2), None);
    assert_eq!(t.holder(3), None);
}

#[test]
fn idempotent_release_changes_nothing_the_second_time() {
    let mut t = table_with_keys(&[1, 2]);
    let mut w = WaiterRegistry::new();
    let mut req = begin(&t, &w, 7, &vec![1, 2], 0, 100).unwrap();
    let mut guard = match step(&mut t, &mut w, &mut req, 0) {
        StepOutcome::Done(g) => g,
        _ => panic!("uncontended acquire must finish"),
    };
    let first = guard.release(&mut t, &mut w);
    let holders_after_first = (t.holder(1), t.holder(2));
    let second = guard.release(&mut t, &mut w);
    assert!(first.is_empty() && second.is_empty());
    // the same observable state as after a single release
    assert_eq!((t.holder(1), t.holder(2)), holders_after_first);
    assert_eq!((t.holder(1), t.holder(2)), (None, None));
}

#[test]
fn key_not_found_is_reported_before_any_lock_is_taken() {
    let t = table_with_keys(&[1]);
    let w = WaiterRegistry::new();
    let r = begin(&t, &w, 5, &vec![1, 99], 0, 100);
    assert!(matches!(r, Err(AcquireError::KeyNotFound)));
    assert_eq!(t.holder(1), None);
}

#[test]
fn rollback_on_timeout_leaves_zero_keys_held() {
    // T1 holds key 2; T2 wants {1, 2, 3}, gets 1, blocks on 2, times out.
    let mut t = table_with_keys(&[1, 2, 3]);
    let mut w = WaiterRegistry::new();
    assert!(matches!(t.try_acquire(2, 111), TryAcquireOutcome::Acquired));

    let mut req = begin(&t, &w, 222, &vec![1, 2, 3], 0, 500).unwrap();
    match step(&mut t, &mut w, &mut req, 0) {
        StepOutcome::Wait(k) => assert_eq!(k, 2),
        _ => panic!("must block on key 2"),
    }
    assert_eq!(t.holder(1), Some(222));
    // deadline reached: everything acquired must be handed back
    match step(&mut t, &mut w, &mut req, 500) {
        StepOutcome::TimedOut(_woken) => {},
        _ => panic!("must time out at the deadline"),
    }
    assert_eq!(t.holder(1), None);
    assert_eq!(t.holder(3), None);
    assert_eq!(t.holder(2), Some(111));
    assert_eq!(w.queue_len(1), 0);
    assert_eq!(w.queue_len(2), 0);
    // the rolled-back keys are available to the next acquirer immediately
    let mut req2 = begin(&t, &w, 333, &vec![1, 3], 500, 100).unwrap();
    assert!(matches!(step(&mut t, &mut w, &mut req2, 500), StepOutcome::Done(_)));
}

#[test]
fn no_lost_release_after_mixed_operations() {
    let mut t = table_with_keys(&[1, 2, 3, 4]);
    let mut w = WaiterRegistry::new();

    // acquire and release {1,2}
    let mut r1 = begin(&t, &w, 10, &vec![2, 1], 0, 100).unwrap();
    let mut g1 = match step(&mut t, &mut w, &mut r1, 0) {
        StepOutcome::Done(g) => g,
        _ => panic!("must finish"),
    };
    // concurrent attempt on {2,3} blocks on 2, then times out
    let mut r2 = begin(&t, &w, 20, &vec![3, 2], 0, 50).unwrap();
    assert!(matches!(step(&mut t, &mut w, &mut r2, 0), StepOutcome::Wait(2)));
    assert!(matches!(step(&mut t, &mut w, &mut r2, 50), StepOutcome::TimedOut(_)));
    let woken = g1.release(&mut t, &mut w);
    assert!(woken.is_empty(), "the timed-out waiter cancelled its registration");
    // acquire and release {3,4}
    let mut r3 = begin(&t, &w, 30, &vec![4, 3], 60, 100).unwrap();
    let mut g3 = match step(&mut t, &mut w, &mut r3, 60) {
        StepOutcome::Done(g) => g,
        _ => panic!("must finish"),
    };
    g3.release(&mut t, &mut w);
    // every key free, every queue empty
    for k in [1, 2, 3, 4] {
        assert_eq!(t.holder(k), None);
        assert_eq!(w.queue_len(k), 0);
    }
}

#[test]
fn overlapping_differently_ordered_requests_both_complete() {
    // T1 asks for {A,B}, T2 for {B,A}; driven alternately, both finish
    // within the sum of their budgets and neither blocks forever.
    let a = 100;
    let b = 200;
    let mut t = table_with_keys(&[a, b]);
    let mut w = WaiterRegistry::new();

    let mut r1 = begin(&t, &w, 1, &vec![a, b], 0, 500).unwrap();
    let mut r2 = begin(&t, &w, 2, &vec![b, a], 0, 500).unwrap();
    // both canonicalize to [A, B]: same acquisition order at both sites
    assert_eq!(r1.keys, vec![a, b]);
    assert_eq!(r2.keys, vec![a, b]);

    let g1 = match step(&mut t, &mut w, &mut r1, 0) {
        StepOutcome::Done(g) => g,
        _ => panic!("first wins"),
    };
    // T2 blocks on A (the first canonical key), holding nothing
    assert!(matches!(step(&mut t, &mut w, &mut r2, 1), StepOutcome::Wait(k) if k == a));
    assert_eq!(t.holder(a), Some(1));
    assert_eq!(t.holder(b), Some(1));
    let mut g1 = g1;
    let woken = g1.release(&mut t, &mut w);
    assert_eq!(woken, vec![2]);
    // the woken waiter retries and completes
    let mut g2 = match step(&mut t, &mut w, &mut r2, 2) {
        StepOutcome::Done(g) => g,
        _ => panic!("second completes after the wake"),
    };
    g2.release(&mut t, &mut w);
    assert_eq!(t.holder(a), None);
    assert_eq!(t.holder(b), None);
}

#[test]
fn concrete_single_key_contention_scenario() {
    // obj_001 is free; T1 takes it with a 2000ms budget at once. T2 asks
    // with a 500ms budget, must still be waiting just before its deadline
    // and time out exactly at it. After T1 releases, T3 succeeds at once.
    let obj_001 = 1;
    let mut t = table_with_keys(&[obj_001]);
    let mut w = WaiterRegistry::new();

    let mut r1 = begin(&t, &w, 1, &vec![obj_001], 0, 2000).unwrap();
    let mut g1 = match step(&mut t, &mut w, &mut r1, 0) {
        StepOutcome::Done(g) => g,
        _ => panic!("T1 succeeds immediately"),
    };

    let mut r2 = begin(&t, &w, 2, &vec![obj_001], 0, 500).unwrap();
    assert!(matches!(step(&mut t, &mut w, &mut r2, 0), StepOutcome::Wait(_)));
    // not earlier: one tick before the deadline T2 is still waiting
    assert!(matches!(step(&mut t, &mut w, &mut r2, 499), StepOutcome::Wait(_)));
    // not much later: at the deadline the attempt resolves to timeout
    assert!(matches!(step(&mut t, &mut w, &mut r2, 500), StepOutcome::TimedOut(_)));

    g1.release(&mut t, &mut w);
    let mut r3 = begin(&t, &w, 3, &vec![obj_001], 600, 2000).unwrap();
    assert!(matches!(step(&mut t, &mut w, &mut r3, 600), StepOutcome::Done(_)));
}

#[test]
fn release_keys_wakes_only_released_heads() {
    let mut t = table_with_keys(&[1, 2]);
    let mut w = WaiterRegistry::new();
    assert!(matches!(t.try_acquire(1, 9), TryAcquireOutcome::Acquired));
    w.enqueue(1, 50);
    w.enqueue(1, 60);
    w.enqueue(2, 70);
    let woken = release_keys(&mut t, &mut w, &vec![1, 2], 2, 9);
    // key 1 was held by 9: released, head 50 woken; key 2 was not held.
    assert_eq!(woken, vec![50]);
    assert_eq!(t.holder(1), None);
    assert_eq!(w.queue_len(1), 1);
    assert_eq!(w.queue_len(2), 1);
}

#[test]
fn sharding_separates_keys_that_the_small_table_collides() {
    // the fixed four-slot table serializes unrelated keys
    let table = LockTable::new();
    let mut small_slots: Vec<usize> = (1u64..=8).map(|k| table.slot_of(k)).collect();
    small_slots.sort();
    small_slots.dedup();
    assert!(small_slots.len() <= FIXED_SLOT_COUNT);
    assert_eq!(small_slots.len(), 4, "eight keys share only four slots");

    // the 16x16 two-level table gives all eight keys distinct addresses
    let t = ShardedLockTable::new(16, 16);
    let mut addrs: Vec<(usize, usize)> = (1u64..=8).map(|k| (t.shard_of(k), t.slot_of(k))).collect();
    for (s, l) in &addrs {
        assert!(*s < 16 && *l < 16);
    }
    addrs.sort();
    addrs.dedup();
    assert_eq!(addrs.len(), 8, "no false contention among the eight keys");
}

#[test]
fn false_slot_contention_is_visible_in_the_small_table() {
    let mut table = LockTable::new();
    // keys 1 and 5 hash to the same slot of the four-slot table
    assert_eq!(table.slot_of(1), table.slot_of(5));
    let s = table.try_acquire(1).expect("slot free");
    assert_eq!(table.try_acquire(5), None, "unrelated key serializes");
    table.release_slot(s);
    assert!(table.try_acquire(5).is_some());
}

#[test]
fn hash_is_a_pure_function_of_the_key() {
    assert_eq!(hash_object(1), 1082269761);
    assert_eq!(hash_object(1), hash_object(1));
    assert_ne!(hash_object(1), hash_object(2));
}

#[test]
fn authority_processes_conflicting_orders_one_at_a_time() {
    let mut a = Authority::new();
    a.add_object(OwnedObject { id: 1, owner: 10, locked_by: None });
    let o1 = Order { digest: 901, input_objects: vec![1] };
    let o2 = Order { digest: 902, input_objects: vec![1] };
    assert_eq!(a.handle_order(&o1, 0, 2000), OrderResult::Success);
    assert_eq!(a.get_object_holder(1), Some(901));
    // the first order released its lock, so the second succeeds too
    assert_eq!(a.handle_order(&o2, 10, 2000), OrderResult::Success);
    assert_eq!(a.get_object_holder(1), Some(902));
}

#[test]
fn authority_rejects_missing_objects_and_rolls_back_contention() {
    let mut a = Authority::new();
    a.add_object(OwnedObject { id: 1, owner: 10, locked_by: None });
    a.add_object(OwnedObject { id: 2, owner: 10, locked_by: None });
    let missing = Order { digest: 900, input_objects: vec![1, 77] };
    assert_eq!(a.handle_order(&missing, 0, 100), OrderResult::Conflict(77));

    // an externally held key blocks the order, and the attempt rolls back
    let mut t = std::mem::replace(&mut a.locks, ShardedLockTable::new(1, 1));
    assert!(matches!(t.try_acquire(2, 555), TryAcquireOutcome::Acquired));
    a.locks = t;
    let contended = Order { digest: 901, input_objects: vec![1, 2] };
    assert_eq!(a.handle_order(&contended, 0, 100), OrderResult::Blocked);
    assert_eq!(a.locks.holder(1), None, "partial progress rolled back");
    assert_eq!(a.locks.holder(2), Some(555));
}

#[test]
fn empty_key_set_acquires_immediately() {
    let mut t = table_with_keys(&[]);
    let mut w = WaiterRegistry::new();
    let mut req = begin(&t, &w, 1, &vec![], 0, 100).unwrap();
    match step(&mut t, &mut w, &mut req, 0) {
        StepOutcome::Done(g) => assert!(g.held_keys.is_empty()),
        _ => panic!("an empty request has nothing to wait for"),
    }
}

#[test]
fn deadline_saturates_at_the_clock_maximum() {
    let t = table_with_keys(&[1]);
    let w = WaiterRegistry::new();
    let req = begin(&t, &w, 1, &vec![1], u64::MAX - 5, 100).unwrap();
    assert_eq!(req.deadline, u64::MAX);
}

#[test]
fn default_configuration_knobs() {
    let a = Authority::new();
    assert_eq!(a.locks.shard_count, lockmgr::authority::DEFAULT_SHARD_COUNT);
    assert_eq!(a.locks.table_size, lockmgr::authority::DEFAULT_TABLE_SIZE);
    assert_eq!(lockmgr::authority::DEFAULT_TIMEOUT, 2000);
}
