use lockmgr::appstore::{AppStore, Environment, Storage};
use lockmgr::cache::{DataCache, StreamWriter};
use lockmgr::certwaiter::{Certificate, CertificateWaiter};
use lockmgr::chain::{Block, ChainState, ChainStateManager};
use lockmgr::controller::{Controller, PipelineState, Task as PipelineTask, TaskNotification, Worker};
use lockmgr::executorq::{BoundedExecutor, Message};
use lockmgr::parexec::{ParallelExecutor, State, Task as ChainTask, TaskResult};
use lockmgr::raft::{Configuration, JointConfiguration, RaftNode, ReplicationStatus};
use lockmgr::regions::{
    DropTableProcedure, OperatingRegions, RegionReadError, RegionReader, RegionStore,
};
use lockmgr::scheduler::{Executor, ScheduleOutcome, Scheduler, Task as StageTask};
use lockmgr::server::ServerState;

#[test]
fn dependent_tasks_wait_for_their_stage() {
    let executor = Executor::new(2);
    let mut s = Scheduler::new(executor);
    let t2a = StageTask { id: 20, stage: 2, depends_on_stage: Some(1) };
    let t2b = StageTask { id: 21, stage: 2, depends_on_stage: Some(1) };
    let t1a = StageTask { id: 10, stage: 1, depends_on_stage: None };
    let t1b = StageTask { id: 11, stage: 1, depends_on_stage: None };

    // dependent tasks are queued instead of filling the two slots
    assert_eq!(s.schedule_task(t2a), ScheduleOutcome::Queued);
    assert_eq!(s.schedule_task(t2b), ScheduleOutcome::Queued);
    assert_eq!(s.executor.available_slots(), 2);
    // so the stage-one tasks can run
    assert_eq!(s.schedule_task(t1a), ScheduleOutcome::Started);
    assert_eq!(s.schedule_task(t1b), ScheduleOutcome::Started);
    assert_eq!(s.executor.available_slots(), 0);

    s.complete_task(10, 1);
    s.complete_task(11, 1);
    assert_eq!(s.executor.available_slots(), 2);
    s.process_pending();
    assert_eq!(s.executor.available_slots(), 0, "both stage-two tasks started");
    assert!(s.pending_queue.is_empty());
}

#[test]
fn tasks_queue_when_slots_run_out() {
    let executor = Executor::new(1);
    let mut s = Scheduler::new(executor);
    let a = StageTask { id: 1, stage: 1, depends_on_stage: None };
    let b = StageTask { id: 2, stage: 1, depends_on_stage: None };
    assert_eq!(s.schedule_task(a), ScheduleOutcome::Started);
    assert_eq!(s.schedule_task(b), ScheduleOutcome::Queued);
    s.complete_task(1, 1);
    s.process_pending();
    assert_eq!(s.executor.available_slots(), 0);
    assert!(s.pending_queue.is_empty());
}

#[test]
fn a_startup_crash_marks_the_pipeline_failed() {
    let mut controller = Controller::new();
    let tasks = [
        PipelineTask { id: 1, name: 100, should_panic: false },
        PipelineTask { id: 2, name: 200, should_panic: true },
        PipelineTask { id: 3, name: 300, should_panic: false },
    ];
    for t in tasks {
        controller.add_task(t);
    }
    let mut worker = Worker::new(controller);
    for t in tasks {
        worker.start_task(t);
    }
    // the crash of task two is honoured, not masked by the other starts
    assert_eq!(worker.controller.get_state(), PipelineState::Failed(200));
}

#[test]
fn all_clean_startups_mark_the_pipeline_running() {
    let mut c = Controller::new();
    c.add_task(PipelineTask { id: 1, name: 0, should_panic: false });
    c.add_task(PipelineTask { id: 2, name: 0, should_panic: false });
    assert_eq!(c.get_state(), PipelineState::Scheduling);
    c.handle_notification(TaskNotification::Started(1));
    assert_eq!(c.get_state(), PipelineState::Scheduling);
    c.handle_notification(TaskNotification::Started(2));
    assert_eq!(c.get_state(), PipelineState::Running);
}

#[test]
fn dependent_chain_completes_whatever_the_submission_order() {
    let state = State::new();
    let mut ex = ParallelExecutor::new(state);
    let a = ChainTask { id: 1, inputs: vec![0], outputs: vec![1] };
    let b = ChainTask { id: 2, inputs: vec![1], outputs: vec![2] };
    let c = ChainTask { id: 3, inputs: vec![2], outputs: vec![3] };
    // submit in reverse dependency order: C and B park, A unlocks them all
    assert_eq!(ex.execute_task(c), TaskResult::Failed);
    assert_eq!(ex.execute_task(b), TaskResult::Failed);
    assert_eq!(ex.execute_task(a), TaskResult::Success);
    let results = ex.get_results();
    assert_eq!(results.len(), 3);
    assert!(results.iter().all(|(_, r)| *r == TaskResult::Success));
    assert!(ex.pending.is_empty());
    assert!(ex.state.has_object(3));
}

#[test]
fn deep_ancestry_chains_never_overflow_the_queue() {
    let mut w = CertificateWaiter::new();
    for id in (5..20).rev() {
        let cert = Certificate { id, parent_id: if id > 1 { Some(id - 1) } else { None } };
        assert!(w.process_certificate(cert));
    }
    // the root of every chain got processed; queued certificates drain
    assert!(w.is_processed(1));
    let mut rounds = 0;
    while w.consume_one() {
        rounds += 1;
        assert!(rounds < 10_000, "consumption must terminate");
    }
    assert_eq!(w.pending_count, 0);
}

#[test]
fn certificate_with_processed_parent_is_processed_directly() {
    let mut w = CertificateWaiter::new();
    assert!(w.process_certificate(Certificate { id: 1, parent_id: None }));
    assert!(w.is_processed(1));
    assert!(w.process_certificate(Certificate { id: 2, parent_id: Some(1) }));
    assert!(w.is_processed(2));
    assert_eq!(w.queue.len(), 0);
}

#[test]
fn completed_drop_leaves_no_stale_mark() {
    let operating = OperatingRegions::new();
    let store = RegionStore::new();
    let mut procedure = DropTableProcedure::new(operating, store);
    assert!(procedure.execute(1));
    // consistent: neither valid nor still marked as dropping
    assert!(!procedure.operating_regions.is_dropping(1));
    assert!(!procedure.store.is_region_valid(1));
    assert!(procedure.store.is_region_valid(2));

    let reader = RegionReader::new(procedure.operating_regions, procedure.store);
    assert_eq!(reader.read(1), Err(RegionReadError::NotFound));
    assert!(reader.read(2).is_ok());
}

#[test]
fn reads_are_refused_while_a_drop_is_in_flight() {
    let mut operating = OperatingRegions::new();
    operating.mark_dropping(2);
    let store = RegionStore::new();
    let reader = RegionReader::new(operating, store);
    assert_eq!(reader.read(2), Err(RegionReadError::BeingDropped));
}

#[test]
fn stuck_joint_quorum_rolls_back_after_the_timeout() {
    let mut leader = RaftNode::new(1);
    let c_old = Configuration::new(&vec![1, 2, 3]);
    let c_new = Configuration::new(&vec![4, 5]);
    leader.begin_config_change(c_old, c_new, 0);

    leader.receive_replication_response(
        ReplicationStatus { node: 2, success: true, match_index: 1 },
        100,
    );
    leader.receive_replication_response(
        ReplicationStatus { node: 3, success: true, match_index: 1 },
        150,
    );
    // old quorum alone cannot commit: the node reports itself blocked
    assert!(leader.is_blocked());
    assert!(!leader.wait_for_commit(300));
    // after the timeout the change rolls back and the cluster moves on
    assert!(leader.wait_for_commit(600));
    assert!(leader.was_rolled_back());
}

#[test]
fn joint_quorum_commits_without_rollback() {
    let mut leader = RaftNode::new(1);
    let c_old = Configuration::new(&vec![1, 2, 3]);
    let c_new = Configuration::new(&vec![1, 4]);
    leader.begin_config_change(c_old, c_new, 0);
    leader.receive_replication_response(
        ReplicationStatus { node: 2, success: true, match_index: 1 },
        10,
    );
    leader.receive_replication_response(
        ReplicationStatus { node: 4, success: true, match_index: 1 },
        20,
    );
    assert!(leader.wait_for_commit(30));
    assert!(!leader.was_rolled_back());
}

#[test]
fn quorum_arithmetic() {
    let c = Configuration::new(&vec![1, 2, 3]);
    assert_eq!(c.quorum_size(), 2);
    assert!(c.has_quorum(&vec![1, 3]));
    assert!(!c.has_quorum(&vec![2]));
    assert!(!c.has_quorum(&vec![4, 5, 6]));
    let j = JointConfiguration::new(
        Configuration::new(&vec![1, 2, 3]),
        Configuration::new(&vec![4, 5]),
    );
    assert!(!j.has_joint_quorum(&vec![1, 2, 3]));
    assert!(j.has_joint_quorum(&vec![1, 2, 4, 5]));
}

#[test]
fn chain_reads_go_through_both_indexes() {
    let state = ChainState::new();
    let mut mgr = ChainStateManager::new(state);
    let b0 = mgr.read_operation(0).expect("seeded block");
    assert_eq!(b0.number, 0);
    assert!(mgr.read_operation(100).is_none());
    mgr.write_operation(Block { number: 100, hash: 100, data: 7 });
    let b100 = mgr.read_operation(100).expect("written block");
    assert_eq!(b100.data, 7);
    assert_eq!(mgr.another_read(100).unwrap().hash, 100);
}

#[test]
fn cache_updates_are_versioned_and_snapshotted() {
    let cache = DataCache::new();
    assert_eq!(cache.version(), 0);
    assert_eq!(cache.get_data().as_slice(), &[1, 2, 3, 4, 5]);

    let mut writer = StreamWriter::new();
    let snapshot = writer.prepare_persist(vec![10, 20, 30, 40, 50]);
    // the snapshot is what gets persisted outside the lock
    assert_eq!(snapshot, vec![10, 20, 30, 40, 50]);
    assert_eq!(writer.read_data(), 1);
    assert_eq!(writer.cache().get_data().as_slice(), &[10, 20, 30, 40, 50]);
}

#[test]
fn configuration_loads_exactly_once() {
    let storage = Storage::new();
    let store = AppStore::new(storage);
    for component in 0..5 {
        assert_eq!(store.initialize_component(component), Environment::Production);
    }
    assert_eq!(store.storage.get_load_count(), 1);
}

#[test]
fn full_executor_refuses_instead_of_blocking() {
    let mut ex = BoundedExecutor::new(3);
    assert_eq!(ex.get_capacity(), 3);
    for i in 0..3 {
        let msg = Message { from: i, to: i % 3, data: i };
        assert!(ex.send_message_nonblocking(msg).is_ok());
    }
    let overflow = Message { from: 9, to: 0, data: 9 };
    assert!(ex.send_message_nonblocking(overflow).is_err());
    // consuming one frees room for one more
    assert_eq!(ex.take_next().unwrap().from, 0);
    assert!(ex.send_message_nonblocking(overflow).is_ok());
}

#[test]
fn server_counts_its_requests() {
    let mut s = ServerState::new();
    assert_eq!(s.record_request(), 1);
    assert_eq!(s.record_request(), 2);
    assert_eq!(s.request_count, 2);
}
