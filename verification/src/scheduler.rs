//! Dependency-aware task scheduling over bounded executor slots.
//!
//! A task that depends on an unfinished stage is queued instead of being
//! given a slot, so tasks waiting for their inputs can never fill every
//! slot and starve the very tasks that would unblock them.

use vstd::prelude::*;

verus! {

/// A pipeline task and its stage dependency.
#[derive(Clone, Copy, Debug, PartialEq, Eq, Structural)]
pub struct Task {
    /// The task's identifier.
    pub id: u64,
    /// The pipeline step the task runs in.
    pub stage: u32,
    /// The earlier step that has to finish before the task may run.
    pub depends_on_stage: Option<u32>,
}

/// An executor with a bounded number of task slots.
pub struct Executor {
    /// Total number of slots.
    pub max_slots: usize,
    /// Slots currently free.
    pub available_slots: usize,
    /// Identifiers of the tasks currently running.
    pub running_tasks: Vec<u64>,
}

impl Executor {
    /// Free slots and running tasks always account for every slot.
    pub open spec fn wf(self) -> bool {
        self.available_slots + self.running_tasks@.len() == self.max_slots
    }

    /// Build an executor with all slots free.
    pub fn new(max_slots: usize) -> (e: Self)
        ensures
            e.wf(),
            e.max_slots == max_slots,
            e.available_slots == max_slots,
            e.running_tasks@.len() == 0,
    {
        Executor { max_slots, available_slots: max_slots, running_tasks: Vec::new() }
    }

    /// How many slots are free.
    pub fn available_slots(&self) -> (n: usize)
        ensures
            n == self.available_slots,
    {
        self.available_slots
    }
}

/// What the scheduler did with a submitted task.
#[derive(Clone, Copy, Debug, PartialEq, Eq, Structural)]
pub enum ScheduleOutcome {
    /// The task took a slot and is running.
    Started,
    /// The task was queued until its dependency completes or a slot frees.
    Queued,
}

/// Schedules tasks, queueing those whose dependencies are unmet.
pub struct Scheduler {
    /// The executor whose slots are being filled.
    pub executor: Executor,
    /// Stages that have completed.
    pub stage_complete: Vec<u32>,
    /// Tasks waiting for a dependency or a slot, in arrival order.
    pub pending_queue: Vec<Task>,
}

impl Scheduler {
    /// Whether a stage has completed.
    pub open spec fn spec_stage_done(self, stage: u32) -> bool {
        self.stage_complete@.contains(stage)
    }

    /// Whether a task's dependency, if any, has completed.
    pub open spec fn spec_deps_met(self, task: Task) -> bool {
        match task.depends_on_stage {
            Some(d) => self.spec_stage_done(d),
            None => true,
        }
    }

    /// Attach a scheduler to an executor.
    pub fn new(executor: Executor) -> (s: Self)
        ensures
            s.executor == executor,
            s.stage_complete@.len() == 0,
            s.pending_queue@.len() == 0,
    {
        Scheduler { executor, stage_complete: Vec::new(), pending_queue: Vec::new() }
    }

    /// Whether a stage has completed.
    pub fn stage_done(&self, stage: u32) -> (b: bool)
        ensures
            b == self.spec_stage_done(stage),
    {
        let mut i: usize = 0;
        while i < self.stage_complete.len()
            invariant
                i <= self.stage_complete@.len(),
                forall|j: int| 0 <= j < i ==> self.stage_complete@[j] != stage,
            decreases self.stage_complete@.len() - i,
        {
            if self.stage_complete[i] == stage {
                proof {
                    assert(self.stage_complete@.contains(self.stage_complete@[i as int]));
                }
                return true;
            }
            i += 1;
        }
        proof {
            if self.spec_stage_done(stage) {
                let j = choose|j: int|
                    0 <= j < self.stage_complete@.len() && self.stage_complete@[j] == stage;
            }
        }
        false
    }

    /// Give a task a slot if one is free; queue it otherwise. Never called
    /// for a task with an unmet dependency.
    pub fn run_task(&mut self, task: Task) -> (out: ScheduleOutcome)
        requires
            old(self).executor.wf(),
            old(self).spec_deps_met(task),
        ensures
            final(self).executor.wf(),
            final(self).executor.max_slots == old(self).executor.max_slots,
            final(self).stage_complete@ == old(self).stage_complete@,
            old(self).executor.available_slots > 0 ==> out == ScheduleOutcome::Started && final(self).executor.available_slots == old(self).executor.available_slots - 1 && final(self).executor.running_tasks@ == old(self).executor.running_tasks@.push(task.id) && final(self).pending_queue@ == old(self).pending_queue@,
            old(self).executor.available_slots == 0 ==> out == ScheduleOutcome::Queued && final(self).pending_queue@ == old(self).pending_queue@.push(task) && final(self).executor == old(self).executor,
    {
        if self.executor.available_slots > 0 {
            self.executor.available_slots = self.executor.available_slots - 1;
            self.executor.running_tasks.push(task.id);
            ScheduleOutcome::Started
        } else {
            self.pending_queue.push(task);
            ScheduleOutcome::Queued
        }
    }

    /// Submit a task: queued while its dependency is unmet — it must not
    /// occupy a slot it would only idle in — and otherwise run if a slot
    /// is free.
    pub fn schedule_task(&mut self, task: Task) -> (out: ScheduleOutcome)
        requires
            old(self).executor.wf(),
        ensures
            final(self).executor.wf(),
            final(self).executor.max_slots == old(self).executor.max_slots,
            final(self).stage_complete@ == old(self).stage_complete@,
            !old(self).spec_deps_met(task) ==> out == ScheduleOutcome::Queued && final(self).pending_queue@ == old(self).pending_queue@.push(task) && final(self).executor == old(self).executor,
            (old(self).spec_deps_met(task) && old(self).executor.available_slots > 0) ==> out
                == ScheduleOutcome::Started && final(self).executor.running_tasks@ == old(self).executor.running_tasks@.push(task.id),
            (old(self).spec_deps_met(task) && old(self).executor.available_slots == 0) ==> out
                == ScheduleOutcome::Queued && final(self).pending_queue@ == old(self).pending_queue@.push(task),
    {
        match task.depends_on_stage {
            Some(dep_stage) => {
                if !self.stage_done(dep_stage) {
                    self.pending_queue.push(task);
                    return ScheduleOutcome::Queued;
                }
            },
            None => {},
        }
        self.run_task(task)
    }

    /// A running task finished: free its slot and record its stage as
    /// complete.
    pub fn complete_task(&mut self, task_id: u64, stage: u32)
        requires
            old(self).executor.wf(),
            old(self).executor.running_tasks@.contains(task_id),
        ensures
            final(self).executor.wf(),
            final(self).executor.max_slots == old(self).executor.max_slots,
            final(self).executor.available_slots == old(self).executor.available_slots + 1,
            final(self).spec_stage_done(stage),
            forall|s2: u32|
                s2 != stage ==> #[trigger] final(self).spec_stage_done(s2) == old(self).spec_stage_done(s2),
            final(self).pending_queue@ == old(self).pending_queue@,
    {
        let mut i: usize = 0;
        let mut removed = false;
        while i < self.executor.running_tasks.len() && !removed
            invariant
                i <= self.executor.running_tasks@.len(),
                !removed ==> {
                    &&& self.executor == old(self).executor
                    &&& forall|j: int|
                        0 <= j < i ==> old(self).executor.running_tasks@[j] != task_id
                },
                removed ==> self.executor.running_tasks@.len() + 1 == old(self).executor.running_tasks@.len(),
                self.executor.available_slots == old(self).executor.available_slots,
                self.executor.max_slots == old(self).executor.max_slots,
                self.stage_complete@ == old(self).stage_complete@,
                self.pending_queue@ == old(self).pending_queue@,
            decreases self.executor.running_tasks@.len() - i,
        {
            if self.executor.running_tasks[i] == task_id {
                self.executor.running_tasks.remove(i);
                removed = true;
            } else {
                i += 1;
            }
        }
        proof {
            if !removed {
                let j = choose|j: int|
                    0 <= j < old(self).executor.running_tasks@.len() && old(self).executor.running_tasks@[j] == task_id;
            }
            assert(removed);
        }
        self.executor.available_slots = self.executor.available_slots + 1;
        let ghost pre_stages = self.stage_complete@;
        if !self.stage_done(stage) {
            self.stage_complete.push(stage);
            proof {
                assert(self.stage_complete@[pre_stages.len() as int] == stage);
                assert forall|s2: u32|
                    s2 != stage implies #[trigger] self.spec_stage_done(s2) == old(self).spec_stage_done(s2) by {
                    if self.spec_stage_done(s2) {
                        let j = choose|j: int|
                            0 <= j < self.stage_complete@.len() && self.stage_complete@[j] == s2;
                        assert(pre_stages[j] == s2);
                    }
                    if old(self).spec_stage_done(s2) {
                        let j = choose|j: int| 0 <= j < pre_stages.len() && pre_stages[j] == s2;
                        assert(self.stage_complete@[j] == s2);
                    }
                }
            }
        }
    }

    /// Move every queued task whose dependency has completed back through
    /// the scheduler, oldest first, while slots remain; tasks with unmet
    /// dependencies stay queued in order.
    #[verifier::loop_isolation(false)]
    pub fn process_pending(&mut self)
        requires
            old(self).executor.wf(),
        ensures
            final(self).executor.wf(),
            final(self).executor.max_slots == old(self).executor.max_slots,
            final(self).stage_complete@ == old(self).stage_complete@,
            // every task still queued has an unmet dependency or found no
            // free slot
            forall|j: int|
                0 <= j < final(self).pending_queue@.len() ==> (!final(self).spec_deps_met(
                    #[trigger] final(self).pending_queue@[j],
                ) || final(self).executor.available_slots == 0),
    {
        let mut work: Vec<Task> = Vec::new();
        std::mem::swap(&mut work, &mut self.pending_queue);
        proof {
            assert(self.pending_queue@ =~= Seq::<Task>::empty());
        }
        let mut i: usize = 0;
        while i < work.len()
            invariant
                i <= work@.len(),
                self.executor.wf(),
                self.executor.max_slots == old(self).executor.max_slots,
                self.stage_complete@ == old(self).stage_complete@,
                forall|j: int|
                    0 <= j < self.pending_queue@.len() ==> (!self.spec_deps_met(
                        #[trigger] self.pending_queue@[j],
                    ) || self.executor.available_slots == 0),
            decreases work@.len() - i,
        {
            let task = work[i];
            let ghost pre = *self;
            if self.stage_needed_met(&task) {
                if self.executor.available_slots > 0 {
                    let _ = self.run_task(task);
                    proof {
                        assert(self.pending_queue@ == pre.pending_queue@);
                        assert forall|j: int|
                            0 <= j < self.pending_queue@.len() implies (!self.spec_deps_met(
                            #[trigger] self.pending_queue@[j],
                        ) || self.executor.available_slots == 0) by {
                            assert(self.spec_deps_met(self.pending_queue@[j]) == pre.spec_deps_met(
                                pre.pending_queue@[j],
                            ));
                        }
                    }
                } else {
                    self.pending_queue.push(task);
                    proof {
                        assert forall|j: int|
                            0 <= j < self.pending_queue@.len() implies (!self.spec_deps_met(
                            #[trigger] self.pending_queue@[j],
                        ) || self.executor.available_slots == 0) by {}
                    }
                }
            } else {
                self.pending_queue.push(task);
                proof {
                    assert forall|j: int|
                        0 <= j < self.pending_queue@.len() implies (!self.spec_deps_met(
                        #[trigger] self.pending_queue@[j],
                    ) || self.executor.available_slots == 0) by {
                        if j < pre.pending_queue@.len() {
                            assert(self.spec_deps_met(self.pending_queue@[j]) == pre.spec_deps_met(
                                pre.pending_queue@[j],
                            ));
                        } else {
                            assert(self.pending_queue@[j] == task);
                        }
                    }
                }
            }
            i += 1;
        }
    }

    /// Whether the task's dependency, if any, has completed.
    pub fn stage_needed_met(&self, task: &Task) -> (b: bool)
        ensures
            b == self.spec_deps_met(*task),
    {
        match task.depends_on_stage {
            Some(d) => self.stage_done(d),
            None => true,
        }
    }
}

} // verus!
