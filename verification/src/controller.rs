//! Pipeline startup tracking that cannot miss a failure.
//!
//! A worker reports a task as started only after its startup work
//! completed, and the controller treats a failure report the same way in
//! every phase — also while still scheduling — so a pipeline with a
//! crashed task can never end up marked as running and healthy.

use vstd::prelude::*;
use std::collections::HashMap;

verus! {

broadcast use vstd::std_specs::hash::group_hash_axioms;

/// The pipeline's lifecycle state.
#[derive(Clone, Copy, Debug, PartialEq, Eq, Structural)]
pub enum PipelineState {
    /// Tasks are still being started.
    Scheduling,
    /// Every task reported a completed startup.
    Running,
    /// A task failed; the payload names it.
    Failed(u64),
}

/// What a worker reports about a task.
#[derive(Clone, Copy, Debug, PartialEq, Eq, Structural)]
pub enum TaskNotification {
    /// The task's startup completed.
    Started(u64),
    /// The task failed; the second field encodes the reason.
    Failed(u64, u64),
}

/// An operator task of the pipeline.
#[derive(Clone, Copy, Debug, PartialEq, Eq, Structural)]
pub struct Task {
    /// The task's identifier.
    pub id: u64,
    /// The task's name code.
    pub name: u64,
    /// Whether the task will crash during startup.
    pub should_panic: bool,
}

/// Tracks pipeline state from task notifications.
pub struct Controller {
    /// The pipeline's current state.
    pub pipeline_state: PipelineState,
    /// The known tasks by identifier.
    pub tasks: HashMap<u64, Task>,
    /// Identifiers of tasks that reported a completed startup.
    pub started_tasks: Vec<u64>,
}

impl Controller {
    /// Build a controller in the scheduling phase with no tasks.
    pub fn new() -> (c: Self)
        ensures
            c.pipeline_state == PipelineState::Scheduling,
            c.tasks@.dom() =~= Set::<u64>::empty(),
            c.started_tasks@.len() == 0,
    {
        let c = Controller {
            pipeline_state: PipelineState::Scheduling,
            tasks: HashMap::new(),
            started_tasks: Vec::new(),
        };
        proof {
            assert(c.tasks@.dom() =~= Set::empty());
        }
        c
    }

    /// Register a task with the pipeline.
    pub fn add_task(&mut self, task: Task)
        ensures
            final(self).tasks@ == old(self).tasks@.insert(task.id, task),
            final(self).pipeline_state == old(self).pipeline_state,
            final(self).started_tasks@ == old(self).started_tasks@,
    {
        self.tasks.insert(task.id, task);
    }

    /// Handle a worker's notification. A failure moves the pipeline to
    /// `Failed` in every phase — a failure during scheduling is never
    /// discarded. A start is recorded, and the pipeline becomes `Running`
    /// once every known task has started.
    pub fn handle_notification(&mut self, notification: TaskNotification)
        ensures
            final(self).tasks@ == old(self).tasks@,
            match notification {
                TaskNotification::Started(task_id) => {
                    &&& final(self).started_tasks@ == old(self).started_tasks@.push(task_id)
                    &&& final(self).pipeline_state == (if old(self).started_tasks@.len() + 1
                        == old(self).tasks@.dom().len() {
                        PipelineState::Running
                    } else {
                        old(self).pipeline_state
                    })
                },
                TaskNotification::Failed(_, reason) => {
                    &&& final(self).pipeline_state == PipelineState::Failed(reason)
                    &&& final(self).started_tasks@ == old(self).started_tasks@
                },
            },
    {
        match notification {
            TaskNotification::Started(task_id) => {
                self.started_tasks.push(task_id);
                if self.started_tasks.len() == self.tasks.len() {
                    self.pipeline_state = PipelineState::Running;
                }
            },
            TaskNotification::Failed(_task_id, reason) => {
                self.pipeline_state = PipelineState::Failed(reason);
            },
        }
    }

    /// The pipeline's current state.
    pub fn get_state(&self) -> (s: PipelineState)
        ensures
            s == self.pipeline_state,
    {
        self.pipeline_state
    }
}

/// Runs task startups and reports them truthfully.
pub struct Worker {
    /// The controller this worker reports to.
    pub controller: Controller,
}

impl Worker {
    /// Attach a worker to a controller.
    pub fn new(controller: Controller) -> (w: Self)
        ensures
            w.controller == controller,
    {
        Worker { controller }
    }

    /// Run a task's startup. The start notification is sent only after
    /// the startup completed; a crash sends a failure instead, which the
    /// controller honours in every phase.
    pub fn start_task(&mut self, task: Task)
        ensures
            final(self).controller.tasks@ == old(self).controller.tasks@,
            task.should_panic ==> final(self).controller.pipeline_state == PipelineState::Failed(
                task.name,
            ) && final(self).controller.started_tasks@ == old(self).controller.started_tasks@,
            !task.should_panic ==> final(self).controller.started_tasks@ == old(self).controller.started_tasks@.push(task.id),
    {
        if task.should_panic {
            self.controller.handle_notification(TaskNotification::Failed(task.id, task.name));
            return ;
        }
        self.controller.handle_notification(TaskNotification::Started(task.id));
    }
}

} // verus!
