//! Dependency-aware task execution.
//!
//! A task consumes input objects and produces output objects. A task whose
//! inputs are not yet available is parked instead of failed, and parked
//! tasks are retried whenever an execution makes new objects available, so
//! dependent tasks cannot fail merely because they were submitted early.

use vstd::prelude::*;

verus! {

/// A task with its object dependencies.
#[derive(Debug)]
pub struct Task {
    /// The task's identifier.
    pub id: u64,
    /// Objects the task needs before it can run.
    pub inputs: Vec<u64>,
    /// Objects the task produces when it runs.
    pub outputs: Vec<u64>,
}

/// The recorded outcome of a task.
#[derive(Clone, Copy, Debug, PartialEq, Eq, Structural)]
pub enum TaskResult {
    /// The task ran.
    Success,
    /// The task could not run yet and was parked.
    Failed,
}

/// The objects the chain has made available.
pub struct State {
    /// Keys of every available object.
    pub available_objects: Vec<u64>,
}

impl State {
    /// Whether the object is available.
    pub open spec fn spec_has(self, obj: u64) -> bool {
        self.available_objects@.contains(obj)
    }

    /// Every input of `t` is available.
    pub open spec fn inputs_ready(self, t: Task) -> bool {
        forall|j: int| 0 <= j < t.inputs@.len() ==> self.spec_has(#[trigger] t.inputs@[j])
    }

    /// Build the genesis state: only object zero exists.
    pub fn new() -> (s: Self)
        ensures
            s.spec_has(0),
            forall|x: u64| x != 0 ==> !s.spec_has(x),
    {
        let mut available_objects: Vec<u64> = Vec::new();
        available_objects.push(0);
        let s = State { available_objects };
        proof {
            assert(s.available_objects@[0] == 0);
            assert(s.spec_has(0));
            assert forall|x: u64| x != 0 implies !s.spec_has(x) by {
                if s.spec_has(x) {
                    let j = choose|j: int|
                        0 <= j < s.available_objects@.len() && s.available_objects@[j] == x;
                }
            }
        }
        s
    }

    /// Whether the object is available.
    pub fn has_object(&self, obj: u64) -> (b: bool)
        ensures
            b == self.spec_has(obj),
    {
        let mut j: usize = 0;
        while j < self.available_objects.len()
            invariant
                j <= self.available_objects@.len(),
                forall|i: int| 0 <= i < j ==> self.available_objects@[i] != obj,
            decreases self.available_objects@.len() - j,
        {
            if self.available_objects[j] == obj {
                proof {
                    assert(self.available_objects@.contains(self.available_objects@[j as int]));
                }
                return true;
            }
            j += 1;
        }
        proof {
            if self.spec_has(obj) {
                let i = choose|i: int|
                    0 <= i < self.available_objects@.len() && self.available_objects@[i] == obj;
            }
        }
        false
    }

    /// Make every listed object available.
    #[verifier::loop_isolation(false)]
    pub fn add_objects(&mut self, objs: &Vec<u64>)
        ensures
            forall|x: u64|
                #[trigger] final(self).spec_has(x) <==> (old(self).spec_has(x) || objs@.contains(
                    x,
                )),
    {
        let mut i: usize = 0;
        while i < objs.len()
            invariant
                i <= objs@.len(),
                forall|x: u64|
                    #[trigger] self.spec_has(x) <==> (old(self).spec_has(x) || objs@.subrange(
                        0,
                        i as int,
                    ).contains(x)),
            decreases objs@.len() - i,
        {
            let ghost pre_self = *self;
            let ghost pre = self.available_objects@;
            let ghost ip1: int = i + 1;
            self.available_objects.push(objs[i]);
            proof {
                assert forall|x: u64|
                    #[trigger] self.spec_has(x) implies (old(self).spec_has(x) || objs@.subrange(
                    0,
                    ip1,
                ).contains(x)) by {
                    let j = choose|j: int|
                        0 <= j < self.available_objects@.len() && self.available_objects@[j] == x;
                    if j < pre.len() {
                        assert(pre.contains(x));
                        assert(pre_self.spec_has(x));
                    } else {
                        assert(x == objs@[i as int]);
                        assert(objs@.subrange(0, ip1)[i as int] == x);
                    }
                }
                assert forall|x: u64|
                    (old(self).spec_has(x) || objs@.subrange(0, ip1).contains(x))
                        implies #[trigger] self.spec_has(x) by {
                    if old(self).spec_has(x) || objs@.subrange(0, i as int).contains(x) {
                        assert(pre_self.spec_has(x));
                        assert(pre.contains(x));
                        let j = choose|j: int| 0 <= j < pre.len() && pre[j] == x;
                        assert(self.available_objects@[j] == x);
                    } else {
                        let j = choose|j: int| 0 <= j < ip1 && objs@.subrange(0, ip1)[j] == x;
                        assert(j == i);
                        assert(self.available_objects@[pre.len() as int] == x);
                    }
                }
            }
            i += 1;
        }
        proof {
            assert(objs@.subrange(0, objs@.len() as int) =~= objs@);
        }
    }
}

/// Runs tasks when their dependencies allow, parking the rest.
pub struct ParallelExecutor {
    /// The shared object state.
    pub state: State,
    /// Execution log: one entry per task that ran, in order.
    pub results: Vec<(u64, TaskResult)>,
    /// Tasks parked until their inputs appear.
    pub pending: Vec<Task>,
}

impl ParallelExecutor {
    /// Wrap an object state with nothing run and nothing parked.
    pub fn new(state: State) -> (e: Self)
        ensures
            e.state == state,
            e.results@.len() == 0,
            e.pending@.len() == 0,
    {
        ParallelExecutor { state, results: Vec::new(), pending: Vec::new() }
    }

    /// Execute a task if its inputs are available, else park it. A run
    /// task publishes its outputs and immediately retries parked tasks, so
    /// everything that became runnable runs now: afterwards no parked task
    /// has all its inputs available.
    #[verifier::loop_isolation(false)]
    pub fn execute_task(&mut self, task: Task) -> (r: TaskResult)
        ensures
            r == TaskResult::Success <==> old(self).state.inputs_ready(task),
            r == TaskResult::Success ==> forall|j: int|
                0 <= j < task.outputs@.len() ==> final(self).state.spec_has(
                    #[trigger] task.outputs@[j],
                ),
            r == TaskResult::Failed ==> final(self).pending@ == old(self).pending@.push(task)
                && final(self).state == old(self).state && final(self).results@ == old(self).results@,
            r == TaskResult::Success ==> forall|t2: Task|
                final(self).pending@.contains(t2) ==> !final(self).state.inputs_ready(t2),
            r == TaskResult::Success ==> final(self).results@.len() > old(self).results@.len()
                && final(self).results@[old(self).results@.len() as int] == (
                task.id,
                TaskResult::Success,
            ),
            forall|x: u64| old(self).state.spec_has(x) ==> final(self).state.spec_has(x),
    {
        let mut ready = true;
        let mut j: usize = 0;
        while j < task.inputs.len()
            invariant
                j <= task.inputs@.len(),
                ready == (forall|i: int|
                    0 <= i < j ==> self.state.spec_has(#[trigger] task.inputs@[i])),
                *self == *old(self),
            decreases task.inputs@.len() - j,
        {
            if !self.state.has_object(task.inputs[j]) {
                ready = false;
            }
            j += 1;
        }
        if !ready {
            self.pending.push(task);
            return TaskResult::Failed;
        }
        self.state.add_objects(&task.outputs);
        self.results.push((task.id, TaskResult::Success));
        let ghost mid = self.results@;
        self.try_execute_pending();
        proof {
            assert(self.results@.subrange(0, mid.len() as int) == mid);
            assert(self.results@.subrange(0, mid.len() as int)[mid.len() - 1] == self.results@[
                mid.len() - 1]);
        }
        TaskResult::Success
    }

    /// Run every parked task whose inputs have appeared, repeatedly, until
    /// none is runnable. Each run publishes its outputs, which can unlock
    /// further parked tasks.
    #[verifier::loop_isolation(false)]
    pub fn try_execute_pending(&mut self)
        ensures
            forall|t2: Task|
                final(self).pending@.contains(t2) ==> !final(self).state.inputs_ready(t2),
            forall|x: u64| old(self).state.spec_has(x) ==> final(self).state.spec_has(x),
            final(self).results@.len() >= old(self).results@.len(),
            final(self).results@.subrange(0, old(self).results@.len() as int) == old(
                self,
            ).results@,
    {
        let mut cont: usize = 1;
        while cont == 1
            invariant
                cont <= 1,
                forall|x: u64| old(self).state.spec_has(x) ==> self.state.spec_has(x),
                self.results@.len() >= old(self).results@.len(),
                self.results@.subrange(0, old(self).results@.len() as int) == old(self).results@,
                cont == 0 ==> forall|t2: Task|
                    self.pending@.contains(t2) ==> !self.state.inputs_ready(t2),
            decreases self.pending@.len() + cont,
        {
            // find the first parked task whose inputs are all available
            let mut found: Option<usize> = None;
            let mut searching: usize = 1;
            let mut idx: usize = 0;
            while idx < self.pending.len() && searching == 1
                invariant
                    idx <= self.pending@.len(),
                    searching <= 1,
                    searching == 1 ==> found is None,
                    searching == 0 ==> found is Some,
                    match found {
                        Some(f) => f < self.pending@.len() && self.state.inputs_ready(
                            self.pending@[f as int],
                        ),
                        None => forall|i: int|
                            0 <= i < idx ==> !self.state.inputs_ready(
                                #[trigger] self.pending@[i],
                            ),
                    },
                decreases self.pending@.len() - idx + searching,
            {
                let t = &self.pending[idx];
                let mut ready = true;
                let mut j: usize = 0;
                while j < t.inputs.len()
                    invariant
                        j <= t.inputs@.len(),
                        idx < self.pending@.len(),
                        t == self.pending@[idx as int],
                        ready == (forall|i: int|
                            0 <= i < j ==> self.state.spec_has(#[trigger] t.inputs@[i])),
                    decreases t.inputs@.len() - j,
                {
                    if !self.state.has_object(t.inputs[j]) {
                        ready = false;
                    }
                    j += 1;
                }
                if ready {
                    found = Some(idx);
                    searching = 0;
                } else {
                    idx += 1;
                }
            }
            match found {
                Some(f) => {
                    let task = self.pending.remove(f);
                    self.state.add_objects(&task.outputs);
                    let ghost pre_results = self.results@;
                    self.results.push((task.id, TaskResult::Success));
                    proof {
                        assert(self.results@.subrange(0, old(self).results@.len() as int)
                            =~= pre_results.subrange(0, old(self).results@.len() as int));
                    }
                },
                None => {
                    proof {
                        assert forall|t2: Task| self.pending@.contains(t2) implies !self
                            .state.inputs_ready(t2) by {
                            let i = choose|i: int|
                                0 <= i < self.pending@.len() && self.pending@[i] == t2;
                        }
                    }
                    cont = 0;
                },
            }
        }
    }

    /// A copy of the execution log.
    pub fn get_results(&self) -> (r: Vec<(u64, TaskResult)>)
        ensures
            r@ == self.results@,
    {
        let mut out: Vec<(u64, TaskResult)> = Vec::new();
        let mut i: usize = 0;
        while i < self.results.len()
            invariant
                i <= self.results@.len(),
                out@ == self.results@.subrange(0, i as int),
            decreases self.results@.len() - i,
        {
            out.push(self.results[i]);
            proof {
                assert(out@ =~= self.results@.subrange(0, i + 1 as int));
            }
            i += 1;
        }
        proof {
            assert(out@ =~= self.results@);
        }
        out
    }
}

} // verus!
