//! The round-robin scheduler: a first-in, first-out queue of ready task IDs
//! and the ID of the task that runs.

use vstd::prelude::*;
use std::collections::VecDeque;
use super::TaskId;

verus! {

/// The scheduler as the contracts see it.
pub struct SchedulerState {
    /// The ready tasks, the next one to run first.
    pub ready: Seq<TaskId>,
    /// The task that runs, if any.
    pub current: Option<TaskId>,
}

impl SchedulerState {
    /// No task is ready and none runs.
    pub open spec fn initial() -> SchedulerState {
        SchedulerState { ready: Seq::empty(), current: None }
    }

    /// The ready queue once the running task, if any, has gone to its back.
    pub open spec fn requeued(self) -> Seq<TaskId> {
        match self.current {
            Some(task) => self.ready.push(task),
            None => self.ready,
        }
    }

    /// The task that `schedule` picks: the first of the requeued tasks.
    pub open spec fn next_task(self) -> Option<TaskId> {
        if self.requeued().len() > 0 {
            Some(self.requeued()[0])
        } else {
            None
        }
    }

    /// The scheduler after `schedule`.
    pub open spec fn after_schedule(self) -> SchedulerState {
        if self.requeued().len() > 0 {
            SchedulerState { ready: self.requeued().drop_first(), current: self.next_task() }
        } else {
            SchedulerState { ready: self.requeued(), current: None }
        }
    }

    /// The tasks that the scheduler knows: the ready ones, then the running
    /// one.
    pub open spec fn all_tasks(self) -> Seq<TaskId> {
        self.requeued()
    }

    /// The scheduler after `rounds` calls of `schedule`.
    pub open spec fn after_rounds(self, rounds: nat) -> SchedulerState
        decreases rounds,
    {
        if rounds == 0 {
            self
        } else {
            self.after_rounds((rounds - 1) as nat).after_schedule()
        }
    }

    /// Scheduling loses no task and invents none: it rotates the sequence
    /// of known tasks by one place.
    pub proof fn lemma_schedule_rotates(self)
        ensures
            self.all_tasks().len() > 0 ==> self.after_schedule().all_tasks()
                == self.all_tasks().drop_first().push(self.all_tasks()[0]),
            self.all_tasks().len() == 0 ==> self.after_schedule() == self,
    {
        if self.all_tasks().len() > 0 {
            assert(self.after_schedule().all_tasks() =~= self.all_tasks().drop_first().push(
                self.all_tasks()[0],
            ));
        } else {
            assert(self.ready =~= Seq::empty());
        }
    }

    /// Round robin is fair: when only `schedule` is called, the task at
    /// place `k` of the known tasks runs after `k + 1` calls.
    pub proof fn lemma_round_robin(self, k: nat)
        requires
            k < self.all_tasks().len(),
        ensures
            self.after_rounds(k + 1).current == Some(self.all_tasks()[k as int]),
            self.after_rounds(k + 1).all_tasks().len() == self.all_tasks().len(),
            forall|i: int|
                0 <= i < self.all_tasks().len() ==> #[trigger] self.after_rounds(
                    k + 1,
                ).all_tasks()[i] == self.all_tasks()[(i + k + 1) % (self.all_tasks().len() as int)],
        decreases k,
    {
        let n = self.all_tasks().len() as int;
        let r = k as int;
        let before = self.after_rounds(k);
        if k == 0 {
            assert(before == self);
        } else {
            self.lemma_round_robin((k - 1) as nat);
        }
        before.lemma_schedule_rotates();
        assert(before.all_tasks().len() == n);
        assert forall|i: int| 0 <= i < n implies #[trigger] before.all_tasks()[i]
            == self.all_tasks()[(i + r) % n] by {
            if k == 0 {
                assert((i + r) % n == i) by (nonlinear_arith)
                    requires
                        0 <= i < n,
                        r == 0,
                ;
            }
        }
        let after = self.after_rounds(k + 1);
        assert(after == before.after_schedule());
        assert forall|i: int| 0 <= i < n implies #[trigger] after.all_tasks()[i]
            == self.all_tasks()[(i + r + 1) % n] by {
            if i < n - 1 {
                assert(after.all_tasks()[i] == before.all_tasks()[i + 1]);
            } else {
                assert(after.all_tasks()[i] == before.all_tasks()[0]);
                assert((0 + r) % n == (i + r + 1) % n) by (nonlinear_arith)
                    requires
                        i == n - 1,
                        n > 0,
                        r >= 0,
                ;
            }
        }
        assert(after.current == Some(after.all_tasks()[n - 1]));
        assert((n - 1 + r + 1) % n == r) by (nonlinear_arith)
            requires
                0 <= r < n,
        ;
    }
}

/// The round-robin scheduler.
pub struct Scheduler {
    ready_queue: VecDeque<TaskId>,
    current_task: Option<TaskId>,
}

impl Scheduler {
    pub closed spec fn view(&self) -> SchedulerState {
        SchedulerState { ready: self.ready_queue@, current: self.current_task }
    }

    /// A scheduler without tasks.
    pub fn new() -> (scheduler: Self)
        ensures
            scheduler@ == SchedulerState::initial(),
    {
        Scheduler { ready_queue: VecDeque::new(), current_task: None }
    }

    /// Puts a task at the back of the ready queue.
    pub fn enqueue(&mut self, task_id: TaskId)
        ensures
            final(self)@ == (SchedulerState {
                ready: old(self)@.ready.push(task_id),
                current: old(self)@.current,
            }),
    {
        self.ready_queue.push_back(task_id);
    }

    /// Picks the next task to run: the running task goes to the back of
    /// the ready queue, and the task at the front becomes the running one.
    pub fn schedule(&mut self) -> (next: Option<TaskId>)
        ensures
            next == old(self)@.next_task(),
            final(self)@ == old(self)@.after_schedule(),
    {
        if let Some(current) = self.current_task {
            self.ready_queue.push_back(current);
        }
        self.current_task = self.ready_queue.pop_front();
        assert(self.ready_queue@ =~= old(self)@.after_schedule().ready);
        self.current_task
    }

    /// Records that the running task is done: no task runs.
    pub fn task_completed(&mut self)
        ensures
            final(self)@ == (SchedulerState { ready: old(self)@.ready, current: None }),
    {
        self.current_task = None;
    }

    /// The task that runs.
    pub fn current_task(&self) -> (task: Option<TaskId>)
        ensures
            task == self@.current,
    {
        self.current_task
    }
}

/// Puts a task at the back of the scheduler's ready queue.
pub fn add_task(scheduler: &mut Scheduler, task_id: TaskId)
    ensures
        final(scheduler)@ == (SchedulerState {
            ready: old(scheduler)@.ready.push(task_id),
            current: old(scheduler)@.current,
        }),
{
    scheduler.enqueue(task_id);
}

/// Picks the next task to run.
pub fn schedule_next(scheduler: &mut Scheduler) -> (next: Option<TaskId>)
    ensures
        next == old(scheduler)@.next_task(),
        final(scheduler)@ == old(scheduler)@.after_schedule(),
{
    scheduler.schedule()
}

/// Records that the running task is done.
pub fn mark_completed(scheduler: &mut Scheduler)
    ensures
        final(scheduler)@ == (SchedulerState { ready: old(scheduler)@.ready, current: None }),
{
    scheduler.task_completed();
}

/// The task that runs.
pub fn current_task(scheduler: &Scheduler) -> (task: Option<TaskId>)
    ensures
        task == scheduler@.current,
{
    scheduler.current_task()
}

} // verus!
