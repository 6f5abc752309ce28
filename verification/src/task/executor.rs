//! The bookkeeping of the cooperative executor: which tasks are alive, which
//! are ready to be polled, and what the executor does next.
//!
//! The executor that owns the tasks polls them and halts the processor; what
//! it decides rests on this state alone. It reports each event here (a task
//! was spawned, a poll returned, a waker fired) and asks what to do next.

use vstd::prelude::*;
use std::collections::BTreeSet;
use super::ready_queue::ReadyQueue;
use super::TaskId;

verus! {

/// The number of IDs that the ready queue holds at most. The queue is
/// allocated once, so that a wake-up allocates nothing.
pub const READY_QUEUE_CAPACITY: usize = 100;

/// What the executor does next.
#[derive(Debug, Clone, Copy, PartialEq, Eq, Structural)]
pub enum ExecutorAction {
    /// Poll the task with this ID, with a waker that reports `wake` for its ID.
    Poll(TaskId),
    /// No task is ready but some are alive: halt until the next interrupt,
    /// then ask again.
    Halt,
    /// No task is left: return.
    Finished,
}

/// What happens to an executor.
pub enum ExecutorEvent {
    /// A task is spawned.
    Spawn,
    /// The executor asks what to do next.
    Next,
    /// The poll of the task with this ID returned "done".
    Done(TaskId),
    /// The waker of the task with this ID fired.
    Wake(TaskId),
}

/// The executor as the contracts see it.
pub struct ExecutorState {
    /// The IDs of the tasks that are alive.
    pub tasks: Set<u64>,
    /// The ready queue: IDs to poll, the next one first.
    pub ready: Seq<TaskId>,
    /// The ID that the next spawned task gets.
    pub next_id: u64,
}

impl ExecutorState {
    /// No task, nothing ready, and 0 as the first ID.
    pub open spec fn initial() -> ExecutorState {
        ExecutorState { tasks: Set::empty(), ready: Seq::empty(), next_id: 0 }
    }

    /// Every task alive has an ID that was handed out, and the ready queue
    /// holds no more than its capacity.
    pub open spec fn wf(self) -> bool {
        &&& self.tasks.finite()
        &&& forall|id: u64| #[trigger] self.tasks.contains(id) ==> id < self.next_id
        &&& self.ready.len() <= READY_QUEUE_CAPACITY
    }

    /// Whether the ready queue has room for one more ID.
    pub open spec fn has_room(self) -> bool {
        self.ready.len() < READY_QUEUE_CAPACITY
    }

    /// Whether a task can be spawned: an ID is left, and the ready queue
    /// has room for it.
    pub open spec fn can_spawn(self) -> bool {
        self.next_id < u64::MAX && self.has_room()
    }

    /// The executor after a task was spawned: it is alive and ready. When
    /// no task can be spawned nothing changes.
    pub open spec fn after_spawn(self) -> ExecutorState {
        if self.can_spawn() {
            ExecutorState {
                tasks: self.tasks.insert(self.next_id),
                ready: self.ready.push(TaskId(self.next_id)),
                next_id: (self.next_id + 1) as u64,
            }
        } else {
            self
        }
    }

    /// The executor after the waker of `id` fired: the ID is at the back of
    /// the ready queue if the queue had room, else the wake-up is lost.
    pub open spec fn after_wake(self, id: TaskId) -> ExecutorState {
        if self.has_room() {
            ExecutorState { ready: self.ready.push(id), ..self }
        } else {
            self
        }
    }

    /// The place in the ready queue, from `from` on, of the first ID whose
    /// task is alive; the length of the queue if there is none.
    pub open spec fn first_live(self, from: int) -> int
        decreases self.ready.len() - from,
    {
        if from < 0 || from >= self.ready.len() {
            self.ready.len() as int
        } else if self.tasks.contains(self.ready[from].0) {
            from
        } else {
            self.first_live(from + 1)
        }
    }

    /// What the executor does next: it polls the first ready task that is
    /// alive; with none ready it halts while tasks are alive and is
    /// finished when none is.
    pub open spec fn next_action(self) -> ExecutorAction {
        let at = self.first_live(0);
        if at < self.ready.len() {
            ExecutorAction::Poll(self.ready[at])
        } else if self.tasks.len() > 0 {
            ExecutorAction::Halt
        } else {
            ExecutorAction::Finished
        }
    }

    /// The executor after it was asked what to do next: the ready queue
    /// has lost the ID to poll and every ID before it.
    pub open spec fn after_next(self) -> ExecutorState {
        let at = self.first_live(0);
        if at < self.ready.len() {
            ExecutorState { ready: self.ready.skip(at + 1), ..self }
        } else {
            ExecutorState { ready: Seq::empty(), ..self }
        }
    }

    /// The executor after one event.
    pub open spec fn step(self, event: ExecutorEvent) -> ExecutorState {
        match event {
            ExecutorEvent::Spawn => self.after_spawn(),
            ExecutorEvent::Next => self.after_next(),
            ExecutorEvent::Done(id) => ExecutorState { tasks: self.tasks.remove(id.0), ..self },
            ExecutorEvent::Wake(id) => self.after_wake(id),
        }
    }

    /// Whether the event `event` has the executor poll the task `id`.
    pub open spec fn polls(self, event: ExecutorEvent, id: TaskId) -> bool {
        event is Next && self.next_action() == ExecutorAction::Poll(id)
    }

    /// The executor after the events `events`, in order.
    pub open spec fn run(self, events: Seq<ExecutorEvent>) -> ExecutorState
        decreases events.len(),
    {
        if events.len() == 0 {
            self
        } else {
            self.run(events.drop_last()).step(events.last())
        }
    }

    /// `first_live` finds a place at or behind `from` that holds a live ID,
    /// with only dead IDs between `from` and it.
    pub proof fn lemma_first_live(self, from: int)
        requires
            0 <= from <= self.ready.len(),
        ensures
            from <= self.first_live(from) <= self.ready.len(),
            self.first_live(from) < self.ready.len() ==> self.tasks.contains(
                self.ready[self.first_live(from)].0,
            ),
            forall|i: int|
                from <= i < self.first_live(from) ==> !self.tasks.contains(
                    (#[trigger] self.ready[i]).0,
                ),
        decreases self.ready.len() - from,
    {
        if from < self.ready.len() && !self.tasks.contains(self.ready[from].0) {
            self.lemma_first_live(from + 1);
        }
    }

    /// Every event keeps the state well formed.
    pub proof fn lemma_step_wf(self, event: ExecutorEvent)
        requires
            self.wf(),
        ensures
            self.step(event).wf(),
            self.step(event).next_id >= self.next_id,
    {
        self.lemma_first_live(0);
    }

    /// A task that is polled is alive and was ready.
    pub proof fn lemma_polled_was_ready(self, id: TaskId)
        requires
            self.next_action() == ExecutorAction::Poll(id),
        ensures
            self.tasks.contains(id.0),
            self.ready.contains(id),
    {
        self.lemma_first_live(0);
    }

    /// A task that returned "pending" and whose waker never fires is never
    /// polled again: while its ID is not in the ready queue, no event but
    /// its own wake-up puts it there, so no event polls it.
    pub proof fn lemma_unwoken_never_polled(self, id: TaskId, events: Seq<ExecutorEvent>)
        requires
            self.wf(),
            id.0 < self.next_id,
            !self.ready.contains(id),
            forall|i: int| 0 <= i < events.len() ==> events[i] != ExecutorEvent::Wake(id),
        ensures
            !self.run(events).ready.contains(id),
            self.run(events).wf(),
            id.0 < self.run(events).next_id,
            forall|i: int|
                0 <= i < events.len() ==> !self.run(events.take(i)).polls(#[trigger] events[i], id),
        decreases events.len(),
    {
        if events.len() > 0 {
            let earlier = events.drop_last();
            let last = events.last();
            self.lemma_unwoken_never_polled(id, earlier);
            let before = self.run(earlier);
            before.lemma_step_wf(last);
            let after = before.step(last);
            assert(self.run(events) == after);
            assert(last != ExecutorEvent::Wake(id));
            if after.ready.contains(id) {
                let k = choose|k: int| 0 <= k < after.ready.len() && after.ready[k] == id;
                match last {
                    ExecutorEvent::Spawn => {
                        if k < before.ready.len() {
                            assert(before.ready[k] == id);
                        }
                    },
                    ExecutorEvent::Next => {
                        before.lemma_first_live(0);
                        let at = before.first_live(0);
                        assert(before.ready[at + 1 + k] == id);
                    },
                    ExecutorEvent::Done(_) => {},
                    ExecutorEvent::Wake(other) => {
                        if k < before.ready.len() {
                            assert(before.ready[k] == id);
                        }
                    },
                }
            }
            assert forall|i: int| 0 <= i < events.len() implies !self.run(events.take(i)).polls(
                #[trigger] events[i],
                id,
            ) by {
                if i < events.len() - 1 {
                    assert(events.take(i) =~= earlier.take(i));
                    assert(events[i] == earlier[i]);
                } else {
                    assert(events.take(i) =~= earlier);
                    if before.polls(last, id) {
                        before.lemma_polled_was_ready(id);
                    }
                }
            }
        } else {
            assert forall|i: int| 0 <= i < events.len() implies !self.run(events.take(i)).polls(
                #[trigger] events[i],
                id,
            ) by {}
        }
    }

    /// A ready task is polled in the end. If a live task stands at place
    /// `k` of the ready queue, then any event other than its own
    /// completion either polls it or leaves it alive in the queue at a
    /// place no further back; and when the executor asks what to do next,
    /// the place moves forward. So a task that wakes itself on each
    /// "pending" is polled again after at most as many polls as IDs stand
    /// before it.
    pub proof fn lemma_ready_task_advances(self, id: TaskId, k: int, event: ExecutorEvent)
        requires
            self.tasks.contains(id.0),
            0 <= k < self.ready.len(),
            self.ready[k] == id,
            event != ExecutorEvent::Done(id),
        ensures
            self.polls(event, id) || ({
                let after = self.step(event);
                &&& after.tasks.contains(id.0)
                &&& exists|j: int|
                    0 <= j <= k && j < after.ready.len() && #[trigger] after.ready[j] == id && (event
                        is Next ==> j < k)
            }),
    {
        let after = self.step(event);
        match event {
            ExecutorEvent::Next => {
                self.lemma_first_live(0);
                let at = self.first_live(0);
                if self.ready[at] != id {
                    assert(at < k);
                    assert(after.ready[k - at - 1] == id);
                }
            },
            _ => {
                assert(after.ready[k] == id);
            },
        }
    }
}

/// The executor's bookkeeping.
pub struct Executor {
    tasks: BTreeSet<u64>,
    ready: ReadyQueue,
    next_id: u64,
}

impl Executor {
    pub closed spec fn view(&self) -> ExecutorState {
        ExecutorState { tasks: self.tasks@, ready: self.ready@, next_id: self.next_id }
    }

    /// The ready queue has its capacity, and the state is well formed.
    pub closed spec fn wf(&self) -> bool {
        &&& self.ready.wf()
        &&& self.ready.capacity() == READY_QUEUE_CAPACITY
        &&& self@.wf()
    }

    /// A well-formed executor has a well-formed view.
    pub proof fn lemma_wf_view(&self)
        requires
            self.wf(),
        ensures
            self@.wf(),
    {
    }

    /// An executor without tasks.
    pub fn new() -> (executor: Self)
        ensures
            executor.wf(),
            executor@ == ExecutorState::initial(),
    {
        Executor {
            tasks: BTreeSet::new(),
            ready: ReadyQueue::new(READY_QUEUE_CAPACITY),
            next_id: 0,
        }
    }

    /// Registers a new task: it gets the next ID and is ready to be polled.
    /// Returns `None`, and changes nothing, when the IDs are used up or the
    /// ready queue is full.
    pub fn spawn(&mut self) -> (id: Option<TaskId>)
        requires
            old(self).wf(),
        ensures
            final(self).wf(),
            final(self)@ == old(self)@.after_spawn(),
            id == (if old(self)@.can_spawn() {
                Some(TaskId(old(self)@.next_id))
            } else {
                None
            }),
    {
        broadcast use {vstd::std_specs::btree::group_btree_axioms, vstd::laws_cmp::group_laws_cmp};

        if self.next_id == u64::MAX || self.ready.len() == READY_QUEUE_CAPACITY {
            return None;
        }
        let id = TaskId(self.next_id);
        self.next_id += 1;
        self.tasks.insert(id.0);
        self.ready.push(id);
        Some(id)
    }

    /// Says what to do next, and takes the ID to poll, with every ID of a
    /// dead task before it, off the ready queue.
    pub fn next_action(&mut self) -> (action: ExecutorAction)
        requires
            old(self).wf(),
        ensures
            final(self).wf(),
            action == old(self)@.next_action(),
            final(self)@ == old(self)@.after_next(),
    {
        broadcast use {vstd::std_specs::btree::group_btree_axioms, vstd::laws_cmp::group_laws_cmp};

        let ghost before = self@;
        let ghost mut popped: int = 0;
        loop
            invariant
                before == old(self)@,
                before.wf(),
                self.ready.wf(),
                self.ready.capacity() == READY_QUEUE_CAPACITY,
                self.tasks@ == before.tasks,
                self.next_id == before.next_id,
                0 <= popped <= before.ready.len(),
                self.ready@ == before.ready.skip(popped),
                before.first_live(0) == before.first_live(popped),
            decreases self.ready@.len(),
        {
            match self.ready.pop() {
                Some(id) => {
                    assert(id == before.ready[popped]);
                    if self.tasks.contains(&id.0) {
                        assert(before.first_live(popped) == popped);
                        assert(self.ready@ =~= before.after_next().ready);
                        return ExecutorAction::Poll(id);
                    }
                    proof {
                        assert(before.first_live(popped) == before.first_live(popped + 1));
                        assert(self.ready@ =~= before.ready.skip(popped + 1));
                        popped = popped + 1;
                    }
                },
                None => {
                    assert(popped == before.ready.len());
                    assert(before.first_live(popped) == before.ready.len());
                    assert(self.ready@ =~= before.after_next().ready);
                    if self.tasks.len() == 0 {
                        return ExecutorAction::Finished;
                    }
                    return ExecutorAction::Halt;
                },
            }
        }
    }

    /// Records that the poll of `id` returned "done": the task is dropped.
    pub fn task_done(&mut self, id: TaskId)
        requires
            old(self).wf(),
        ensures
            final(self).wf(),
            final(self)@ == old(self)@.step(ExecutorEvent::Done(id)),
    {
        broadcast use {vstd::std_specs::btree::group_btree_axioms, vstd::laws_cmp::group_laws_cmp};

        self.tasks.remove(&id.0);
    }

    /// Records that the waker of `id` fired: the ID goes to the back of
    /// the ready queue, into a slot that is there already. Says whether the
    /// queue had room; if not, the wake-up is lost.
    pub fn wake(&mut self, id: TaskId) -> (queued: bool)
        requires
            old(self).wf(),
        ensures
            final(self).wf(),
            queued == old(self)@.has_room(),
            final(self)@ == old(self)@.step(ExecutorEvent::Wake(id)),
    {
        self.ready.push(id)
    }

    /// The number of tasks alive.
    pub fn task_count(&self) -> (n: usize)
        ensures
            n == self@.tasks.len(),
    {
        broadcast use {vstd::std_specs::btree::group_btree_axioms, vstd::laws_cmp::group_laws_cmp};

        self.tasks.len()
    }
}

} // verus!
