//! The ready queue of the executor: a first-in, first-out queue of task IDs
//! in a ring of slots that is allocated once. A push writes into a slot
//! that is there already, so it can be made from interrupt context.

use vstd::prelude::*;
use super::TaskId;

verus! {

/// The slot that holds the element at place `k` of a queue whose first
/// element is in slot `head` of `capacity` slots.
pub open spec fn slot_of(head: int, k: int, capacity: int) -> int {
    if head + k < capacity {
        head + k
    } else {
        head + k - capacity
    }
}

/// A bounded queue of task IDs.
pub struct ReadyQueue {
    slots: Vec<TaskId>,
    head: usize,
    len: usize,
}

impl ReadyQueue {
    /// The queued IDs, the oldest first.
    pub closed spec fn view(&self) -> Seq<TaskId> {
        Seq::new(
            self.len as nat,
            |k: int| self.slots@[slot_of(self.head as int, k, self.slots@.len() as int)],
        )
    }

    /// The number of IDs that the queue holds at most.
    pub closed spec fn capacity(&self) -> nat {
        self.slots@.len()
    }

    /// The queue has slots, and its first element and its length lie within
    /// them.
    pub closed spec fn wf(&self) -> bool {
        &&& self.slots@.len() > 0
        &&& self.head < self.slots@.len()
        &&& self.len <= self.slots@.len()
    }

    /// A well-formed queue holds no more than its capacity.
    pub proof fn lemma_bounded(&self)
        requires
            self.wf(),
        ensures
            self@.len() <= self.capacity(),
            self.capacity() > 0,
    {
    }

    /// An empty queue of the given capacity.
    pub fn new(capacity: usize) -> (queue: Self)
        requires
            capacity > 0,
        ensures
            queue.wf(),
            queue.capacity() == capacity,
            queue@ == Seq::<TaskId>::empty(),
    {
        let mut slots: Vec<TaskId> = Vec::new();
        slots.resize(capacity, TaskId(0));
        let queue = ReadyQueue { slots, head: 0, len: 0 };
        assert(queue@ =~= Seq::<TaskId>::empty());
        queue
    }

    /// The number of queued IDs.
    pub fn len(&self) -> (n: usize)
        requires
            self.wf(),
        ensures
            n == self@.len(),
    {
        self.len
    }

    /// Puts `id` at the back of the queue if it has room, and says whether
    /// it had.
    pub fn push(&mut self, id: TaskId) -> (queued: bool)
        requires
            old(self).wf(),
        ensures
            final(self).wf(),
            final(self).capacity() == old(self).capacity(),
            queued == (old(self)@.len() < old(self).capacity()),
            queued ==> final(self)@ == old(self)@.push(id),
            !queued ==> final(self)@ == old(self)@,
    {
        let capacity = self.slots.len();
        if self.len == capacity {
            return false;
        }
        let room = capacity - self.len;
        let tail = if self.head >= room {
            self.head - room
        } else {
            self.head + self.len
        };
        self.slots[tail] = id;
        self.len += 1;
        assert(self@ =~= old(self)@.push(id));
        true
    }

    /// Takes the oldest ID off the queue.
    pub fn pop(&mut self) -> (id: Option<TaskId>)
        requires
            old(self).wf(),
        ensures
            final(self).wf(),
            final(self).capacity() == old(self).capacity(),
            old(self)@.len() > 0 ==> id == Some(old(self)@[0]) && final(self)@
                == old(self)@.drop_first(),
            old(self)@.len() == 0 ==> id is None && final(self)@ == old(self)@,
    {
        if self.len == 0 {
            return None;
        }
        let id = self.slots[self.head];
        let capacity = self.slots.len();
        self.head = if self.head + 1 == capacity {
            0
        } else {
            self.head + 1
        };
        self.len -= 1;
        assert(self@ =~= old(self)@.drop_first());
        Some(id)
    }
}

} // verus!
