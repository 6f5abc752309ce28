//! The scancode channel: a bounded first-in, first-out queue of bytes that
//! the keyboard interrupt fills and the keyboard task empties, and the waker
//! through which the interrupt tells the executor that the task has work.
//!
//! The queue and the waker are one value here, which the kernel keeps in a
//! slot of its own and hands to both sides.

use vstd::prelude::*;
use core::task::Waker;
use crossbeam_queue::ArrayQueue;

verus! {

/// The number of scancodes that the queue holds at most.
pub const SCANCODE_QUEUE_CAPACITY: usize = 100;

/// `crossbeam_queue::ArrayQueue`, the bounded queue of the channel. Nothing
/// is known of a value of it but what `queue_contents` and `queue_capacity`
/// name.
#[verifier::external_type_specification]
#[verifier::external_body]
#[verifier::reject_recursive_types(T)]
pub struct ExArrayQueue<T>(ArrayQueue<T>);

/// `core::task::Waker`, the handle through which a task is told to run
/// again. Nothing is known of a value of it.
#[verifier::external_type_specification]
#[verifier::external_body]
pub struct ExWaker(Waker);

/// The bytes that a queue holds, the oldest first.
pub uninterp spec fn queue_contents(queue: ArrayQueue<u8>) -> Seq<u8>;

/// The capacity that a queue was made with.
pub uninterp spec fn queue_capacity(queue: ArrayQueue<u8>) -> nat;

/// `ArrayQueue::new`: an empty queue of the given capacity. The call panics
/// on a capacity of zero, and on one so large that the next power of two
/// above it has no index type, so both are left out.
#[verifier::external_body]
fn queue_new(capacity: usize) -> (queue: ArrayQueue<u8>)
    requires
        0 < capacity <= 0x4000_0000,
    ensures
        queue_contents(queue) == Seq::<u8>::empty(),
        queue_capacity(queue) == capacity,
{
    ArrayQueue::new(capacity)
}

/// `ArrayQueue::push` on a queue that nobody else touches: a queue with
/// room takes the byte at its back; a full queue hands the byte back and
/// stays as it is.
#[verifier::external_body]
fn queue_push(queue: &mut ArrayQueue<u8>, byte: u8) -> (r: Result<(), u8>)
    ensures
        queue_capacity(*final(queue)) == queue_capacity(*old(queue)),
        queue_contents(*old(queue)).len() < queue_capacity(*old(queue)) ==> r is Ok
            && queue_contents(*final(queue)) == queue_contents(*old(queue)).push(byte),
        queue_contents(*old(queue)).len() >= queue_capacity(*old(queue)) ==> r is Err && r->Err_0
            == byte && queue_contents(*final(queue)) == queue_contents(*old(queue)),
{
    queue.push(byte)
}

/// `ArrayQueue::pop` on a queue that nobody else touches: the oldest byte
/// leaves the queue; an empty queue gives `None` and stays as it is.
#[verifier::external_body]
fn queue_pop(queue: &mut ArrayQueue<u8>) -> (r: Option<u8>)
    ensures
        queue_capacity(*final(queue)) == queue_capacity(*old(queue)),
        queue_contents(*old(queue)).len() > 0 ==> r == Some(queue_contents(*old(queue))[0])
            && queue_contents(*final(queue)) == queue_contents(*old(queue)).drop_first(),
        queue_contents(*old(queue)).len() == 0 ==> r == None::<u8> && queue_contents(
            *final(queue),
        ) == queue_contents(*old(queue)),
{
    queue.pop()
}

/// `Waker::will_wake`: whether two wakers wake the same task. Nothing is
/// claimed of the answer, which rests on addresses.
#[verifier::external_body]
fn wakes_same_task(stored: &Waker, current: &Waker) -> (same: bool) {
    stored.will_wake(current)
}

/// `Waker::clone`. Nothing is claimed of the copy. The call runs the clone
/// function that the maker of the waker supplied: that the library does not
/// panic holds only for wakers whose own functions return.
#[verifier::external_body]
fn waker_clone(waker: &Waker) -> (copy: Waker) {
    waker.clone()
}

/// `Waker::wake_by_ref`: tells the executor that the task can make
/// progress. Nothing is claimed of what the executor then does. The call
/// runs the wake function that the maker of the waker supplied: that the
/// library does not panic holds only for wakers whose own functions return.
#[verifier::external_body]
fn waker_wake(waker: &Waker) {
    waker.wake_by_ref()
}

/// The channel as the contracts see it.
pub struct ChannelState {
    /// The queued scancodes, the oldest first; `None` before the channel
    /// was initialized.
    pub queue: Option<Seq<u8>>,
    /// Whether the keyboard task has left a waker.
    pub waker: bool,
}

/// What became of a scancode that the interrupt handed in.
#[derive(Debug, Clone, Copy, PartialEq, Eq, Structural)]
pub enum ScancodeOutcome {
    /// The channel was not initialized: the byte is lost.
    Uninitialized,
    /// The queue was full: the byte is lost.
    QueueFull,
    /// The byte was queued; `woken` says whether a waker was there to fire.
    Queued { woken: bool },
}

/// What a poll of the scancode stream returns.
#[derive(Debug, Clone, Copy, PartialEq, Eq, Structural)]
pub enum ScancodePoll {
    /// The oldest queued scancode.
    Ready(u8),
    /// The queue is empty; the waker that was handed in will fire when a
    /// scancode arrives.
    Pending,
}

impl ChannelState {
    /// A channel that was not initialized.
    pub open spec fn uninitialized() -> ChannelState {
        ChannelState { queue: None, waker: false }
    }

    /// The queue holds no more than its capacity.
    pub open spec fn wf(self) -> bool {
        self.queue matches Some(bytes) ==> bytes.len() <= SCANCODE_QUEUE_CAPACITY
    }

    /// What becomes of a scancode.
    pub open spec fn add_outcome(self, scancode: u8) -> ScancodeOutcome {
        match self.queue {
            None => ScancodeOutcome::Uninitialized,
            Some(bytes) => if bytes.len() >= SCANCODE_QUEUE_CAPACITY {
                ScancodeOutcome::QueueFull
            } else {
                ScancodeOutcome::Queued { woken: self.waker }
            },
        }
    }

    /// The channel after a scancode was handed in: it stands at the back of
    /// the queue if it was queued; a lost byte changes nothing.
    pub open spec fn after_add(self, scancode: u8) -> ChannelState {
        match self.add_outcome(scancode) {
            ScancodeOutcome::Queued { .. } => ChannelState {
                queue: Some(self.queue->Some_0.push(scancode)),
                ..self
            },
            _ => self,
        }
    }

    /// The channel after the scancodes `scancodes` were handed in, in order.
    pub open spec fn after_adds(self, scancodes: Seq<u8>) -> ChannelState
        decreases scancodes.len(),
    {
        if scancodes.len() == 0 {
            self
        } else {
            self.after_adds(scancodes.drop_last()).after_add(scancodes.last())
        }
    }

    /// What a poll returns on an initialized channel.
    pub open spec fn poll_result(self) -> ScancodePoll {
        if self.queue->Some_0.len() > 0 {
            ScancodePoll::Ready(self.queue->Some_0[0])
        } else {
            ScancodePoll::Pending
        }
    }

    /// The channel after a poll: the scancode that was returned has left
    /// the queue; a poll that found nothing has left a waker.
    pub open spec fn after_poll(self) -> ChannelState {
        if self.queue->Some_0.len() > 0 {
            ChannelState { queue: Some(self.queue->Some_0.drop_first()), ..self }
        } else {
            ChannelState { waker: true, ..self }
        }
    }

    /// The channel after `count` polls.
    pub open spec fn after_polls(self, count: nat) -> ChannelState
        decreases count,
    {
        if count == 0 {
            self
        } else {
            self.after_polls((count - 1) as nat).after_poll()
        }
    }

    /// Scancodes that fit into the queue are all queued, in the order in
    /// which they came, behind what the queue held.
    pub proof fn lemma_adds_append(self, scancodes: Seq<u8>)
        requires
            self.queue is Some,
            self.queue->Some_0.len() + scancodes.len() <= SCANCODE_QUEUE_CAPACITY,
        ensures
            self.after_adds(scancodes) == (ChannelState {
                queue: Some(self.queue->Some_0 + scancodes),
                ..self
            }),
        decreases scancodes.len(),
    {
        if scancodes.len() == 0 {
            assert(self.queue->Some_0 + scancodes =~= self.queue->Some_0);
        } else {
            let earlier = scancodes.drop_last();
            self.lemma_adds_append(earlier);
            assert((self.queue->Some_0 + earlier).push(scancodes.last()) =~= self.queue->Some_0
                + scancodes);
        }
    }

    /// The first `k` polls of a channel that holds at least `k` scancodes
    /// return the `k` oldest ones, oldest first, and take them off the
    /// queue.
    pub proof fn lemma_polls_in_order(self, k: nat)
        requires
            self.queue is Some,
            k <= self.queue->Some_0.len(),
        ensures
            self.after_polls(k).queue == Some(self.queue->Some_0.skip(k as int)),
            self.after_polls(k).waker == self.waker,
            k < self.queue->Some_0.len() ==> self.after_polls(k).poll_result()
                == ScancodePoll::Ready(self.queue->Some_0[k as int]),
        decreases k,
    {
        let bytes = self.queue->Some_0;
        if k == 0 {
            assert(bytes.skip(0) =~= bytes);
        } else {
            self.lemma_polls_in_order((k - 1) as nat);
            assert(bytes.skip(k - 1).drop_first() =~= bytes.skip(k as int));
        }
    }

    /// Whatever the interrupt hands in between two polls, as long as it
    /// fits into the empty queue, the keyboard task gets every byte, in
    /// order: poll number `i` returns byte number `i`.
    pub proof fn lemma_every_byte_arrives(self, scancodes: Seq<u8>, i: nat)
        requires
            self.queue == Some(Seq::<u8>::empty()),
            scancodes.len() <= SCANCODE_QUEUE_CAPACITY,
            i < scancodes.len(),
        ensures
            self.after_adds(scancodes).after_polls(i).poll_result() == ScancodePoll::Ready(
                scancodes[i as int],
            ),
    {
        self.lemma_adds_append(scancodes);
        assert(Seq::<u8>::empty() + scancodes =~= scancodes);
        self.after_adds(scancodes).lemma_polls_in_order(i);
    }
}

/// The scancode channel: the queue, once it was initialized, and the waker
/// of the keyboard task, once it has left one.
pub struct ScancodeChannel {
    queue: Option<ArrayQueue<u8>>,
    waker: Option<Waker>,
}

impl ScancodeChannel {
    pub closed spec fn view(&self) -> ChannelState {
        ChannelState {
            queue: match self.queue {
                Some(queue) => Some(queue_contents(queue)),
                None => None,
            },
            waker: self.waker is Some,
        }
    }

    /// The waker that the keyboard task has left, if it has left one.
    pub closed spec fn stored(&self) -> Option<Waker> {
        self.waker
    }

    /// The queue has the channel's capacity and holds no more than that.
    pub closed spec fn wf(&self) -> bool {
        &&& self.queue matches Some(queue) ==> queue_capacity(queue) == SCANCODE_QUEUE_CAPACITY
            && queue_contents(queue).len() <= SCANCODE_QUEUE_CAPACITY
    }

    /// A well-formed channel has a well-formed view.
    pub proof fn lemma_wf_view(&self)
        requires
            self.wf(),
        ensures
            self@.wf(),
    {
    }

    /// A channel that is not initialized.
    pub fn new() -> (channel: Self)
        ensures
            channel.wf(),
            channel@ == ChannelState::uninitialized(),
            channel.stored() is None,
    {
        ScancodeChannel { queue: None, waker: None }
    }

    /// Whether the channel was initialized.
    pub fn is_initialized(&self) -> (b: bool)
        ensures
            b == self@.queue is Some,
    {
        self.queue.is_some()
    }
}

/// Hands a scancode from the keyboard interrupt to the keyboard task. The
/// byte is queued if the channel was initialized and the queue has room,
/// and then the task's waker is fired by reference if it has left one. The
/// waker itself stays in the channel.
pub fn add_scancode(channel: &mut ScancodeChannel, scancode: u8) -> (outcome: ScancodeOutcome)
    requires
        old(channel).wf(),
    ensures
        final(channel).wf(),
        outcome == old(channel)@.add_outcome(scancode),
        final(channel)@ == old(channel)@.after_add(scancode),
        final(channel).stored() == old(channel).stored(),
{
    match &mut channel.queue {
        None => ScancodeOutcome::Uninitialized,
        Some(queue) => match queue_push(queue, scancode) {
            Err(_) => ScancodeOutcome::QueueFull,
            Ok(()) => match &channel.waker {
                Some(waker) => {
                    waker_wake(waker);
                    ScancodeOutcome::Queued { woken: true }
                },
                None => ScancodeOutcome::Queued { woken: false },
            },
        },
    }
}

/// Leaves a waker for the keyboard task in the channel. `same_task` says
/// whether the waker that is stored, if one is, wakes the same task as
/// `waker`: if so the stored waker stays; a stored waker of another task,
/// and an empty slot, give way to a copy of `waker`. Returns whether the
/// slot was written.
pub fn register_waker(channel: &mut ScancodeChannel, same_task: bool, waker: &Waker) -> (replaced:
    bool)
    requires
        old(channel).wf(),
    ensures
        final(channel).wf(),
        final(channel)@ == (ChannelState { waker: true, ..old(channel)@ }),
        final(channel).stored() is Some,
        replaced == !(same_task && old(channel).stored() is Some),
        !replaced ==> final(channel).stored() == old(channel).stored(),
{
    if same_task && channel.waker.is_some() {
        false
    } else {
        channel.waker = Some(waker_clone(waker));
        true
    }
}

/// The stream of scancodes that the keyboard task reads.
pub struct ScancodeStream {
    _private: (),
}

impl ScancodeStream {
    /// Initializes the channel with an empty queue of 100 bytes and returns
    /// the stream that reads from it. A channel is initialized once.
    pub fn new(channel: &mut ScancodeChannel) -> (stream: Self)
        requires
            old(channel).wf(),
            old(channel)@.queue is None,
        ensures
            final(channel).wf(),
            final(channel)@ == (ChannelState {
                queue: Some(Seq::<u8>::empty()),
                waker: old(channel)@.waker,
            }),
            final(channel).stored() == old(channel).stored(),
    {
        channel.queue = Some(queue_new(SCANCODE_QUEUE_CAPACITY));
        ScancodeStream { _private: () }
    }

    /// Takes the oldest scancode off the queue. If there is none, `waker`
    /// is left in the channel, unless the waker that is there already wakes
    /// the same task, and the queue is looked at once more before the poll
    /// reports that nothing is there. A poll that returns a scancode leaves
    /// the stored waker as it was.
    pub fn poll_next(&mut self, channel: &mut ScancodeChannel, waker: &Waker) -> (r: ScancodePoll)
        requires
            old(channel).wf(),
            old(channel)@.queue is Some,
        ensures
            final(channel).wf(),
            r == old(channel)@.poll_result(),
            final(channel)@ == old(channel)@.after_poll(),
            r is Ready ==> final(channel).stored() == old(channel).stored(),
            r is Pending ==> final(channel).stored() is Some,
    {
        if let Some(scancode) = pop_scancode(channel) {
            return ScancodePoll::Ready(scancode);
        }
        let same_task = match &channel.waker {
            Some(stored) => wakes_same_task(stored, waker),
            None => false,
        };
        register_waker(channel, same_task, waker);
        match pop_scancode(channel) {
            Some(scancode) => ScancodePoll::Ready(scancode),
            None => ScancodePoll::Pending,
        }
    }
}

/// Takes the oldest scancode off the queue of an initialized channel.
fn pop_scancode(channel: &mut ScancodeChannel) -> (r: Option<u8>)
    requires
        old(channel).wf(),
        old(channel)@.queue is Some,
    ensures
        final(channel).wf(),
        final(channel).stored() == old(channel).stored(),
        old(channel)@.queue->Some_0.len() > 0 ==> r == Some(old(channel)@.queue->Some_0[0])
            && final(channel)@.queue == Some(old(channel)@.queue->Some_0.drop_first()),
        old(channel)@.queue->Some_0.len() == 0 ==> r == None::<u8> && final(channel)@.queue == old(
            channel,
        )@.queue,
{
    match &mut channel.queue {
        Some(queue) => queue_pop(queue),
        None => None,
    }
}

} // verus!
