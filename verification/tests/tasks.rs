use lithos::task::executor::{Executor, ExecutorAction, READY_QUEUE_CAPACITY};
use lithos::task::ready_queue::ReadyQueue;
use lithos::task::keyboard::{
    add_scancode, register_waker, ScancodeChannel, ScancodeOutcome, ScancodePoll, ScancodeStream,
    SCANCODE_QUEUE_CAPACITY,
};
use lithos::task::scheduler::{
    add_task, current_task, mark_completed, schedule_next, Scheduler,
};
use lithos::task::TaskId;
use std::sync::atomic::{AtomicUsize, Ordering};
use std::sync::Arc;
use std::task::{Wake, Waker};

struct CountingWaker {
    woken: AtomicUsize,
}

impl Wake for CountingWaker {
    fn wake(self: Arc<Self>) {
        self.woken.fetch_add(1, Ordering::SeqCst);
    }

    fn wake_by_ref(self: &Arc<Self>) {
        self.woken.fetch_add(1, Ordering::SeqCst);
    }
}

fn counting_waker() -> (Arc<CountingWaker>, Waker) {
    let counter = Arc::new(CountingWaker { woken: AtomicUsize::new(0) });
    let waker = Waker::from(counter.clone());
    (counter, waker)
}

#[test]
fn scheduler_starts_empty() {
    let mut s = Scheduler::new();
    assert_eq!(s.current_task(), None);
    assert_eq!(s.schedule(), None);
    assert_eq!(s.current_task(), None);
}

#[test]
fn scheduler_is_round_robin() {
    let mut s = Scheduler::new();
    s.enqueue(TaskId(1));
    s.enqueue(TaskId(2));
    s.enqueue(TaskId(3));
    assert_eq!(s.schedule(), Some(TaskId(1)));
    assert_eq!(s.current_task(), Some(TaskId(1)));
    assert_eq!(s.schedule(), Some(TaskId(2)));
    assert_eq!(s.schedule(), Some(TaskId(3)));
    assert_eq!(s.schedule(), Some(TaskId(1)));
    assert_eq!(s.schedule(), Some(TaskId(2)));
    s.task_completed();
    assert_eq!(s.current_task(), None);
    assert_eq!(s.schedule(), Some(TaskId(3)));
    assert_eq!(s.schedule(), Some(TaskId(1)));
    assert_eq!(s.schedule(), Some(TaskId(3)));
}

#[test]
fn scheduler_single_task_keeps_running() {
    let mut s = Scheduler::new();
    s.enqueue(TaskId(9));
    assert_eq!(s.schedule(), Some(TaskId(9)));
    assert_eq!(s.schedule(), Some(TaskId(9)));
    s.task_completed();
    assert_eq!(s.schedule(), None);
}

#[test]
fn scheduler_free_functions() {
    let mut s = Scheduler::new();
    add_task(&mut s, TaskId(4));
    add_task(&mut s, TaskId(5));
    assert_eq!(current_task(&s), None);
    assert_eq!(schedule_next(&mut s), Some(TaskId(4)));
    assert_eq!(current_task(&s), Some(TaskId(4)));
    mark_completed(&mut s);
    assert_eq!(current_task(&s), None);
    assert_eq!(schedule_next(&mut s), Some(TaskId(5)));
    assert_eq!(schedule_next(&mut s), Some(TaskId(5)));
}

#[test]
fn executor_without_tasks_is_finished() {
    let mut e = Executor::new();
    assert_eq!(e.task_count(), 0);
    assert_eq!(e.next_action(), ExecutorAction::Finished);
}

#[test]
fn executor_spawn_assigns_increasing_ids_and_polls_in_order() {
    let mut e = Executor::new();
    assert_eq!(e.spawn(), Some(TaskId(0)));
    assert_eq!(e.spawn(), Some(TaskId(1)));
    assert_eq!(e.spawn(), Some(TaskId(2)));
    assert_eq!(e.task_count(), 3);
    assert_eq!(e.next_action(), ExecutorAction::Poll(TaskId(0)));
    assert_eq!(e.next_action(), ExecutorAction::Poll(TaskId(1)));
    assert_eq!(e.next_action(), ExecutorAction::Poll(TaskId(2)));
    assert_eq!(e.next_action(), ExecutorAction::Halt);
    assert_eq!(e.next_action(), ExecutorAction::Halt);
}

#[test]
fn executor_pending_task_is_polled_again_only_after_wake() {
    let mut e = Executor::new();
    let a = e.spawn().unwrap();
    let b = e.spawn().unwrap();
    assert_eq!(e.next_action(), ExecutorAction::Poll(a));
    assert_eq!(e.next_action(), ExecutorAction::Poll(b));
    e.wake(b);
    assert_eq!(e.next_action(), ExecutorAction::Poll(b));
    assert_eq!(e.next_action(), ExecutorAction::Halt);
    e.wake(b);
    e.wake(a);
    assert_eq!(e.next_action(), ExecutorAction::Poll(b));
    assert_eq!(e.next_action(), ExecutorAction::Poll(a));
    assert_eq!(e.next_action(), ExecutorAction::Halt);
}

#[test]
fn executor_self_waking_task_is_polled_every_round() {
    let mut e = Executor::new();
    let a = e.spawn().unwrap();
    let b = e.spawn().unwrap();
    for _ in 0..10 {
        assert_eq!(e.next_action(), ExecutorAction::Poll(a));
        e.wake(a);
        assert_eq!(e.next_action(), ExecutorAction::Poll(b));
        e.wake(b);
    }
}

#[test]
fn executor_drops_done_tasks_and_skips_their_wakeups() {
    let mut e = Executor::new();
    let a = e.spawn().unwrap();
    let b = e.spawn().unwrap();
    assert_eq!(e.next_action(), ExecutorAction::Poll(a));
    e.wake(a);
    e.task_done(a);
    assert_eq!(e.task_count(), 1);
    assert_eq!(e.next_action(), ExecutorAction::Poll(b));
    e.wake(a);
    assert_eq!(e.next_action(), ExecutorAction::Halt);
    e.task_done(b);
    assert_eq!(e.next_action(), ExecutorAction::Finished);
    assert_eq!(e.spawn(), Some(TaskId(2)));
    assert_eq!(e.next_action(), ExecutorAction::Poll(TaskId(2)));
}

#[test]
fn scancode_before_init_is_dropped() {
    let mut channel = ScancodeChannel::new();
    assert!(!channel.is_initialized());
    assert_eq!(add_scancode(&mut channel, 0x1E), ScancodeOutcome::Uninitialized);
    let _stream = ScancodeStream::new(&mut channel);
    assert!(channel.is_initialized());
}

#[test]
fn scancodes_arrive_in_order() {
    let mut channel = ScancodeChannel::new();
    let mut stream = ScancodeStream::new(&mut channel);
    let (_, waker) = counting_waker();
    for b in [0x1Eu8, 0x9E, 0x30, 0xB0] {
        assert_eq!(add_scancode(&mut channel, b), ScancodeOutcome::Queued { woken: false });
    }
    for b in [0x1Eu8, 0x9E, 0x30, 0xB0] {
        assert_eq!(stream.poll_next(&mut channel, &waker), ScancodePoll::Ready(b));
    }
    assert_eq!(stream.poll_next(&mut channel, &waker), ScancodePoll::Pending);
}

#[test]
fn scancode_queue_holds_one_hundred() {
    assert_eq!(SCANCODE_QUEUE_CAPACITY, 100);
    let mut channel = ScancodeChannel::new();
    let mut stream = ScancodeStream::new(&mut channel);
    for i in 0..100u8 {
        assert_eq!(add_scancode(&mut channel, i), ScancodeOutcome::Queued { woken: false });
    }
    assert_eq!(add_scancode(&mut channel, 200), ScancodeOutcome::QueueFull);
    assert_eq!(add_scancode(&mut channel, 201), ScancodeOutcome::QueueFull);
    let waker = Waker::noop();
    for i in 0..100u8 {
        assert_eq!(stream.poll_next(&mut channel, waker), ScancodePoll::Ready(i));
    }
    assert_eq!(stream.poll_next(&mut channel, waker), ScancodePoll::Pending);
    assert_eq!(add_scancode(&mut channel, 7), ScancodeOutcome::Queued { woken: true });
    assert_eq!(stream.poll_next(&mut channel, waker), ScancodePoll::Ready(7));
}

#[test]
fn pending_poll_registers_the_waker_that_the_interrupt_fires() {
    let mut channel = ScancodeChannel::new();
    let mut stream = ScancodeStream::new(&mut channel);
    let (counter, waker) = counting_waker();
    assert_eq!(stream.poll_next(&mut channel, &waker), ScancodePoll::Pending);
    assert_eq!(counter.woken.load(Ordering::SeqCst), 0);
    assert_eq!(add_scancode(&mut channel, 1), ScancodeOutcome::Queued { woken: true });
    assert_eq!(counter.woken.load(Ordering::SeqCst), 1);
    assert_eq!(add_scancode(&mut channel, 2), ScancodeOutcome::Queued { woken: true });
    assert_eq!(counter.woken.load(Ordering::SeqCst), 2);
    assert_eq!(stream.poll_next(&mut channel, &waker), ScancodePoll::Ready(1));
    assert_eq!(stream.poll_next(&mut channel, &waker), ScancodePoll::Ready(2));
}

#[test]
fn pending_poll_replaces_a_waker_of_another_task() {
    let mut channel = ScancodeChannel::new();
    let mut stream = ScancodeStream::new(&mut channel);
    let (first, first_waker) = counting_waker();
    let (second, second_waker) = counting_waker();
    assert_eq!(stream.poll_next(&mut channel, &first_waker), ScancodePoll::Pending);
    assert_eq!(stream.poll_next(&mut channel, &second_waker), ScancodePoll::Pending);
    assert_eq!(add_scancode(&mut channel, 9), ScancodeOutcome::Queued { woken: true });
    assert_eq!(first.woken.load(Ordering::SeqCst), 0);
    assert_eq!(second.woken.load(Ordering::SeqCst), 1);
}

#[test]
fn a_waker_of_the_same_task_is_kept_and_another_is_replaced() {
    let mut channel = ScancodeChannel::new();
    let _stream = ScancodeStream::new(&mut channel);
    let (first, first_waker) = counting_waker();
    let (second, second_waker) = counting_waker();
    assert!(register_waker(&mut channel, false, &first_waker));
    assert!(register_waker(&mut channel, true, &first_waker) == false);
    assert!(register_waker(&mut channel, true, &second_waker) == false);
    assert_eq!(add_scancode(&mut channel, 1), ScancodeOutcome::Queued { woken: true });
    assert_eq!(first.woken.load(Ordering::SeqCst), 1);
    assert_eq!(second.woken.load(Ordering::SeqCst), 0);
    assert!(register_waker(&mut channel, false, &second_waker));
    assert_eq!(add_scancode(&mut channel, 2), ScancodeOutcome::Queued { woken: true });
    assert_eq!(first.woken.load(Ordering::SeqCst), 1);
    assert_eq!(second.woken.load(Ordering::SeqCst), 1);
    let mut empty = ScancodeChannel::new();
    assert!(register_waker(&mut empty, true, &first_waker));
}

#[test]
fn a_repeated_pending_poll_of_one_task_keeps_its_waker() {
    let mut channel = ScancodeChannel::new();
    let mut stream = ScancodeStream::new(&mut channel);
    let (counter, waker) = counting_waker();
    assert_eq!(stream.poll_next(&mut channel, &waker), ScancodePoll::Pending);
    assert_eq!(stream.poll_next(&mut channel, &waker), ScancodePoll::Pending);
    assert_eq!(stream.poll_next(&mut channel, &waker.clone()), ScancodePoll::Pending);
    assert_eq!(add_scancode(&mut channel, 3), ScancodeOutcome::Queued { woken: true });
    assert_eq!(counter.woken.load(Ordering::SeqCst), 1);
}

#[test]
fn ready_queue_is_a_bounded_fifo() {
    let mut q = ReadyQueue::new(3);
    assert_eq!(q.len(), 0);
    assert_eq!(q.pop(), None);
    assert!(q.push(TaskId(1)));
    assert!(q.push(TaskId(2)));
    assert!(q.push(TaskId(3)));
    assert!(!q.push(TaskId(4)));
    assert_eq!(q.len(), 3);
    assert_eq!(q.pop(), Some(TaskId(1)));
    assert!(q.push(TaskId(5)));
    assert!(!q.push(TaskId(6)));
    assert_eq!(q.pop(), Some(TaskId(2)));
    assert_eq!(q.pop(), Some(TaskId(3)));
    assert_eq!(q.pop(), Some(TaskId(5)));
    assert_eq!(q.pop(), None);
    assert_eq!(q.len(), 0);
    for round in 0..10u64 {
        assert!(q.push(TaskId(round)));
        assert!(q.push(TaskId(round + 100)));
        assert_eq!(q.pop(), Some(TaskId(round)));
        assert_eq!(q.pop(), Some(TaskId(round + 100)));
    }
}

#[test]
fn wake_ups_beyond_the_capacity_of_the_ready_queue_are_lost() {
    assert_eq!(READY_QUEUE_CAPACITY, 100);
    let mut e = Executor::new();
    let a = e.spawn().unwrap();
    let b = e.spawn().unwrap();
    assert_eq!(e.next_action(), ExecutorAction::Poll(a));
    assert_eq!(e.next_action(), ExecutorAction::Poll(b));
    for _ in 0..100 {
        assert!(e.wake(a));
    }
    assert!(!e.wake(b));
    assert_eq!(e.spawn(), None);
    for _ in 0..100 {
        assert_eq!(e.next_action(), ExecutorAction::Poll(a));
    }
    assert_eq!(e.next_action(), ExecutorAction::Halt);
    assert!(e.wake(b));
    assert_eq!(e.next_action(), ExecutorAction::Poll(b));
    assert_eq!(e.spawn(), Some(TaskId(2)));
}
