//! Cooperative tasks: their identity, the round-robin scheduler over task
//! IDs, the bookkeeping of the executor, and the scancode channel between the
//! keyboard interrupt and the keyboard task.

use vstd::prelude::*;

pub mod executor;
pub mod keyboard;
pub mod ready_queue;
pub mod scheduler;

verus! {

/// The identity of a task. IDs are handed out in increasing order and never
/// reused.
#[derive(Debug, Clone, Copy, PartialEq, Eq, PartialOrd, Ord, Hash, Structural)]
pub struct TaskId(pub u64);

} // verus!
