//! Scheduling queue numbers (priorities).
use vstd::prelude::*;

verus! {

/// Priority of kernel tasks (highest).
pub const TASK_Q: u8 = 0;
/// Highest priority a user process may get.
pub const MAX_USER_Q: u8 = 0;
/// Default priority of user processes.
pub const USER_Q: u8 = 7;
/// Lowest priority.
pub const MIN_USER_Q: u8 = 15;
/// Number of scheduling queues.
pub const NR_SCHED_QUEUES: usize = 16;

} // verus!
