//! Well-known process numbers (slot numbers; kernel tasks are negative).
use vstd::prelude::*;

verus! {

/// Lowest kernel task number.
pub const MIN_TASK_NR: i32 = -5;
/// The idle task.
pub const IDLE: i32 = -4;
/// The clock task.
pub const CLOCK: i32 = -3;
/// The system task.
pub const SYSTEM: i32 = -2;
/// The kernel pseudo-process.
pub const KERNEL: i32 = -1;
/// The reincarnation server.
pub const RS_PROC_NR: i32 = 1;
/// The virtual-memory server.
pub const VM_PROC_NR: i32 = 8;

} // verus!
