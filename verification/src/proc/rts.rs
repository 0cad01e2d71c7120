//! Runtime status (RTS) flag bits. A process is runnable exactly when none
//! of them is set.
use vstd::prelude::*;

verus! {

/// The slot holds no process.
pub const SLOT_FREE: u32 = 0x01;
/// The process has been stopped.
pub const PROC_STOP: u32 = 0x02;
/// The process is blocked trying to send.
pub const SENDING: u32 = 0x04;
/// The process is blocked trying to receive.
pub const RECEIVING: u32 = 0x08;
/// A kernel signal has been set for the process.
pub const SIGNALED: u32 = 0x10;
/// A signal is pending.
pub const SIG_PENDING: u32 = 0x20;
/// The process is stopped by a tracer.
pub const P_STOP: u32 = 0x40;
/// The process has no privilege structure.
pub const NO_PRIV: u32 = 0x80;
/// The process has no valid endpoint.
pub const NO_ENDPOINT: u32 = 0x100;
/// The process is not runnable until VM allows it.
pub const VMINHIBIT: u32 = 0x200;
/// The process has an unhandled page fault.
pub const PAGEFAULT: u32 = 0x400;
/// The process has a pending memory request to VM.
pub const VMREQUEST: u32 = 0x800;
/// The process is the target of a memory request.
pub const VMREQTARGET: u32 = 0x1000;
/// The process was preempted by a higher-priority process.
pub const PREEMPTED: u32 = 0x4000;
/// The process ran out of its quantum.
pub const NO_QUANTUM: u32 = 0x8000;
/// The process is held back during boot.
pub const BOOTINHIBIT: u32 = 0x10000;

/// Every bit that names a runtime status flag.
pub const ALL: u32 = 0x1dfff;

} // verus!
