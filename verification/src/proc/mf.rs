//! Miscellaneous process flag bits.
use vstd::prelude::*;

verus! {

/// A reply to a SENDREC is pending.
pub const REPLY_PEND: u32 = 0x001;
/// The virtual timer is running.
pub const VIRT_TIMER: u32 = 0x002;
/// The profiling timer is running.
pub const PROF_TIMER: u32 = 0x004;
/// A kernel call must be resumed.
pub const KCALL_RESUME: u32 = 0x008;
/// A message must be delivered.
pub const DELIVERMSG: u32 = 0x040;
/// A signal is delayed.
pub const SIG_DELAY: u32 = 0x080;
/// A traced system call is active.
pub const SC_ACTIVE: u32 = 0x100;
/// A system call is deferred.
pub const SC_DEFER: u32 = 0x200;
/// System calls are traced.
pub const SC_TRACE: u32 = 0x400;
/// The extended register state has been initialized.
pub const EXT_REG_INITIALIZED: u32 = 0x1000;
/// The process is sending on behalf of the kernel.
pub const SENDING_FROM_KERNEL: u32 = 0x2000;
/// The context has been set.
pub const CONTEXT_SET: u32 = 0x4000;
/// The profiler has already recorded this process.
pub const SPROF_SEEN: u32 = 0x8000;
/// The TLB must be flushed.
pub const FLUSH_TLB: u32 = 0x10000;
/// An asynchronous send missed a VM page.
pub const SENDA_VM_MISS: u32 = 0x20000;
/// Single-step the process.
pub const STEP: u32 = 0x40000;
/// Message delivery failed once.
pub const MSGFAILED: u32 = 0x80000;
/// The priority was changed by nice.
pub const NICED: u32 = 0x100000;

/// Every bit that names a miscellaneous flag.
pub const ALL: u32 = 0x1ff7cf;

} // verus!
