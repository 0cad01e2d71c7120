//! Verified core of a Minix-style microkernel: process slots, scheduling
//! queues, privilege table, memory map and SMP bookkeeping.

pub mod types;
pub mod proc;
pub mod ipc;
pub mod vm;
pub mod page_fault;
pub mod clock;
pub mod sched;
pub mod proc_table;
pub mod memmap;
pub mod priv_table;
pub mod smp;
pub mod globals;
pub mod pte_walk;
pub mod errno;
pub mod misc;
pub mod boot;
