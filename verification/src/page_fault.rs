//! Page-fault bookkeeping on a process slot: the `PAGEFAULT` runtime flag
//! and the recorded fault address.
use vstd::prelude::*;
use crate::proc::{rts, KProcess};

verus! {

/// Mark `proc` as having an unhandled page fault at `fault_addr`; the
/// scheduler will not pick it until the flag is cleared.
pub fn set_pagefault_pending(proc: &mut KProcess, fault_addr: u64)
    ensures
        final(proc).p_rts_flags@ == old(proc).p_rts_flags@ | rts::PAGEFAULT,
        final(proc).p_fault_addr == Some(fault_addr),
        final(proc).p_nr == old(proc).p_nr,
        final(proc).p_endpoint == old(proc).p_endpoint,
        final(proc).p_misc_flags@ == old(proc).p_misc_flags@,
{
    proc.p_rts_flags.set(rts::PAGEFAULT);
    proc.p_fault_addr = Some(fault_addr);
}

/// Clear the page-fault mark and address; returns whether it was set.
pub fn clear_pagefault_pending(proc: &mut KProcess) -> (r: bool)
    ensures
        r == (old(proc).p_rts_flags@ & rts::PAGEFAULT != 0),
        final(proc).p_rts_flags@ == old(proc).p_rts_flags@ & !rts::PAGEFAULT,
        final(proc).p_fault_addr.is_none(),
        final(proc).p_nr == old(proc).p_nr,
        final(proc).p_endpoint == old(proc).p_endpoint,
        final(proc).p_misc_flags@ == old(proc).p_misc_flags@,
{
    let was_set = proc.p_rts_flags.is_set(rts::PAGEFAULT);
    proc.p_rts_flags.clear(rts::PAGEFAULT);
    proc.p_fault_addr = None;
    was_set
}

/// Whether `proc` has an unhandled page fault.
pub fn is_pagefault_pending(proc: &KProcess) -> (r: bool)
    ensures
        r == (proc.p_rts_flags@ & rts::PAGEFAULT != 0),
{
    proc.p_rts_flags.is_set(rts::PAGEFAULT)
}

/// The last recorded fault address.
pub fn last_fault_addr(proc: &KProcess) -> (r: Option<u64>)
    ensures
        r == proc.p_fault_addr,
{
    proc.p_fault_addr
}

/// Message type of a page-fault notice to VM.
pub const VM_PAGEFAULT: i32 = 0xcff;

/// The page-fault notice the kernel sends to VM.
#[derive(Debug, Clone, Copy, PartialEq, Eq, Structural)]
pub struct VmPagefaultMsg {
    /// The faulting process.
    pub m_source: crate::types::Endpoint,
    /// Always `VM_PAGEFAULT`.
    pub m_type: i32,
    /// The faulting address.
    pub vpf_addr: u64,
    /// The hardware error code.
    pub vpf_flags: u32,
}

/// Build the page-fault notice for VM.
pub fn build_vm_pagefault_msg(proc_endpoint: crate::types::Endpoint, fault_addr: u64, error_code: u32) -> (r: VmPagefaultMsg)
    ensures
        r.m_source == proc_endpoint,
        r.m_type == VM_PAGEFAULT,
        r.vpf_addr == fault_addr,
        r.vpf_flags == error_code,
{
    VmPagefaultMsg { m_source: proc_endpoint, m_type: VM_PAGEFAULT, vpf_addr: fault_addr, vpf_flags: error_code }
}

} // verus!
