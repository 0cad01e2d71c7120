use minix_kernel::proc::{ProcName, SigSet};
use minix_kernel::proc::mf;
use minix_kernel::proc::priority;
use minix_kernel::proc::rts;
use minix_kernel::proc::{
    complete_fork_setup, Accounting, CpuId, CpuMask, CyclesStats, KProcess, Priority, ProcNr, Quantum,
    SchedFields, TimeStats, RtsFlags, MAX_CPUS, NONE_PROC_NR, FORK_VMINHIBIT,
};
use minix_kernel::types::{Endpoint, VirBytes};
use minix_kernel::vm::{VmCheckParams, VmSuspendState, VmSuspendType};
use minix_kernel::ipc::SenderQueue;

#[test]
fn test_cpu_mask_default_all_allows_any_cpu() {
    let mask = CpuMask::all();
    assert!(mask.allows(CpuId::bsp()));
    assert!(mask.allows(CpuId::new_unchecked(1)));
    assert!(mask.allows(CpuId::new_unchecked((MAX_CPUS as u32) - 1)));
    assert!(!mask.allows(CpuId::new_unchecked(MAX_CPUS as u32)));
}

#[test]
fn test_cpu_mask_clear_and_set() {
    let mut mask = CpuMask::all();
    mask.clear(CpuId::new_unchecked(2));
    assert!(!mask.allows(CpuId::new_unchecked(2)));
    assert!(mask.allows(CpuId::bsp()));
    mask.set(CpuId::new_unchecked(2));
    assert!(mask.allows(CpuId::new_unchecked(2)));
}

#[test]
fn test_cpu_mask_empty_allows_nothing() {
    let mask = CpuMask::empty();
    assert!(!mask.allows(CpuId::bsp()));
    assert!(!mask.allows(CpuId::new_unchecked(1)));
}

#[test]
fn test_sched_fields_new_has_all_cpu_mask() {
    let s = SchedFields::new();
    assert!(s.cpu_mask.allows(CpuId::bsp()), "default SchedFields must allow CPU 0");
    assert_eq!(s.cpu, 0);
}

#[test]
fn test_rts_flags_runnable() {
    let mut flags = RtsFlags::new();
    assert!(flags.is_runnable());
    flags.set(rts::PROC_STOP);
    assert!(!flags.is_runnable());
    flags.clear(rts::PROC_STOP);
    assert!(flags.is_runnable());
}

#[test]
fn test_rts_flags_multiple() {
    let mut flags = RtsFlags::new();
    flags.set(rts::SENDING | rts::RECEIVING);
    assert!(flags.is_set(rts::SENDING));
    assert!(flags.is_set(rts::RECEIVING));
    assert!(!flags.is_runnable());
    flags.clear(rts::SENDING);
    assert!(!flags.is_set(rts::SENDING));
    assert!(flags.is_set(rts::RECEIVING));
}

#[test]
fn test_kprocess_new() {
    let proc = KProcess::new(ProcNr(1), Endpoint(1));
    assert_eq!(proc.p_nr, ProcNr(1));
    assert!(!proc.is_runnable());
}

#[test]
fn test_kprocess_runnable() {
    let mut proc = KProcess::new(ProcNr(1), Endpoint(1));
    proc.p_rts_flags.clear(rts::SLOT_FREE);
    assert!(proc.is_runnable());
}

#[test]
fn test_priority_valid() {
    assert!(Priority::new(0).is_some());
    assert!(Priority::new(7).is_some());
    assert!(Priority::new(15).is_some());
    assert!(Priority::new(16).is_none());
    assert!(Priority::new(255).is_none());
}

#[test]
fn test_priority_default() {
    let p = Priority::default();
    assert_eq!(p.get(), priority::USER_Q);
}

#[test]
fn test_priority_is_kernel() {
    let kernel = Priority::new(priority::TASK_Q).unwrap();
    assert!(kernel.is_kernel());
    let user = Priority::new(priority::USER_Q).unwrap();
    assert!(!user.is_kernel());
}

#[test]
fn test_quantum_allocate() {
    let mut q = Quantum::new(200);
    assert_eq!(q.size_ms, 200);
    q.allocate(1_000_000);
    assert_eq!(q.cpu_time_left, 200_000_000);
}

#[test]
fn test_quantum_consume() {
    let mut q = Quantum::new(200);
    q.allocate(1);
    assert!(!q.consume(50));
    assert_eq!(q.cpu_time_left, 150);
    assert!(q.consume(200));
    assert_eq!(q.cpu_time_left, 0);
}

#[test]
fn test_sched_fields_new() {
    let sf = SchedFields::new();
    assert_eq!(sf.priority, priority::USER_Q);
    assert_eq!(sf.cpu, 0);
}

#[test]
fn test_kprocess_priority() {
    let mut proc = KProcess::new(ProcNr(1), Endpoint(1));
    assert_eq!(proc.get_priority(), Priority::new(priority::USER_Q).unwrap());
    proc.set_priority(priority::TASK_Q);
    assert_eq!(proc.get_priority(), Priority::new(priority::TASK_Q).unwrap());
}

#[test]
fn test_accounting_new() {
    let acc = Accounting::new();
    assert_eq!(acc.enter_queue, 0);
    assert_eq!(acc.dequeues, 0);
}

#[test]
fn test_accounting_reset() {
    let mut acc = Accounting::new();
    acc.dequeues = 10;
    acc.ipc_sync = 5;
    acc.reset();
    assert_eq!(acc.dequeues, 0);
    assert_eq!(acc.ipc_sync, 0);
}

#[test]
fn test_accounting_enqueue_dequeue() {
    let mut acc = Accounting::new();
    acc.record_enqueue(1000);
    acc.record_dequeue(1500);
    assert_eq!(acc.time_in_queue, 500);
    assert_eq!(acc.dequeues, 1);
    assert_eq!(acc.enter_queue, 0);
}

#[test]
fn test_accounting_ipc() {
    let mut acc = Accounting::new();
    acc.record_ipc_sync();
    acc.record_ipc_sync();
    acc.record_ipc_async();
    assert_eq!(acc.ipc_sync, 2);
    assert_eq!(acc.ipc_async, 1);
}

#[test]
fn test_time_stats() {
    let mut ts = TimeStats::new();
    ts.add_user_time(10);
    ts.add_sys_time(5);
    assert_eq!(ts.user_time, 10);
    assert_eq!(ts.sys_time, 5);
}

#[test]
fn test_virt_timer() {
    let mut ts = TimeStats::new();
    ts.virt_left = 3;
    assert!(!ts.tick_virt_timer());
    assert!(!ts.tick_virt_timer());
    assert!(ts.tick_virt_timer());
    assert!(!ts.tick_virt_timer());
}

#[test]
fn test_cycles_stats() {
    let mut cs = CyclesStats::new();
    cs.add_cycles(1000);
    cs.add_kcall_cycles(200);
    cs.add_kipc_cycles(50);
    assert_eq!(cs.total, 1000);
    assert_eq!(cs.kcall, 200);
    assert_eq!(cs.kipc, 50);
}

#[test]
fn test_kprocess_accounting() {
    let mut proc = KProcess::new(ProcNr(1), Endpoint(1));
    proc.p_accounting.record_ipc_sync();
    assert_eq!(proc.p_accounting.ipc_sync, 1);
    proc.reset_accounting();
    assert_eq!(proc.p_accounting.ipc_sync, 0);
}

#[test]
fn test_fork_from_basic() {
    let mut parent = KProcess::new(ProcNr(5), Endpoint::from_generation_slot(3, 5));
    parent.p_rts_flags.clear(rts::SLOT_FREE);
    parent.set_priority(priority::USER_Q);
    let child_endpoint = Endpoint::from_generation_slot(1, 10);
    let child = KProcess::fork_from(&parent, ProcNr(10), child_endpoint);
    assert_eq!(child.p_nr, ProcNr(10));
    assert_eq!(child.p_endpoint, child_endpoint);
    assert_eq!(child.get_priority(), parent.get_priority());
    assert_eq!(child.p_time.user_time, 0);
    assert_eq!(child.p_time.sys_time, 0);
    assert!(child.p_pending.is_empty());
}

#[test]
fn test_fork_from_accounting_reset() {
    let mut parent = KProcess::new(ProcNr(5), Endpoint(5));
    parent.p_accounting.record_ipc_sync();
    parent.p_accounting.record_ipc_sync();
    let child = KProcess::fork_from(&parent, ProcNr(10), Endpoint::from_generation_slot(1, 10));
    assert_eq!(child.p_accounting.ipc_sync, 0);
}

#[test]
fn test_fork_from_independent_queues() {
    let mut parent = KProcess::new(ProcNr(5), Endpoint(5));
    parent.p_nextready = 3;
    parent.caller_q.push_back(ProcNr(7));
    let child = KProcess::fork_from(&parent, ProcNr(10), Endpoint::from_generation_slot(1, 10));
    assert_eq!(child.p_nextready, NONE_PROC_NR);
    assert!(child.caller_q.is_empty());
}

#[test]
fn test_fork_from_inherits_ipc_endpoints() {
    let mut parent = KProcess::new(ProcNr(5), Endpoint(5));
    parent.p_getfrom_e = Endpoint(2);
    parent.p_sendto_e = Endpoint(4);
    let child = KProcess::fork_from(&parent, ProcNr(10), Endpoint::from_generation_slot(1, 10));
    assert_eq!(child.p_getfrom_e, Endpoint(2));
    assert_eq!(child.p_sendto_e, Endpoint(4));
}

#[test]
fn test_fork_from_cycles_reset() {
    let mut parent = KProcess::new(ProcNr(5), Endpoint(5));
    parent.p_cycles.add_cycles(1000);
    parent.p_cycles.add_kcall_cycles(200);
    let child = KProcess::fork_from(&parent, ProcNr(10), Endpoint::from_generation_slot(1, 10));
    assert_eq!(child.p_cycles.total, 0);
    assert_eq!(child.p_cycles.kcall, 0);
}

#[test]
fn test_fork_from_rts_flags_corrections() {
    let mut parent = KProcess::new(ProcNr(5), Endpoint::from_generation_slot(1, 5));
    parent.p_rts_flags.clear(rts::SLOT_FREE);
    parent.p_rts_flags.set(rts::SIGNALED | rts::SIG_PENDING | rts::P_STOP);
    let child = KProcess::fork_from(&parent, ProcNr(10), Endpoint::from_generation_slot(1, 10));
    assert!(child.p_rts_flags.is_set(rts::NO_QUANTUM));
    assert!(!child.p_rts_flags.is_set(rts::SIGNALED));
    assert!(!child.p_rts_flags.is_set(rts::SIG_PENDING));
    assert!(!child.p_rts_flags.is_set(rts::P_STOP));
}

#[test]
fn test_fork_from_misc_flags_corrections() {
    let mut parent = KProcess::new(ProcNr(5), Endpoint::from_generation_slot(1, 5));
    parent.p_misc_flags.set(mf::VIRT_TIMER | mf::PROF_TIMER | mf::STEP | mf::SC_TRACE | mf::SPROF_SEEN);
    parent.p_misc_flags.set(mf::REPLY_PEND);
    let child = KProcess::fork_from(&parent, ProcNr(10), Endpoint::from_generation_slot(1, 10));
    assert!(!child.p_misc_flags.is_set(mf::VIRT_TIMER));
    assert!(!child.p_misc_flags.is_set(mf::PROF_TIMER));
    assert!(!child.p_misc_flags.is_set(mf::STEP));
    assert!(!child.p_misc_flags.is_set(mf::SC_TRACE));
    assert!(!child.p_misc_flags.is_set(mf::SPROF_SEEN));
    assert!(child.p_misc_flags.is_set(mf::REPLY_PEND));
}

#[test]
fn test_fork_name_gets_suffix_and_vminhibit() {
    let mut parent = KProcess::new(ProcNr(5), Endpoint(5));
    parent.set_boot_name("init");
    let mut child = KProcess::fork_from(&parent, ProcNr(10), Endpoint::from_generation_slot(1, 10));
    complete_fork_setup(&mut child, true, FORK_VMINHIBIT);
    assert_eq!(child.p_name.as_str(), "init*F");
    assert!(child.p_rts_flags.is_set(rts::VMINHIBIT));
}

#[test]
fn test_set_priority_rejects_out_of_range() {
    let mut proc = KProcess::new(ProcNr(1), Endpoint(1));
    assert!(!proc.set_priority(16));
    assert_eq!(proc.get_priority().get(), priority::USER_Q);
}

#[test]
fn test_fork_suffix_skipped_when_it_does_not_fit() {
    let mut parent = KProcess::new(ProcNr(5), Endpoint(5));
    parent.set_boot_name("abcdefghijklmn");
    let mut child = KProcess::fork_from(&parent, ProcNr(10), Endpoint::from_generation_slot(1, 10));
    complete_fork_setup(&mut child, false, 0);
    assert_eq!(child.p_name.as_str(), "abcdefghijklmn");
    let mut parent2 = KProcess::new(ProcNr(5), Endpoint(5));
    parent2.set_boot_name("abcdefghijklm");
    let mut child2 = KProcess::fork_from(&parent2, ProcNr(10), Endpoint::from_generation_slot(1, 10));
    complete_fork_setup(&mut child2, false, 0);
    assert_eq!(child2.p_name.as_str(), "abcdefghijklm*F");
}

#[test]
fn test_sigset_add_remove_bitmap() {
    let mut s = SigSet::from_raw(0b1000);
    s.add(1);
    assert_eq!(s.get(), 0b1001);
    s.add(64);
    assert_eq!(s.get(), 0b1001 | (1u64 << 63));
    s.add(0);
    s.add(65);
    assert_eq!(s.get(), 0b1001 | (1u64 << 63));
    s.remove(64);
    s.remove(1);
    assert_eq!(s.get(), 0b1000);
}

#[test]
fn test_name_round_trip() {
    assert_eq!(ProcName::from_str("vfs").as_str(), "vfs");
    assert_eq!(ProcName::from_str("0123456789abcde").as_str(), "0123456789abcde");
}

fn vm_params(start: u64, length: u64, write_flag: bool) -> VmCheckParams {
    VmCheckParams { start: VirBytes(start), length: VirBytes(length), write_flag }
}

#[test]
fn test_suspend_for_vm_sets_rts_and_context() {
    let mut proc = KProcess::new(ProcNr(1), Endpoint::from_generation_slot(1, 1));
    proc.p_rts_flags.clear(rts::SLOT_FREE);
    proc.suspend_for_vm(VmSuspendType::KernelCall, Endpoint::from_generation_slot(1, 99), vm_params(0x1000, 0x100, true));
    assert!(proc.p_rts_flags.is_set(rts::VMREQUEST));
    assert!(proc.p_vm_suspend.is_some());
    assert!(proc.is_vm_suspended());
    let ctx = proc.vm_suspend_context().unwrap();
    assert_eq!(ctx.suspend_type, VmSuspendType::KernelCall);
    assert_eq!(ctx.state, VmSuspendState::Pending);
    assert_eq!(ctx.target, Endpoint::from_generation_slot(1, 99));
    assert_eq!(ctx.check_params, vm_params(0x1000, 0x100, true));
}

#[test]
fn test_clear_vm_suspend() {
    let mut proc = KProcess::new(ProcNr(1), Endpoint::from_generation_slot(1, 1));
    proc.p_rts_flags.clear(rts::SLOT_FREE);
    proc.suspend_for_vm(VmSuspendType::KernelCall, Endpoint::from_generation_slot(1, 99), vm_params(0x1000, 0x100, true));
    assert!(proc.is_vm_suspended());
    proc.clear_vm_suspend();
    assert!(!proc.is_vm_suspended());
    assert!(!proc.p_rts_flags.is_set(rts::VMREQUEST));
    assert!(proc.p_vm_suspend.is_none());
    assert!(proc.vm_suspend_context().is_none());
}

#[test]
fn test_clear_vm_suspend_does_not_clear_kcall_resume() {
    let mut proc = KProcess::new(ProcNr(1), Endpoint::from_generation_slot(1, 1));
    proc.p_rts_flags.clear(rts::SLOT_FREE);
    proc.suspend_for_vm(VmSuspendType::KernelCall, Endpoint::from_generation_slot(1, 99), vm_params(0x1000, 0x100, true));
    proc.p_misc_flags.set(mf::KCALL_RESUME);
    proc.p_rts_flags.clear(rts::VMREQUEST);
    proc.clear_vm_suspend();
    assert!(proc.p_misc_flags.is_set(mf::KCALL_RESUME));
}

#[test]
fn test_fork_child_has_no_vm_suspend() {
    let mut parent = KProcess::new(ProcNr(5), Endpoint::from_generation_slot(1, 5));
    parent.p_rts_flags.clear(rts::SLOT_FREE);
    parent.suspend_for_vm(VmSuspendType::KernelCall, Endpoint::from_generation_slot(1, 99), vm_params(0x1000, 0x100, true));
    let child = KProcess::fork_from(&parent, ProcNr(10), Endpoint::from_generation_slot(1, 10));
    assert!(!child.is_vm_suspended());
    assert!(child.p_vm_suspend.is_none());
    assert_eq!(child.p_next_requestor, None);
}

#[test]
fn test_is_vm_suspended_reflects_rts_flag() {
    let proc = KProcess::new(ProcNr(1), Endpoint::from_generation_slot(1, 1));
    assert!(!proc.is_vm_suspended());
}

#[test]
fn test_fresh_process_has_magic_and_empty_sender_queue() {
    let proc = KProcess::new(ProcNr(3), Endpoint(3));
    assert_eq!(proc.p_magic, minix_kernel::proc::PMAGIC);
    assert!(proc.caller_q.is_empty());
    assert!(proc.p_vm_suspend.is_none());
}

#[test]
fn test_sender_queue_remove_by_nr_keeps_order() {
    let mut q = SenderQueue::new();
    q.push_back(ProcNr(4));
    q.push_back(ProcNr(7));
    q.push_back(ProcNr(9));
    q.push_back(ProcNr(7));
    assert!(q.remove_by_nr(ProcNr(7)));
    assert_eq!(q.len(), 3);
    assert!(q.remove_by_nr(ProcNr(7)));
    assert!(!q.remove_by_nr(ProcNr(7)));
    assert!(q.remove_by_nr(ProcNr(4)));
    assert!(q.remove_by_nr(ProcNr(9)));
    assert!(q.is_empty());
}
