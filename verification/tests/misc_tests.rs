use minix_kernel::errno::{E2BIG, EBUSY, EFAULT, EINVAL, ENOSYS, EPERM, OK};
use minix_kernel::misc::{
    dispatch_getinfo, dispatch_trace, dispatch_unused, dispatch_update, proc_is_updatable, val_len_fits,
    GetInfoRequest, GetInfoStep, KcallResult, PrivInfoStruct, ProcInfoStruct, ProfAction, ProfIntrType, ProfStep,
    SprofState, TraceAction, TraceRequest, SAMPLE_BUFFER_SIZE, SPROF_PROC_SIZE, SPROF_SAMPLE_SIZE,
};
use minix_kernel::priv_table::{PrivFlags, PrivTable, SysId};
use minix_kernel::proc::mf;
use minix_kernel::proc::proc_nr;
use minix_kernel::proc::rts;
use minix_kernel::proc::{KProcess, ProcNr};
use minix_kernel::proc_table::ProcessTable;
use minix_kernel::types::{Endpoint, ENDPOINT_NONE, ENDPOINT_SELF};

const T_STOP: i32 = -1;
const T_GETINS: i32 = 1;
const T_SETINS: i32 = 4;
const T_RESUME: i32 = 7;
const T_EXIT: i32 = 8;
const T_DETACH: i32 = 10;
const T_SYSCALL: i32 = 14;
const T_GETUSER: i32 = 102;
const T_SETUSER: i32 = 103;
const T_STEP: i32 = 104;

const PROC_SIZE: u64 = 128;
const PRIV_SIZE: u64 = 40;

fn make_proc_table_with_user(nr: i32, endpoint_val: i32) -> ProcessTable {
    let mut proc_table = ProcessTable::new();
    if let Some(p) = proc_table.get_mut(ProcNr(nr)) {
        p.p_endpoint = Endpoint(endpoint_val);
        p.p_rts_flags.clear(rts::SLOT_FREE);
    }
    proc_table
}

fn trace(pt: &mut ProcessTable, request: i32, endpt: i32, addr: u64, data: i64) -> Result<TraceAction, i32> {
    dispatch_trace(pt, request, endpt, addr, data, PROC_SIZE, PRIV_SIZE)
}

#[test]
fn test_getinfo_request_try_from() {
    assert_eq!(GetInfoRequest::try_from(0), Ok(GetInfoRequest::KInfo));
    assert_eq!(GetInfoRequest::try_from(11), Ok(GetInfoRequest::Proc));
    assert_eq!(GetInfoRequest::try_from(15), Ok(GetInfoRequest::LoadInfo));
    assert_eq!(GetInfoRequest::try_from(19), Ok(GetInfoRequest::WhoAmI));
    assert_eq!(GetInfoRequest::try_from(25), Ok(GetInfoRequest::CpuTicks));
    assert_eq!(GetInfoRequest::try_from(7), Err(()));
    assert_eq!(GetInfoRequest::try_from(9), Err(()));
    assert_eq!(GetInfoRequest::try_from(10), Err(()));
    assert_eq!(GetInfoRequest::try_from(99), Err(()));
}

#[test]
fn test_getinfo_code_round_trip_all() {
    for v in -2..40 {
        if let Ok(q) = GetInfoRequest::try_from(v) {
            assert_eq!(q.code(), v);
        }
    }
}

#[test]
fn test_trace_request_try_from() {
    assert_eq!(TraceRequest::try_from(-1), Ok(TraceRequest::Stop));
    assert_eq!(TraceRequest::try_from(1), Ok(TraceRequest::GetIns));
    assert_eq!(TraceRequest::try_from(7), Ok(TraceRequest::Resume));
    assert_eq!(TraceRequest::try_from(104), Ok(TraceRequest::Step));
    assert_eq!(TraceRequest::try_from(14), Ok(TraceRequest::Syscall));
    assert_eq!(TraceRequest::try_from(0), Err(()));
    assert_eq!(TraceRequest::try_from(8), Err(()));
    assert_eq!(TraceRequest::try_from(99), Err(()));
}

#[test]
fn test_prof_wire_values() {
    assert_eq!(ProfAction::try_from(0), Ok(ProfAction::Start));
    assert_eq!(ProfAction::try_from(1), Ok(ProfAction::Stop));
    assert_eq!(ProfAction::try_from(2), Err(()));
    assert_eq!(ProfIntrType::try_from(0), Ok(ProfIntrType::Rtc));
    assert_eq!(ProfIntrType::try_from(1), Ok(ProfIntrType::Nmi));
    assert_eq!(ProfIntrType::try_from(-1), Err(()));
}

#[test]
fn test_dispatch_unused() {
    assert!(matches!(dispatch_unused(), KcallResult::Reply(ENOSYS)));
    assert_eq!(ENOSYS, 78);
}

#[test]
fn test_dispatch_trace_step_clears_proc_stop_and_sets_step_flag() {
    let mut pt = make_proc_table_with_user(0, 100);
    pt.get_mut(ProcNr(0)).unwrap().p_rts_flags.set(rts::PROC_STOP);
    let result = trace(&mut pt, T_STEP, 100, 0, 0);
    assert_eq!(result, Ok(TraceAction::Reply(Some(0))));
    let target = pt.get(ProcNr(0)).unwrap();
    assert!(target.p_misc_flags.is_set(mf::STEP));
    assert!(!target.p_rts_flags.is_set(rts::PROC_STOP));
}

#[test]
fn test_dispatch_trace_resume_clears_proc_stop() {
    let mut pt = make_proc_table_with_user(0, 100);
    pt.get_mut(ProcNr(0)).unwrap().p_rts_flags.set(rts::PROC_STOP);
    let result = trace(&mut pt, T_RESUME, 100, 0, 0);
    assert_eq!(result, Ok(TraceAction::Reply(Some(0))));
    assert!(!pt.get(ProcNr(0)).unwrap().p_rts_flags.is_set(rts::PROC_STOP));
}

#[test]
fn test_dispatch_trace_stop_sets_proc_stop_and_clears_trace_flags() {
    let mut pt = make_proc_table_with_user(0, 100);
    pt.get_mut(ProcNr(0)).unwrap().p_misc_flags.set(mf::SC_TRACE | mf::STEP);
    let result = trace(&mut pt, T_STOP, 100, 0, 0);
    assert_eq!(result, Ok(TraceAction::Reply(None)));
    let target = pt.get(ProcNr(0)).unwrap();
    assert!(target.p_rts_flags.is_set(rts::PROC_STOP));
    assert!(!target.p_misc_flags.is_set(mf::SC_TRACE));
    assert!(!target.p_misc_flags.is_set(mf::STEP));
}

#[test]
fn test_dispatch_trace_detach_clears_sc_active_and_proc_stop() {
    let mut pt = make_proc_table_with_user(0, 100);
    pt.get_mut(ProcNr(0)).unwrap().p_rts_flags.set(rts::PROC_STOP);
    pt.get_mut(ProcNr(0)).unwrap().p_misc_flags.set(mf::SC_ACTIVE);
    let result = trace(&mut pt, T_DETACH, 100, 0, 0);
    assert_eq!(result, Ok(TraceAction::Reply(Some(0))));
    let target = pt.get(ProcNr(0)).unwrap();
    assert!(!target.p_misc_flags.is_set(mf::SC_ACTIVE));
    assert!(!target.p_rts_flags.is_set(rts::PROC_STOP));
}

#[test]
fn test_dispatch_trace_syscall_sets_sc_trace_and_clears_proc_stop() {
    let mut pt = make_proc_table_with_user(0, 100);
    pt.get_mut(ProcNr(0)).unwrap().p_rts_flags.set(rts::PROC_STOP);
    let result = trace(&mut pt, T_SYSCALL, 100, 0, 0);
    assert_eq!(result, Ok(TraceAction::Reply(Some(0))));
    let target = pt.get(ProcNr(0)).unwrap();
    assert!(target.p_misc_flags.is_set(mf::SC_TRACE));
    assert!(!target.p_rts_flags.is_set(rts::PROC_STOP));
}

#[test]
fn test_dispatch_trace_exit_returns_einval() {
    let mut pt = make_proc_table_with_user(0, 100);
    assert_eq!(trace(&mut pt, T_EXIT, 100, 0, 0), Err(EINVAL));
}

#[test]
fn test_dispatch_trace_getins_wired_to_data_copy_vmcheck() {
    let mut pt = make_proc_table_with_user(0, 100);
    let result = trace(&mut pt, T_GETINS, 100, 0x4000, 0);
    assert_eq!(result, Ok(TraceAction::CopyFromProc { endpoint: Endpoint(100), addr: 0x4000, len: 8 }));
}

#[test]
fn test_dispatch_trace_getins_unaligned_no_alignment_check() {
    let mut pt = make_proc_table_with_user(0, 100);
    let result = trace(&mut pt, T_GETINS, 100, 0x4003, 0);
    assert_eq!(result, Ok(TraceAction::CopyFromProc { endpoint: Endpoint(100), addr: 0x4003, len: 8 }));
}

#[test]
fn test_dispatch_trace_setins_unaligned_no_alignment_check() {
    let mut pt = make_proc_table_with_user(0, 100);
    let result = trace(&mut pt, T_SETINS, 100, 0x4005, 0x1234);
    assert_eq!(result, Ok(TraceAction::CopyToProc { endpoint: Endpoint(100), addr: 0x4005, value: 0x1234, len: 8 }));
}

#[test]
fn test_dispatch_trace_getuser_rejects_unaligned_address() {
    let mut pt = make_proc_table_with_user(0, 100);
    assert_eq!(trace(&mut pt, T_GETUSER, 100, 0x4, 0), Err(EFAULT));
}

#[test]
fn test_dispatch_trace_setuser_rejects_unaligned_address() {
    let mut pt = make_proc_table_with_user(0, 100);
    assert_eq!(trace(&mut pt, T_SETUSER, 100, 0x2, 0), Err(EFAULT));
}

#[test]
fn test_dispatch_trace_setuser_writes_rip() {
    let mut pt = make_proc_table_with_user(0, 100);
    let result = trace(&mut pt, T_SETUSER, 100, 56, 0xdead_beef);
    assert_eq!(result, Ok(TraceAction::WriteUserReg { target: ProcNr(0), offset: 56, value: 0xdead_beef }));
}

#[test]
fn test_dispatch_trace_setuser_psw_succeeds() {
    let mut pt = make_proc_table_with_user(0, 100);
    let result = trace(&mut pt, T_SETUSER, 100, 0, 0x0200);
    assert_eq!(result, Ok(TraceAction::WriteUserReg { target: ProcNr(0), offset: 0, value: 0x0200 }));
}

#[test]
fn test_dispatch_trace_rejects_invalid_request() {
    let mut pt = make_proc_table_with_user(0, 100);
    assert_eq!(trace(&mut pt, 99, 100, 0, 0), Err(EINVAL));
}

#[test]
fn test_dispatch_trace_rejects_invalid_target_endpoint() {
    let mut pt = ProcessTable::new();
    assert_eq!(trace(&mut pt, T_STEP, 9999, 0, 0), Err(EINVAL));
}

#[test]
fn test_dispatch_trace_rejects_kernel_target() {
    let mut pt = ProcessTable::new();
    if let Some(p) = pt.get_mut(ProcNr(proc_nr::KERNEL)) {
        p.p_endpoint = Endpoint(50);
        p.p_rts_flags.clear(rts::SLOT_FREE);
    }
    assert_eq!(trace(&mut pt, T_STEP, 50, 0, 0), Err(EPERM));
}

#[test]
fn test_dispatch_trace_getuser_proc_struct() {
    let mut pt = make_proc_table_with_user(0, 100);
    let result = trace(&mut pt, T_GETUSER, 100, 16, 0);
    assert_eq!(result, Ok(TraceAction::ReadProcWord { target: ProcNr(0), offset: 16 }));
}

#[test]
fn test_dispatch_trace_getuser_priv_struct() {
    let (mut pt, _privs) = make_two_sys_procs(0, 100, 1, 200);
    let tr_addr = ((PROC_SIZE + 7) & !7) + 0;
    let result = trace(&mut pt, T_GETUSER, 100, tr_addr, 0);
    assert_eq!(result, Ok(TraceAction::ReadPrivWord { target: ProcNr(0), offset: 0 }));
}

#[test]
fn test_dispatch_trace_getuser_priv_struct_out_of_range() {
    let (mut pt, _privs) = make_two_sys_procs(0, 100, 1, 200);
    let tr_addr = ((PROC_SIZE + 7) & !7) + PRIV_SIZE;
    assert_eq!(trace(&mut pt, T_GETUSER, 100, tr_addr, 0), Err(EFAULT));
}

fn make_two_sys_procs(src_slot: usize, src_endpoint: i32, dst_slot: usize, dst_endpoint: i32) -> (ProcessTable, PrivTable) {
    let mut pt = ProcessTable::new();
    let mut privs = PrivTable::new();
    for (slot, ep) in [(src_slot as i32, src_endpoint), (dst_slot as i32, dst_endpoint)] {
        let id = SysId(slot as u8);
        privs.alloc_static(id, slot).expect("static priv slot");
        privs.get_mut(id).unwrap().s_flags.insert(PrivFlags::SYS_PROC);
        if let Some(p) = pt.get_mut(ProcNr(slot)) {
            p.p_endpoint = Endpoint(ep);
            p.p_rts_flags.clear(rts::SLOT_FREE);
            p.p_rts_flags.set(rts::NO_PRIV);
            p.p_rts_flags.clear(rts::SIG_PENDING);
            p.p_rts_flags.clear(rts::SENDING);
            p.p_rts_flags.clear(rts::RECEIVING);
            p.priv_id = Some(id.0);
        }
    }
    (pt, privs)
}

#[test]
fn test_dispatch_update_rejects_none_src_endpoint() {
    let (mut pt, mut privs) = make_two_sys_procs(0, 100, 1, 200);
    assert_eq!(dispatch_update(&mut pt, &mut privs, ENDPOINT_NONE, 200, 0), EINVAL);
}

#[test]
fn test_dispatch_update_rejects_self_swap() {
    let (mut pt, mut privs) = make_two_sys_procs(0, 100, 1, 200);
    assert_eq!(dispatch_update(&mut pt, &mut privs, 100, 100, 0), EINVAL);
}

#[test]
fn test_dispatch_update_rejects_busy_process() {
    let (mut pt, mut privs) = make_two_sys_procs(0, 100, 1, 200);
    if let Some(p) = pt.get_mut(ProcNr(0)) {
        p.p_rts_flags.clear(rts::NO_PRIV);
        p.p_rts_flags.clear(rts::SIG_PENDING);
        p.p_rts_flags.clear(rts::RECEIVING);
    }
    assert_eq!(dispatch_update(&mut pt, &mut privs, 100, 200, 0), EBUSY);
}

#[test]
fn test_dispatch_update_rejects_non_system_process() {
    let (mut pt, mut privs) = make_two_sys_procs(0, 100, 1, 200);
    privs.get_mut(SysId(1)).unwrap().s_flags.remove(PrivFlags::SYS_PROC);
    assert_eq!(dispatch_update(&mut pt, &mut privs, 100, 200, 0), EPERM);
}

#[test]
fn test_dispatch_update_quiescent_swaps_slots() {
    let (mut pt, mut privs) = make_two_sys_procs(0, 100, 1, 200);
    pt.get_mut(ProcNr(0)).unwrap().set_boot_name("old");
    pt.get_mut(ProcNr(1)).unwrap().set_boot_name("new");
    assert_eq!(pt.get(ProcNr(0)).unwrap().p_endpoint, Endpoint(100));
    assert_eq!(pt.get(ProcNr(1)).unwrap().p_endpoint, Endpoint(200));

    let result = dispatch_update(&mut pt, &mut privs, 100, 200, 0);
    assert_eq!(result, OK, "swap should succeed");

    assert_eq!(pt.get(ProcNr(0)).unwrap().p_endpoint, Endpoint(100));
    assert_eq!(pt.get(ProcNr(0)).unwrap().p_nr, ProcNr(0));
    assert_eq!(pt.get(ProcNr(1)).unwrap().p_endpoint, Endpoint(200));
    assert_eq!(pt.get(ProcNr(1)).unwrap().p_nr, ProcNr(1));
    assert_eq!(pt.get(ProcNr(0)).unwrap().p_name.as_str(), "new");
    assert_eq!(pt.get(ProcNr(1)).unwrap().p_name.as_str(), "old");
}

#[test]
fn test_proc_is_updatable_user_mode_returns_true() {
    let mut pt = ProcessTable::new();
    if let Some(p) = pt.get_mut(ProcNr(0)) {
        p.p_endpoint = Endpoint(100);
        p.p_rts_flags.clear(rts::SLOT_FREE);
        p.p_rts_flags.set(rts::NO_PRIV);
        p.p_rts_flags.clear(rts::SIG_PENDING);
        p.p_rts_flags.clear(rts::RECEIVING);
    }
    assert!(proc_is_updatable(pt.get(ProcNr(0)).unwrap()));
}

#[test]
fn test_proc_is_updatable_receiving_only_returns_true() {
    let mut pt = ProcessTable::new();
    if let Some(p) = pt.get_mut(ProcNr(0)) {
        p.p_endpoint = Endpoint(100);
        p.p_rts_flags.clear(rts::SLOT_FREE);
        p.p_rts_flags.clear(rts::NO_PRIV);
        p.p_rts_flags.clear(rts::SIG_PENDING);
        p.p_rts_flags.set(rts::RECEIVING);
        p.p_rts_flags.clear(rts::SENDING);
    }
    assert!(proc_is_updatable(pt.get(ProcNr(0)).unwrap()));
}

#[test]
fn test_proc_is_updatable_kernel_blocked_returns_false() {
    let mut pt = ProcessTable::new();
    if let Some(p) = pt.get_mut(ProcNr(0)) {
        p.p_endpoint = Endpoint(100);
        p.p_rts_flags.clear(rts::SLOT_FREE);
        p.p_rts_flags.clear(rts::NO_PRIV);
        p.p_rts_flags.clear(rts::SIG_PENDING);
        p.p_rts_flags.clear(rts::RECEIVING);
        p.p_rts_flags.clear(rts::SENDING);
    }
    assert!(!proc_is_updatable(pt.get(ProcNr(0)).unwrap()));
}

fn activate(pt: &mut ProcessTable, nr: i32, ep: Endpoint) {
    if let Some(target) = pt.get_mut(ProcNr(nr)) {
        target.p_endpoint = ep;
        target.p_rts_flags.clear(rts::SLOT_FREE);
    }
}

#[test]
fn test_getinfo_proc_self_replaces_with_caller_endpoint() {
    let mut pt = ProcessTable::new();
    let caller_ep = Endpoint::from_generation_slot(1, 0);
    activate(&mut pt, 0, caller_ep);
    let privs = PrivTable::new();
    let caller = KProcess::new(ProcNr(0), caller_ep);
    let step = dispatch_getinfo(&caller, &pt, &privs, GetInfoRequest::Proc.code(), ENDPOINT_SELF);
    match step {
        GetInfoStep::CopyProc(info) => {
            assert_eq!(info.p_endpoint, caller_ep.0);
            assert_eq!(info.p_nr, 0);
        },
        other => panic!("unexpected step {:?}", other),
    }
}

#[test]
fn test_dispatch_getinfo_proc_returns_proc_info() {
    let mut pt = ProcessTable::new();
    let target_ep = Endpoint::from_generation_slot(1, 0);
    activate(&mut pt, 0, target_ep);
    let privs = PrivTable::new();
    let caller = KProcess::new(ProcNr(0), Endpoint(100));
    let step = dispatch_getinfo(&caller, &pt, &privs, GetInfoRequest::Proc.code(), target_ep.0);
    let expected = ProcInfoStruct::from_kprocess(pt.get(ProcNr(0)).unwrap());
    assert_eq!(step, GetInfoStep::CopyProc(expected));
}

#[test]
fn test_dispatch_getinfo_proc_invalid_endpoint_returns_einval() {
    let pt = ProcessTable::new();
    let privs = PrivTable::new();
    let caller = KProcess::new(ProcNr(0), Endpoint(100));
    let step = dispatch_getinfo(&caller, &pt, &privs, GetInfoRequest::Proc.code(), 9999);
    assert_eq!(step, GetInfoStep::Reply(EINVAL));
}

#[test]
fn test_dispatch_getinfo_proctab_wired_to_data_copy_vmcheck() {
    let pt = ProcessTable::new();
    let privs = PrivTable::new();
    let caller = KProcess::new(ProcNr(0), Endpoint(100));
    let step = dispatch_getinfo(&caller, &pt, &privs, GetInfoRequest::ProcTab.code(), 0);
    assert_eq!(step, GetInfoStep::CopyProcTab);
}

#[test]
fn test_dispatch_getinfo_priv_wired_to_data_copy_vmcheck() {
    let mut pt = ProcessTable::new();
    let mut privs = PrivTable::new();
    let target_ep = Endpoint::from_generation_slot(1, 0);
    privs.alloc_static(SysId(0), 0).unwrap();
    activate(&mut pt, 0, target_ep);
    pt.get_mut(ProcNr(0)).unwrap().priv_id = Some(0);
    let caller = KProcess::new(ProcNr(0), Endpoint(100));
    let step = dispatch_getinfo(&caller, &pt, &privs, GetInfoRequest::Priv.code(), target_ep.0);
    let expected = PrivInfoStruct::from_priv(privs.get(SysId(0)).unwrap());
    assert_eq!(step, GetInfoStep::CopyPriv(expected));
}

#[test]
fn test_dispatch_getinfo_privtab_wired_to_data_copy_vmcheck() {
    let pt = ProcessTable::new();
    let privs = PrivTable::new();
    let caller = KProcess::new(ProcNr(0), Endpoint(100));
    let step = dispatch_getinfo(&caller, &pt, &privs, GetInfoRequest::PrivTab.code(), 0);
    assert_eq!(step, GetInfoStep::CopyPrivTab);
}

#[test]
fn test_dispatch_getinfo_regs_wired_to_data_copy_vmcheck() {
    let mut pt = ProcessTable::new();
    let target_ep = Endpoint::from_generation_slot(1, 0);
    activate(&mut pt, 0, target_ep);
    let privs = PrivTable::new();
    let caller = KProcess::new(ProcNr(0), Endpoint(100));
    let step = dispatch_getinfo(&caller, &pt, &privs, GetInfoRequest::Regs.code(), target_ep.0);
    assert_eq!(step, GetInfoStep::CopyRegs(ProcNr(0)));
}

#[test]
fn test_dispatch_getinfo_regs_invalid_endpoint_returns_einval() {
    let pt = ProcessTable::new();
    let privs = PrivTable::new();
    let caller = KProcess::new(ProcNr(0), Endpoint(100));
    let step = dispatch_getinfo(&caller, &pt, &privs, GetInfoRequest::Regs.code(), 9999);
    assert_eq!(step, GetInfoStep::Reply(EINVAL));
}

#[test]
fn test_getinfo_priv_rejects_invalid_endpoint() {
    let pt = ProcessTable::new();
    let privs = PrivTable::new();
    let caller = KProcess::new(ProcNr(0), Endpoint(100));
    let step = dispatch_getinfo(&caller, &pt, &privs, GetInfoRequest::Priv.code(), 9999);
    assert_eq!(step, GetInfoStep::Reply(EINVAL));
}

#[test]
fn test_getinfo_unknown_and_range_checks() {
    let pt = ProcessTable::new();
    let privs = PrivTable::new();
    let mut caller = KProcess::new(ProcNr(0), Endpoint(100));
    caller.set_boot_name("pm");
    assert_eq!(dispatch_getinfo(&caller, &pt, &privs, 99, 0), GetInfoStep::Reply(EINVAL));
    assert_eq!(dispatch_getinfo(&caller, &pt, &privs, GetInfoRequest::MonParams.code(), 0), GetInfoStep::Reply(EINVAL));
    assert_eq!(dispatch_getinfo(&caller, &pt, &privs, GetInfoRequest::CpuTicks.code(), 3), GetInfoStep::CopyCpuTicks(3));
    assert_eq!(dispatch_getinfo(&caller, &pt, &privs, GetInfoRequest::CpuTicks.code(), 256), GetInfoStep::Reply(EINVAL));
    assert_eq!(dispatch_getinfo(&caller, &pt, &privs, GetInfoRequest::RandomnessBin.code(), 15), GetInfoStep::CopyRandomnessBin(15));
    assert_eq!(dispatch_getinfo(&caller, &pt, &privs, GetInfoRequest::RandomnessBin.code(), 16), GetInfoStep::Reply(EINVAL));
    assert_eq!(dispatch_getinfo(&caller, &pt, &privs, GetInfoRequest::KInfo.code(), 0), GetInfoStep::KInfo);
    match dispatch_getinfo(&caller, &pt, &privs, GetInfoRequest::WhoAmI.code(), 0) {
        GetInfoStep::WhoAmI { endpt, initflags, name, .. } => {
            assert_eq!(endpt, 100);
            assert_eq!(initflags, 0);
            assert_eq!(&name[..3], b"pm\0");
        },
        other => panic!("unexpected step {:?}", other),
    }
}

#[test]
fn test_val_len_fits() {
    assert!(val_len_fits(8, 8));
    assert!(val_len_fits(8, 0));
    assert!(!val_len_fits(9, 8));
    assert_eq!(E2BIG, 7);
}

fn sprof_table() -> (ProcessTable, Endpoint) {
    let mut pt = ProcessTable::new();
    let target_ep = Endpoint::from_generation_slot(1, 0);
    activate(&mut pt, 0, target_ep);
    (pt, target_ep)
}

fn start(s: &mut SprofState, pt: &ProcessTable, ep: i32, mem_size: i32) -> ProfStep {
    s.dispatch_profile(pt, 0, ep, 0, 0x1000, 0x2000, mem_size, 1024)
}

#[test]
fn test_sprof_rejects_unknown_action() {
    let pt = ProcessTable::new();
    let mut s = SprofState::new();
    assert_eq!(s.dispatch_profile(&pt, 99, 100, 0, 0, 0, 0, 0), ProfStep::Reply(EINVAL));
}

#[test]
fn test_sprof_start_rejects_invalid_endpoint() {
    let pt = ProcessTable::new();
    let mut s = SprofState::new();
    assert_eq!(start(&mut s, &pt, 9999, 4096), ProfStep::Reply(EINVAL));
}

#[test]
fn test_sprof_start_rejects_unknown_intr_type() {
    let (pt, ep) = sprof_table();
    let mut s = SprofState::new();
    assert_eq!(s.dispatch_profile(&pt, 0, ep.0, 99, 0, 0, 4096, 0), ProfStep::Reply(EINVAL));
}

#[test]
fn test_sprof_start_valid_returns_ok() {
    let (pt, ep) = sprof_table();
    let mut s = SprofState::new();
    assert_eq!(start(&mut s, &pt, ep.0, 4096), ProfStep::StartClock { freq: 1024 });
    assert_eq!(s.finish_start(true), OK);
    assert!(s.is_running());
}

#[test]
fn test_sprof_start_clock_failure_unmarks() {
    let (pt, ep) = sprof_table();
    let mut s = SprofState::new();
    start(&mut s, &pt, ep.0, 4096);
    assert_eq!(s.finish_start(false), EINVAL);
    assert!(!s.is_running());
}

#[test]
fn test_sprof_stop_returns_ebusy_when_not_running() {
    let pt = ProcessTable::new();
    let mut s = SprofState::new();
    assert_eq!(s.dispatch_profile(&pt, 1, 0, 0, 0, 0, 0, 0), ProfStep::Reply(EBUSY));
}

#[test]
fn test_sprof_stop_after_start_returns_ok_or_vmsuspend() {
    let (pt, ep) = sprof_table();
    let mut s = SprofState::new();
    start(&mut s, &pt, ep.0, 4096);
    s.finish_start(true);
    let step = s.dispatch_profile(&pt, 1, 0, 0, 0, 0, 0, 0);
    assert_eq!(step, ProfStep::Stop { endpoint: ep.0, info_addr: 0x1000, data_addr: 0x2000, mem_used: 0 });
    assert!(!s.is_running());
}

#[test]
fn test_sprof_double_start_returns_ebusy() {
    let (pt, ep) = sprof_table();
    let mut s = SprofState::new();
    start(&mut s, &pt, ep.0, 4096);
    s.finish_start(true);
    assert_eq!(start(&mut s, &pt, ep.0, 4096), ProfStep::Reply(EBUSY));
}

#[test]
fn test_sprof_stop_without_start_returns_ebusy() {
    let pt = ProcessTable::new();
    let mut s = SprofState::new();
    assert_eq!(s.dispatch_profile(&pt, 1, 100, 0, 0, 0, 0, 0), ProfStep::Reply(EBUSY));
}

#[test]
fn test_sprof_start_rollback_on_invalid_endpoint() {
    let pt = ProcessTable::new();
    let mut s = SprofState::new();
    assert_eq!(start(&mut s, &pt, 9999, 4096), ProfStep::Reply(EINVAL));
    assert!(!s.is_running());
}

#[test]
fn test_sprof_nmi_is_not_supported() {
    let (pt, ep) = sprof_table();
    let mut s = SprofState::new();
    assert_eq!(s.dispatch_profile(&pt, 0, ep.0, 1, 0, 0, 4096, 0), ProfStep::Reply(ENOSYS));
    assert!(!s.is_running());
}

fn running_profiler(mem_size: i32) -> SprofState {
    let (pt, ep) = sprof_table();
    let mut s = SprofState::new();
    start(&mut s, &pt, ep.0, mem_size);
    s.finish_start(true);
    s
}

#[test]
fn test_profile_sample_noop_when_not_profiling() {
    let privs = PrivTable::new();
    let mut s = SprofState::new();
    let mut proc = KProcess::new(ProcNr(0), Endpoint(100));
    s.profile_sample(&mut proc, 0xDEAD, &privs);
    assert_eq!(s.info().total_samples, 0);
    assert_eq!(s.info().mem_used, 0);
}

#[test]
fn test_profile_sample_noop_when_buffer_full() {
    let privs = PrivTable::new();
    let mut s = running_profiler(10);
    let mut proc = KProcess::new(ProcNr(0), Endpoint(proc_nr::KERNEL));
    s.profile_sample(&mut proc, 0xDEAD, &privs);
    assert_eq!(s.info().mem_used, -1);
    let mut user = KProcess::new(ProcNr(0), Endpoint(100));
    s.profile_sample(&mut user, 0xDEAD, &privs);
    assert_eq!(s.info().total_samples, 0);
    assert_eq!(s.info().mem_used, -1);
}

#[test]
fn test_profile_sample_idle_increments_idle_samples() {
    let privs = PrivTable::new();
    let mut s = running_profiler(SAMPLE_BUFFER_SIZE as i32);
    let mut proc = KProcess::new(ProcNr(0), Endpoint(proc_nr::IDLE));
    s.profile_sample(&mut proc, 0x1000, &privs);
    let info = s.info();
    assert_eq!(info.idle_samples, 1);
    assert_eq!(info.system_samples, 0);
    assert_eq!(info.user_samples, 0);
    assert_eq!(info.total_samples, 1);
    assert_eq!(info.mem_used, 0);
}

#[test]
fn test_profile_sample_kernel_endpoint_saves_system_sample() {
    let privs = PrivTable::new();
    let mut s = running_profiler(SAMPLE_BUFFER_SIZE as i32);
    let mut proc = KProcess::new(ProcNr(0), Endpoint(proc_nr::KERNEL));
    s.profile_sample(&mut proc, 0xBADC0DE, &privs);
    let info = s.info();
    assert_eq!(info.system_samples, 1);
    assert_eq!(info.idle_samples, 0);
    assert_eq!(info.user_samples, 0);
    assert_eq!(info.total_samples, 1);
    assert_eq!(info.mem_used as usize, SPROF_PROC_SIZE + SPROF_SAMPLE_SIZE);
    let data = s.sample_data(info.mem_used as usize);
    assert_eq!(&data[0..4], &(proc_nr::KERNEL as u32).to_le_bytes());
    assert_eq!(&data[SPROF_PROC_SIZE + 8..SPROF_PROC_SIZE + 16], &0xBADC0DEu64.to_le_bytes());
}

#[test]
fn test_profile_sample_user_process_increments_user_samples() {
    let privs = PrivTable::new();
    let mut s = running_profiler(SAMPLE_BUFFER_SIZE as i32);
    let mut proc = KProcess::new(ProcNr(0), Endpoint(100));
    s.profile_sample(&mut proc, 0x2000, &privs);
    let info = s.info();
    assert_eq!(info.user_samples, 1);
    assert_eq!(info.system_samples, 0);
    assert_eq!(info.idle_samples, 0);
    assert_eq!(info.total_samples, 1);
    assert_eq!(info.mem_used, 0);
}

fn sys_privs() -> PrivTable {
    let mut privs = PrivTable::new();
    privs.get_mut(SysId(0)).unwrap().s_flags.insert(PrivFlags::SYS_PROC);
    privs
}

#[test]
fn test_profile_sample_runnable_sys_proc_saves_sample_and_proc() {
    let privs = sys_privs();
    let mut s = running_profiler(SAMPLE_BUFFER_SIZE as i32);
    let mut proc = KProcess::new(ProcNr(0), Endpoint(50));
    proc.priv_id = Some(0);
    proc.p_rts_flags.clear(rts::SLOT_FREE);
    s.profile_sample(&mut proc, 0x3000, &privs);
    let info = s.info();
    assert_eq!(info.system_samples, 1);
    assert_eq!(info.total_samples, 1);
    assert_eq!(info.mem_used as usize, SPROF_PROC_SIZE + SPROF_SAMPLE_SIZE);
    assert!(proc.p_misc_flags.is_set(mf::SPROF_SEEN));
}

#[test]
fn test_profile_sample_second_sample_does_not_resave_proc() {
    let privs = sys_privs();
    let mut s = running_profiler(SAMPLE_BUFFER_SIZE as i32);
    let mut proc = KProcess::new(ProcNr(0), Endpoint(50));
    proc.priv_id = Some(0);
    proc.p_rts_flags.clear(rts::SLOT_FREE);
    s.profile_sample(&mut proc, 0x3000, &privs);
    s.profile_sample(&mut proc, 0x3004, &privs);
    let info = s.info();
    assert_eq!(info.system_samples, 2);
    assert_eq!(info.total_samples, 2);
    assert_eq!(info.mem_used as usize, SPROF_PROC_SIZE + 2 * SPROF_SAMPLE_SIZE);
}

#[test]
fn test_profile_sample_buffer_full_marks_mem_used_minus1() {
    let privs = PrivTable::new();
    let mut s = running_profiler(10);
    let mut proc = KProcess::new(ProcNr(0), Endpoint(proc_nr::KERNEL));
    s.profile_sample(&mut proc, 0xDEAD, &privs);
    assert_eq!(s.info().mem_used, -1);
    assert_eq!(s.info().total_samples, 0);
}

#[test]
fn test_trace_code_round_trip_all() {
    let mut handled = 0;
    for v in -3..120 {
        if let Ok(q) = TraceRequest::try_from(v) {
            handled += 1;
            assert_eq!(TraceRequest::try_from(v), Ok(q));
        }
    }
    assert_eq!(handled, 13);
}

#[test]
fn test_updatable_process_is_not_runnable() {
    let mut pt = ProcessTable::new();
    if let Some(p) = pt.get_mut(ProcNr(0)) {
        p.p_rts_flags.clear(rts::SLOT_FREE);
        p.p_rts_flags.set(rts::RECEIVING);
    }
    let p = pt.get(ProcNr(0)).unwrap();
    assert!(proc_is_updatable(p));
    assert!(!p.is_runnable());
}

#[test]
fn test_dispatch_trace_getdata_aligned_wired_to_data_copy_vmcheck() {
    let mut pt = make_proc_table_with_user(0, 100);
    let result = trace(&mut pt, 2, 100, 0x1000, 0);
    assert_eq!(result, Ok(TraceAction::CopyFromProc { endpoint: Endpoint(100), addr: 0x1000, len: 8 }));
}

#[test]
fn test_dispatch_trace_setdata_aligned_wired_to_data_copy_vmcheck() {
    let mut pt = make_proc_table_with_user(0, 100);
    let result = trace(&mut pt, 5, 100, 0x1000, -2);
    assert_eq!(result, Ok(TraceAction::CopyToProc { endpoint: Endpoint(100), addr: 0x1000, value: u64::MAX - 1, len: 8 }));
}

#[test]
fn test_dispatch_trace_byte_requests() {
    let mut pt = make_proc_table_with_user(0, 100);
    assert_eq!(trace(&mut pt, 100, 100, 0x1001, 0), Ok(TraceAction::CopyFromProc { endpoint: Endpoint(100), addr: 0x1001, len: 1 }));
    assert_eq!(
        trace(&mut pt, 101, 100, 0x1001, 0x1ff),
        Ok(TraceAction::CopyToProc { endpoint: Endpoint(100), addr: 0x1001, value: 0xff, len: 1 })
    );
}

#[test]
fn test_dispatch_trace_getuser_huge_aligned_address_faults() {
    let mut pt = make_proc_table_with_user(0, 100);
    assert_eq!(trace(&mut pt, T_GETUSER, 100, u64::MAX - 7, 0), Err(EFAULT));
    assert_eq!(trace(&mut pt, T_GETUSER, 9999, u64::MAX - 7, 0), Err(EINVAL));
    assert_eq!(trace(&mut pt, 99, 100, u64::MAX, 0), Err(EINVAL));
}

#[test]
fn test_dispatch_update_each_slot_keeps_its_sender_queue_and_pending_state() {
    let (mut pt, mut privs) = make_two_sys_procs(0, 100, 1, 200);
    pt.get_mut(ProcNr(0)).unwrap().caller_q.push_back(ProcNr(5));
    pt.get_mut(ProcNr(1)).unwrap().caller_q.push_back(ProcNr(6));
    pt.get_mut(ProcNr(1)).unwrap().caller_q.push_back(ProcNr(8));
    privs.get_mut(SysId(0)).unwrap().s_sig_pending = 0x10;
    privs.get_mut(SysId(1)).unwrap().s_notify_pending = 0x4;
    privs.get_mut(SysId(1)).unwrap().s_diag_sig = true;
    assert_eq!(dispatch_update(&mut pt, &mut privs, 100, 200, 0), OK);
    assert_eq!(pt.get(ProcNr(0)).unwrap().caller_q.len(), 1);
    assert_eq!(pt.get(ProcNr(1)).unwrap().caller_q.len(), 2);
    assert_eq!(privs.get(SysId(0)).unwrap().s_sig_pending, 0x10);
    assert_eq!(privs.get(SysId(0)).unwrap().s_notify_pending, 0);
    assert!(!privs.get(SysId(0)).unwrap().s_diag_sig);
    assert_eq!(privs.get(SysId(1)).unwrap().s_notify_pending, 0x4);
    assert!(privs.get(SysId(1)).unwrap().s_diag_sig);
    assert_eq!(privs.get(SysId(0)).unwrap().s_proc_nr, 0);
    assert_eq!(privs.get(SysId(1)).unwrap().s_proc_nr, 1);
}

#[test]
fn test_dispatch_update_rollback_takes_source_out_of_target_queue() {
    let (mut pt, mut privs) = make_two_sys_procs(0, 100, 1, 200);
    {
        let t = pt.get_mut(ProcNr(2)).unwrap();
        t.p_endpoint = Endpoint(300);
        t.p_rts_flags.clear(rts::SLOT_FREE);
        t.p_rts_flags.set(rts::RECEIVING);
        t.caller_q.push_back(ProcNr(9));
        t.caller_q.push_back(ProcNr(0));
        t.caller_q.push_back(ProcNr(4));
    }
    {
        let s = pt.get_mut(ProcNr(0)).unwrap();
        s.p_rts_flags.set(rts::SENDING);
        s.p_misc_flags.set(mf::SENDING_FROM_KERNEL);
        s.p_sendto_e = Endpoint(300);
    }
    assert_eq!(dispatch_update(&mut pt, &mut privs, 100, 200, 1), OK);
    assert_eq!(pt.get(ProcNr(2)).unwrap().caller_q.len(), 2);
    let mut left = pt.get_mut(ProcNr(2)).unwrap().caller_q.take();
    assert!(!left.remove_by_nr(ProcNr(0)));
    assert!(left.remove_by_nr(ProcNr(9)));
    assert!(left.remove_by_nr(ProcNr(4)));
    // the source's content now sits in the destination slot, no longer sending
    let d = pt.get(ProcNr(1)).unwrap();
    assert!(!d.p_rts_flags.is_set(rts::SENDING));
    assert!(!d.p_misc_flags.is_set(mf::SENDING_FROM_KERNEL));
}

#[test]
fn test_dispatch_trace_getuser_priv_record_starts_at_next_word() {
    let mut pt = make_proc_table_with_user(0, 100);
    // a process record of 124 bytes: the privilege record starts at 128
    assert_eq!(dispatch_trace(&mut pt, T_GETUSER, 100, 112, 0, 124, PRIV_SIZE), Ok(TraceAction::ReadProcWord { target: ProcNr(0), offset: 112 }));
    assert_eq!(dispatch_trace(&mut pt, T_GETUSER, 100, 120, 0, 124, PRIV_SIZE), Err(EFAULT));
    assert_eq!(dispatch_trace(&mut pt, T_GETUSER, 100, 136, 0, 124, PRIV_SIZE), Ok(TraceAction::ReadPrivWord { target: ProcNr(0), offset: 8 }));
}
