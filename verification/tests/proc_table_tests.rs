use minix_kernel::clock::ClockState;
use minix_kernel::proc::proc_nr;
use minix_kernel::proc::rts;
use minix_kernel::proc::mf;
use minix_kernel::proc::{CpuId, KProcess, ProcNr};
use minix_kernel::proc_table::{MiscFlagsAction, MiscFlagsStep, ProcessTable, NR_PROCS};
use minix_kernel::sched::PROC_TABLE_SIZE;
use minix_kernel::types::{Endpoint, NR_TASKS};

#[test]
fn test_process_table_new() {
    let table = ProcessTable::new();
    assert!(table.get(ProcNr(0)).is_some());
    assert!(table.get(ProcNr(-1)).is_some());
    assert!(table.get(ProcNr(255)).is_some());
    assert!(table.get(ProcNr(256)).is_none());
}

#[test]
fn test_process_table_const_init_per_slot_nr() {
    let table = ProcessTable::new();
    let slots = table.procs_slice();
    for i in 0..PROC_TABLE_SIZE {
        let p = &slots[i];
        let expected_nr = ProcNr(i as i32 - NR_TASKS as i32);
        assert_eq!(p.p_nr, expected_nr, "slot {} p_nr mismatch", i);
        assert!(p.p_endpoint != Endpoint::none(), "slot {} endpoint must not be NONE", i);
    }
}

#[test]
fn test_process_table_const_init_idle_name() {
    let table = ProcessTable::new();
    let idle = table.get(ProcNr(proc_nr::IDLE)).unwrap();
    let name_bytes = idle.p_name.as_bytes();
    assert_eq!(&name_bytes[..4], b"IDLE", "IDLE proc name must be 'IDLE'");
    assert!(name_bytes[4..].iter().all(|&b| b == 0), "trailing bytes must be zero");
}

#[test]
fn test_process_table_idle() {
    let table = ProcessTable::new();
    let idle = table.get(ProcNr(proc_nr::IDLE)).unwrap();
    assert!(idle.p_rts_flags.is_set(rts::PROC_STOP));
}

#[test]
fn test_is_valid_nr() {
    assert!(ProcessTable::is_valid_nr(ProcNr(0)));
    assert!(ProcessTable::is_valid_nr(ProcNr(-5)));
    assert!(ProcessTable::is_valid_nr(ProcNr(255)));
    assert!(!ProcessTable::is_valid_nr(ProcNr(256)));
}

#[test]
fn test_is_kernel() {
    assert!(ProcessTable::is_kernel(ProcNr(-1)));
    assert!(!ProcessTable::is_kernel(ProcNr(0)));
}

#[test]
fn test_rts_set_unset() {
    let mut table = ProcessTable::new();
    let nr = ProcNr(1);
    table.get_mut(nr).unwrap().p_rts_flags.clear(rts::SLOT_FREE);
    assert!(table.get(nr).unwrap().is_runnable());

    table.rts_set(nr, rts::PROC_STOP);
    assert!(!table.get(nr).unwrap().is_runnable());

    table.rts_unset(nr, rts::PROC_STOP);
    assert!(table.get(nr).unwrap().is_runnable());
}

#[test]
fn test_fork_integration_flow() {
    let mut table = ProcessTable::new();

    let parent_nr = ProcNr(0);
    table.get_mut(parent_nr).unwrap().p_rts_flags.clear(rts::SLOT_FREE);
    assert!(table.get(parent_nr).unwrap().is_runnable());

    let child_nr = ProcNr(1);
    let child_endpoint = Endpoint::from_generation_slot(1, child_nr.0);
    let child = KProcess::fork_from(table.get(parent_nr).unwrap(), child_nr, child_endpoint);

    assert!(child.p_rts_flags.is_set(rts::NO_QUANTUM));
    assert!(!child.is_runnable());
    assert!(!child.p_rts_flags.is_set(rts::SLOT_FREE));

    if let Some(slot) = table.get_mut(child_nr) {
        *slot = child;
    }

    table.rts_unset(child_nr, rts::NO_QUANTUM);
    assert!(table.get(child_nr).unwrap().is_runnable());

    assert!(table.get(parent_nr).unwrap().is_runnable());
    assert!(table.get(child_nr).unwrap().is_runnable());
}

#[test]
fn test_fork_child_rts_corrections() {
    let mut table = ProcessTable::new();

    let parent_nr = ProcNr(0);
    {
        let parent = table.get_mut(parent_nr).unwrap();
        parent.p_rts_flags.clear(rts::SLOT_FREE);
    }

    let child_nr = ProcNr(1);
    let child_endpoint = Endpoint::from_generation_slot(1, child_nr.0);
    let child = KProcess::fork_from(table.get(parent_nr).unwrap(), child_nr, child_endpoint);

    assert!(child.p_rts_flags.is_set(rts::NO_QUANTUM));
    assert!(!child.p_rts_flags.is_set(rts::SENDING));
    assert!(!child.p_rts_flags.is_set(rts::RECEIVING));
    assert!(!child.p_rts_flags.is_set(rts::SIGNALED));
    assert!(!child.p_rts_flags.is_set(rts::SIG_PENDING));
}

#[test]
fn test_rts_set_unset_multiple_flags() {
    let mut table = ProcessTable::new();
    let nr = ProcNr(0);

    table.get_mut(nr).unwrap().p_rts_flags.clear(rts::SLOT_FREE);
    assert!(table.get(nr).unwrap().is_runnable());

    table.rts_set(nr, rts::SENDING | rts::RECEIVING);
    assert!(!table.get(nr).unwrap().is_runnable());
    assert!(table.get(nr).unwrap().p_rts_flags.is_set(rts::SENDING));
    assert!(table.get(nr).unwrap().p_rts_flags.is_set(rts::RECEIVING));

    table.rts_unset(nr, rts::SENDING);
    assert!(!table.get(nr).unwrap().is_runnable());
    assert!(!table.get(nr).unwrap().p_rts_flags.is_set(rts::SENDING));
    assert!(table.get(nr).unwrap().p_rts_flags.is_set(rts::RECEIVING));

    table.rts_unset(nr, rts::RECEIVING);
    assert!(table.get(nr).unwrap().is_runnable());
}

#[test]
fn test_rts_set_idempotent() {
    let mut table = ProcessTable::new();
    let nr = ProcNr(0);
    table.get_mut(nr).unwrap().p_rts_flags.clear(rts::SLOT_FREE);

    table.rts_set(nr, rts::PROC_STOP);
    assert!(!table.get(nr).unwrap().is_runnable());

    table.rts_set(nr, rts::PROC_STOP);
    assert!(!table.get(nr).unwrap().is_runnable());

    table.rts_unset(nr, rts::PROC_STOP);
    assert!(table.get(nr).unwrap().is_runnable());
}

#[test]
fn test_is_valid_nr_boundaries() {
    assert!(!ProcessTable::is_valid_nr(ProcNr(-6)));
    assert!(ProcessTable::is_valid_nr(ProcNr(-5)));
    assert!(ProcessTable::is_valid_nr(ProcNr(-1)));
    assert!(ProcessTable::is_valid_nr(ProcNr(0)));
    assert!(ProcessTable::is_valid_nr(ProcNr(255)));
    assert!(!ProcessTable::is_valid_nr(ProcNr(256)));
}

#[test]
fn test_proc_nr_roundtrip() {
    let table = ProcessTable::new();
    for nr in [ProcNr(-5), ProcNr(-4), ProcNr(-3), ProcNr(-2), ProcNr(-1), ProcNr(0), ProcNr(1), ProcNr(100), ProcNr(255)] {
        assert_eq!(table.get(nr).unwrap().p_nr, nr);
    }
}

#[test]
fn test_is_empty_new_table() {
    let table = ProcessTable::new();
    for i in -5i32..=255 {
        let nr = ProcNr(i);
        if nr == ProcNr(proc_nr::IDLE) {
            assert!(!table.is_empty(nr));
        } else {
            assert!(table.is_empty(nr), "slot nr={} should be empty", i);
        }
    }
}

#[test]
fn test_is_empty_after_alloc() {
    let mut table = ProcessTable::new();
    let nr = ProcNr(2);
    assert!(table.is_empty(nr));
    table.get_mut(nr).unwrap().p_rts_flags.clear(rts::SLOT_FREE);
    assert!(!table.is_empty(nr));
}

#[test]
fn test_is_kernel_task() {
    let table = ProcessTable::new();
    for nr in [ProcNr(-5), ProcNr(-4), ProcNr(-3), ProcNr(-2), ProcNr(-1)] {
        assert!(table.get(nr).unwrap().is_kernel_task(), "nr={} should be kernel task", nr.0);
    }
    for nr in [ProcNr(0), ProcNr(1), ProcNr(8), ProcNr(255)] {
        assert!(!table.get(nr).unwrap().is_kernel_task(), "nr={} should not be kernel task", nr.0);
    }
}

#[test]
fn test_iter_counts() {
    let table = ProcessTable::new();
    assert_eq!(table.procs_slice().iter().count(), PROC_TABLE_SIZE);
    assert_eq!(table.procs_slice().iter().skip(NR_TASKS).count(), NR_PROCS);
}

#[test]
fn test_set_bill_to_idle() {
    let mut table = ProcessTable::new();
    let idle = ProcNr(proc_nr::IDLE);
    assert_eq!(table.get(idle).unwrap().p_accounting.enter_queue, 0);

    table.set_bill_to_idle();
    assert_eq!(table.get(idle).unwrap().p_accounting.enter_queue, 0);

    table.get_mut(idle).unwrap().p_accounting.enter_queue = 0xdead_beef;
    table.set_bill_to_idle();
    assert_eq!(table.get(idle).unwrap().p_accounting.enter_queue, 0);
}

#[test]
fn test_process_misc_flags_empty_returns_true() {
    let mut table = ProcessTable::new();
    let nr = ProcNr(0);
    table.get_mut(nr).unwrap().p_rts_flags.clear(rts::SLOT_FREE);
    assert_eq!(table.process_misc_flags_step(nr), MiscFlagsStep::Done(true));
}

#[test]
fn test_misc_flags_step_orders_pending_work() {
    let mut table = ProcessTable::new();
    let nr = ProcNr(0);
    {
        let p = table.get_mut(nr).unwrap();
        p.p_rts_flags.clear(rts::SLOT_FREE);
        p.p_misc_flags.set(mf::DELIVERMSG | mf::SC_DEFER | mf::KCALL_RESUME);
    }
    assert_eq!(table.process_misc_flags_step(nr), MiscFlagsStep::Handle(MiscFlagsAction::KcallResume));
    table.misc_unset(nr, mf::KCALL_RESUME);
    assert_eq!(table.process_misc_flags_step(nr), MiscFlagsStep::Handle(MiscFlagsAction::DeliverMsg));
    table.misc_unset(nr, mf::DELIVERMSG);
    assert_eq!(table.process_misc_flags_step(nr), MiscFlagsStep::Handle(MiscFlagsAction::ScDefer));
}

#[test]
fn test_misc_flags_step_clears_traced_active_call() {
    let mut table = ProcessTable::new();
    let nr = ProcNr(0);
    {
        let p = table.get_mut(nr).unwrap();
        p.p_rts_flags.clear(rts::SLOT_FREE);
        p.p_misc_flags.set(mf::SC_TRACE | mf::SC_ACTIVE);
    }
    assert_eq!(table.process_misc_flags_step(nr), MiscFlagsStep::Done(true));
    let p = table.get(nr).unwrap();
    assert!(!p.p_misc_flags.is_set(mf::SC_TRACE));
    assert!(!p.p_misc_flags.is_set(mf::SC_ACTIVE));
}

#[test]
fn test_endpoint_to_nr_finds_slot_and_skips_free() {
    let mut table = ProcessTable::new();
    table.get_mut(ProcNr(3)).unwrap().p_rts_flags.clear(rts::SLOT_FREE);
    assert_eq!(table.endpoint_to_nr(Endpoint(3)), Some(ProcNr(3)));
    assert_eq!(table.endpoint_to_nr(Endpoint(4)), None);
    assert_eq!(table.endpoint_to_nr(Endpoint(9999)), None);
}

#[test]
fn test_swap_slots_exchanges_contents() {
    let mut table = ProcessTable::new();
    table.get_mut(ProcNr(3)).unwrap().p_rts_flags.clear(rts::SLOT_FREE);
    table.get_mut(ProcNr(3)).unwrap().set_boot_name("left");
    table.get_mut(ProcNr(4)).unwrap().set_boot_name("right");
    assert_eq!(table.swap_slots(ProcNr(3), ProcNr(4)), Some(()));
    assert_eq!(table.get(ProcNr(3)).unwrap().p_name.as_str(), "right");
    assert_eq!(table.get(ProcNr(4)).unwrap().p_name.as_str(), "left");
    assert_eq!(table.swap_slots(ProcNr(3), ProcNr(999)), None);
}

#[test]
fn test_set_clock_and_cpu() {
    let mut table = ProcessTable::new();
    table.set_clock(ClockState::new());
    table.set_cpu(ProcNr(0), CpuId::new_unchecked(2));
    assert_eq!(table.get(ProcNr(0)).unwrap().p_sched.cpu, 2);
}

fn misc_table(flags: u32) -> ProcessTable {
    let mut table = ProcessTable::new();
    let proc = table.get_mut(ProcNr(0)).unwrap();
    proc.p_rts_flags.clear(rts::SLOT_FREE);
    proc.p_misc_flags.set(flags);
    table
}

fn run_misc_flags(table: &mut ProcessTable, nr: ProcNr) -> bool {
    loop {
        match table.process_misc_flags_step(nr) {
            MiscFlagsStep::Done(runnable) => return runnable,
            MiscFlagsStep::Handle(action) => {
                let bit = match action {
                    MiscFlagsAction::KcallResume => mf::KCALL_RESUME,
                    MiscFlagsAction::DeliverMsg => mf::DELIVERMSG,
                    MiscFlagsAction::ScDefer => mf::SC_DEFER,
                };
                table.misc_unset(nr, bit);
                if !table.get(nr).unwrap().is_runnable() {
                    return false;
                }
            },
        }
    }
}

#[test]
fn test_process_misc_flags_clears_kcall_resume() {
    let mut table = misc_table(mf::KCALL_RESUME);
    assert!(run_misc_flags(&mut table, ProcNr(0)));
    assert!(!table.get(ProcNr(0)).unwrap().p_misc_flags.is_set(mf::KCALL_RESUME));
}

#[test]
fn test_process_misc_flags_clears_delivermsg() {
    let mut table = misc_table(mf::DELIVERMSG);
    assert!(run_misc_flags(&mut table, ProcNr(0)));
    let proc = table.get(ProcNr(0)).unwrap();
    assert!(!proc.p_misc_flags.is_set(mf::DELIVERMSG));
    assert!(!proc.p_misc_flags.is_set(mf::MSGFAILED));
}

#[test]
fn test_process_misc_flags_clears_sc_defer() {
    let mut table = misc_table(mf::SC_DEFER);
    assert!(run_misc_flags(&mut table, ProcNr(0)));
    assert!(!table.get(ProcNr(0)).unwrap().p_misc_flags.is_set(mf::SC_DEFER));
}

#[test]
fn test_process_misc_flags_unrunnable_returns_false() {
    let mut table = misc_table(mf::KCALL_RESUME);
    table.get_mut(ProcNr(0)).unwrap().p_rts_flags.set(rts::SENDING);
    assert!(!run_misc_flags(&mut table, ProcNr(0)));
}
