use minix_kernel::boot::{
    boot_huge_page_size, boot_module_proc_nr, bsp_finish_booting, init_boot_procs, kernel_task, BootCheckError,
};
use minix_kernel::clock::ClockState;
use minix_kernel::globals::{KernelGlobals, PTPROC_UNSET, ROOT_PHYS_UNSET};
use minix_kernel::proc::proc_nr;
use minix_kernel::proc::rts;
use minix_kernel::proc::{CpuId, ProcNr};
use minix_kernel::proc_table::ProcessTable;
use minix_kernel::smp::SmpState;
use minix_kernel::types::PhysBytes;

const HUGE: u64 = 1 << 30;
const FALLBACK: u64 = 1 << 21;

#[test]
fn test_kernel_info_x86_64_alignment() {
    let kern_phys_base: u64 = 0x200_000;
    let kern_virt_base: u64 = 0xFFFF_8000_0000_0000;
    assert_eq!(kern_phys_base % (1 << 21), 0, "x86_64 kern_phys_base must be 2MB-aligned");
    assert_eq!(kern_virt_base % (1 << 30), 0, "x86_64 kern_virt_base must be 1GB-aligned for 1GB huge pages");
}

#[test]
fn test_kernel_info_aarch64_phys_in_ram() {
    let ram_start: u64 = 0x4000_0000;
    let kern_phys_base: u64 = 0x4020_0000;
    assert!(kern_phys_base >= ram_start, "aarch64 kern_phys_base must be >= QEMU RAM start (0x4000_0000)");
    assert_eq!(kern_phys_base % (1 << 21), 0, "aarch64 kern_phys_base must be 2MB-aligned");
}

#[test]
fn test_kernel_info_riscv64_identity() {
    let dram_base: u64 = 0x8000_0000;
    let kern_phys_base: u64 = dram_base;
    let kern_virt_base: u64 = dram_base;
    assert_eq!(kern_virt_base, kern_phys_base, "riscv64 kern_virt_base must equal kern_phys_base (identity mapping)");
    assert_eq!(kern_phys_base % (1 << 30), 0, "riscv64 kern_phys_base must be 1GB-aligned for Sv39 huge pages");
}

#[test]
fn test_linker_script_x86_64_constraints() {
    let kern_virt_base: u64 = 0xFFFF_8000_0000_0000;
    let kern_phys_base: u64 = 0x200_000;
    let kern_size: u64 = 0x200_000;

    assert_eq!(kern_virt_base % 0x1000, 0, "kern_virt_base must be page-aligned");
    assert_eq!(kern_phys_base % 0x1000, 0, "kern_phys_base must be page-aligned");

    let huge: u64 = 1 << 30;
    let fallback: u64 = 1 << 21;

    assert_eq!(kern_phys_base % fallback, 0, "kern_phys_base must be at least FALLBACK_HUGE_PAGE_SIZE aligned");
    assert_eq!(kern_virt_base % huge, 0, "kern_virt_base must be HUGE_PAGE_SIZE aligned for 1GB pages");
    assert_eq!(kern_size % fallback, 0, "kern_size must be a multiple of 2MB");

    let chosen = boot_huge_page_size(kern_virt_base, kern_phys_base, kern_size, 0xFFFF_8000_0020_0000, huge, fallback);
    assert_eq!(chosen, Ok(fallback));
}

#[test]
fn test_linker_script_aarch64_constraints() {
    let kern_virt_base: u64 = 0xFFFF_8000_0000_0000;
    let kern_phys_base: u64 = 0x4020_0000;
    let kern_size: u64 = 0x200_000;

    assert_eq!(kern_virt_base % 0x1000, 0, "kern_virt_base must be page-aligned");
    assert_eq!(kern_phys_base % 0x1000, 0, "kern_phys_base must be page-aligned");

    let huge: u64 = 1 << 30;
    let fallback: u64 = 1 << 21;

    assert_eq!(kern_phys_base % fallback, 0, "kern_phys_base must be at least FALLBACK_HUGE_PAGE_SIZE aligned");
    assert_eq!(kern_virt_base % huge, 0, "kern_virt_base must be HUGE_PAGE_SIZE aligned");
    assert_eq!(kern_size % fallback, 0, "kern_size must be a multiple of 2MB");

    let chosen = boot_huge_page_size(kern_virt_base, kern_phys_base, kern_size, 0xFFFF_8000_0020_0000, huge, fallback);
    assert_eq!(chosen, Ok(fallback));
}

#[test]
fn test_linker_script_riscv64_constraints() {
    let kern_virt_base: u64 = 0xFFFF_FFC0_0000_0000;
    let kern_phys_base: u64 = 0x8020_0000;
    let kern_size: u64 = 0x200_000;

    assert_eq!(kern_virt_base % 0x1000, 0, "kern_virt_base must be page-aligned");
    assert_eq!(kern_phys_base % 0x1000, 0, "kern_phys_base must be page-aligned");

    let huge: u64 = 1 << 30;
    let fallback: u64 = 1 << 21;

    assert_eq!(kern_phys_base % fallback, 0, "kern_phys_base must be at least 2MB-aligned");
    assert_eq!(kern_virt_base % huge, 0, "kern_virt_base must be HUGE_PAGE_SIZE aligned for Sv39 1GB pages");

    let vpn2 = (kern_virt_base >> 30) & 0x1FF;
    assert!((256..=511).contains(&(vpn2 as usize)), "Sv39 kern_virt_base VPN[2] must be 256..511, got {}", vpn2);

    assert_eq!(kern_size % fallback, 0, "kern_size must be a multiple of 2MB");

    let chosen = boot_huge_page_size(kern_virt_base, kern_phys_base, kern_size, 0xFFFF_FFC0_0020_0000, huge, fallback);
    assert_eq!(chosen, Ok(fallback));
}

#[test]
fn test_free_upper_idx_starts_at_zero() {
    let g = KernelGlobals::new();
    assert_eq!(g.free_upper_idx(), 0);
}

#[test]
fn test_advance_free_upper_idx() {
    let mut g = KernelGlobals::new();
    let prev = g.advance_free_upper_idx(2);
    assert_eq!(prev, 0);
    assert_eq!(g.free_upper_idx(), 2);
    let prev = g.advance_free_upper_idx(1);
    assert_eq!(prev, 2);
    assert_eq!(g.free_upper_idx(), 3);
}

#[test]
fn test_arch_boot_rejects_misaligned_phys() {
    let r = boot_huge_page_size(0xFFFF_8000_0000_0000, 0x1001, 0x200_000, 0xFFFF_8000_0020_0000, HUGE, FALLBACK);
    assert_eq!(r, Err(BootCheckError::PhysNotPageAligned));
}

#[test]
fn test_arch_boot_rejects_zero_kern_size() {
    let r = boot_huge_page_size(0xFFFF_8000_0000_0000, 0x200_000, 0, 0xFFFF_8000_0020_0000, HUGE, FALLBACK);
    assert_eq!(r, Err(BootCheckError::ZeroKernSize));
}

#[test]
fn test_arch_boot_rejects_misaligned_stack_top() {
    let r = boot_huge_page_size(0xFFFF_8000_0000_0000, 0x200_000, 0x200_000, 0xFFFF_8000_0020_0008, HUGE, FALLBACK);
    assert_eq!(r, Err(BootCheckError::StackNotAligned));
}

#[test]
fn test_boot_rejects_misaligned_virt_and_unfit_size() {
    let r = boot_huge_page_size(0xFFFF_8000_0000_0800, 0x200_000, 0x200_000, 0, HUGE, FALLBACK);
    assert_eq!(r, Err(BootCheckError::VirtNotPageAligned));
    let r = boot_huge_page_size(0xFFFF_8000_0000_0000, 0x200_000, 0x1000, 0, HUGE, FALLBACK);
    assert_eq!(r, Err(BootCheckError::NoHugePageFit));
    let r = boot_huge_page_size(0x4000_0000, 0x4000_0000, 0x4000_0000, 0, HUGE, FALLBACK);
    assert_eq!(r, Ok(HUGE));
}

#[test]
fn test_bsp_finish_booting_step_5_7_side_effects() {
    let mut smp = SmpState::new_single_cpu();
    let tsc = ClockState::new().read_tsc();
    let bsp = smp.bsp_cpu_id();
    {
        let bsp_local = smp.cpu_local_mut(bsp).unwrap();
        bsp_local.note_context_switch(tsc);
    }
    {
        let bsp_local = smp.cpu_local_mut(bsp).unwrap();
        bsp_local.fpu_presence = true;
    }

    let bsp_local = smp.cpu_local(bsp).unwrap();
    assert_eq!(bsp_local.cpu_last_tsc, tsc, "cycles_accounting_init must set cpu_last_tsc");
    assert_eq!(bsp_local.cpu_last_idle, tsc, "cycles_accounting_init must set cpu_last_idle");
    assert!(bsp_local.fpu_presence, "fpu_init must set fpu_presence = true");
}

#[test]
fn test_bsp_finish_booting_single_cpu_only_bsp_initialized() {
    let smp = SmpState::new_single_cpu();
    assert_eq!(smp.ncpus(), 1);
    assert_eq!(smp.bsp_cpu_id(), CpuId::bsp());
    let ap1 = smp.cpu_local(CpuId::new_unchecked(1)).unwrap();
    assert_eq!(ap1.cpu_last_tsc, 0, "AP CPU should be default-initialized");
    assert!(!ap1.fpu_presence, "AP CPU should have fpu_presence = false");
}

#[test]
fn test_bsp_finish_booting_releases_boot_modules() {
    let mut pt = ProcessTable::new();
    let names = ["ds", "rs", "pm", "sched", "vfs", "memory", "tty", "mib", "vm", "pfs", "mfs", "init"];
    init_boot_procs(&mut pt, &names);
    assert!(pt.get(ProcNr(proc_nr::VM_PROC_NR)).unwrap().p_rts_flags.is_set(rts::PROC_STOP));
    let mut smp = SmpState::new_single_cpu();
    let mut globals = KernelGlobals::new();
    globals.set_vm_running(true);
    bsp_finish_booting(&mut pt, &mut smp, &mut globals, 0x55);

    assert!(!globals.vm_running());
    assert!(!globals.kernel_may_alloc());
    let vm = pt.get(ProcNr(proc_nr::VM_PROC_NR)).unwrap();
    assert!(vm.is_runnable());
    let pm = pt.get(ProcNr(2)).unwrap();
    assert!(!pm.p_rts_flags.is_set(rts::PROC_STOP));
    assert!(pm.p_rts_flags.is_set(rts::VMINHIBIT));
    let local = smp.cpu_local(CpuId::bsp()).unwrap();
    assert_eq!(local.cpu_last_tsc, 0x55);
    assert!(local.fpu_presence);
}

#[test]
fn test_init_boot_procs_names_and_flags() {
    let mut pt = ProcessTable::new();
    let names = ["ds", "rs", "pm", "sched", "vfs", "memory", "tty", "mib", "vm", "pfs", "mfs", "init"];
    init_boot_procs(&mut pt, &names);
    assert_eq!(pt.get(ProcNr(proc_nr::VM_PROC_NR)).unwrap().p_name.as_str(), "vm");
    assert_eq!(pt.get(ProcNr(proc_nr::CLOCK)).unwrap().p_name.as_str(), "clock");
    let rs = pt.get(ProcNr(proc_nr::RS_PROC_NR)).unwrap();
    assert!(!rs.p_rts_flags.is_set(rts::NO_PRIV));
    assert!(rs.p_rts_flags.is_set(rts::PROC_STOP));
    let ds = pt.get(ProcNr(0)).unwrap();
    assert!(ds.p_rts_flags.is_set(rts::NO_PRIV));
    assert!(!ds.p_rts_flags.is_set(rts::SLOT_FREE));
}

#[test]
fn test_boot_tables() {
    assert_eq!(kernel_task(1), Some(("idle", ProcNr(-4))));
    assert_eq!(kernel_task(5), None);
    assert_eq!(boot_module_proc_nr(8), Some(ProcNr(8)));
    assert_eq!(boot_module_proc_nr(12), None);
}

#[test]
fn test_ptproc_unset_returns_none_before_init() {
    let g = KernelGlobals::new();
    assert_eq!(g.current_ptproc_nr(), None, "ptproc must be None before init_post_and_memory runs");
}

#[test]
fn test_ptproc_set_returns_vm_proc_nr() {
    let mut g = KernelGlobals::new();
    g.set_current_ptproc_nr(ProcNr(proc_nr::VM_PROC_NR));
    assert_eq!(g.current_ptproc_nr(), Some(ProcNr(proc_nr::VM_PROC_NR)), "ptproc must be VM_PROC_NR after init_post_and_memory");
}

#[test]
fn test_ptproc_set_is_idempotent() {
    let mut g = KernelGlobals::new();
    g.set_current_ptproc_nr(ProcNr(proc_nr::VM_PROC_NR));
    g.set_current_ptproc_nr(ProcNr(proc_nr::VM_PROC_NR));
    assert_eq!(g.current_ptproc_nr(), Some(ProcNr(proc_nr::VM_PROC_NR)));
}

#[test]
fn test_ptproc_comparison_branch_condition() {
    let mut g = KernelGlobals::new();
    g.set_current_ptproc_nr(ProcNr(proc_nr::VM_PROC_NR));
    let target_p_nr = ProcNr(proc_nr::VM_PROC_NR);
    let should_reload = g.current_ptproc_nr() == Some(target_p_nr);
    assert!(should_reload, "SetAddrSpace on VM (the current ptproc) must trigger set_active_root");
    let other_p_nr = ProcNr(proc_nr::VM_PROC_NR + 1);
    let should_not_reload = g.current_ptproc_nr() == Some(other_p_nr);
    assert!(!should_not_reload, "SetAddrSpace on non-ptproc must NOT trigger set_active_root");
}

#[test]
fn test_ptproc_sentinel_distinct_from_valid_proc_nrs() {
    assert_ne!(PTPROC_UNSET, proc_nr::VM_PROC_NR, "PTPROC_UNSET must not collide with VM_PROC_NR");
    assert_eq!(PTPROC_UNSET, i32::MIN, "PTPROC_UNSET must be i32::MIN (sentinel value)");
    assert_ne!(PTPROC_UNSET, -1, "PTPROC_UNSET must not collide with kernel task proc-nr -1");
}

#[test]
fn test_root_phys_unset_returns_none_before_boot() {
    let g = KernelGlobals::new();
    assert_eq!(g.current_root_phys(), None, "root_phys must be None before arch_boot_impl runs");
}

#[test]
fn test_root_phys_set_returns_recorded_value() {
    let mut g = KernelGlobals::new();
    g.set_current_root_phys(PhysBytes(0x200000));
    assert_eq!(g.current_root_phys(), Some(PhysBytes(0x200000)), "root_phys must be the value passed to set_current_root_phys");
}

#[test]
fn test_root_phys_set_is_idempotent() {
    let mut g = KernelGlobals::new();
    g.set_current_root_phys(PhysBytes(0x300000));
    g.set_current_root_phys(PhysBytes(0x300000));
    assert_eq!(g.current_root_phys(), Some(PhysBytes(0x300000)));
}

#[test]
fn test_root_phys_sentinel_distinct_from_valid_addresses() {
    assert_eq!(ROOT_PHYS_UNSET, u64::MAX, "ROOT_PHYS_UNSET must be u64::MAX (sentinel value)");
    assert_ne!(ROOT_PHYS_UNSET & 0xFFF, 0, "ROOT_PHYS_UNSET must not be page-aligned");
    assert_ne!(ROOT_PHYS_UNSET, 0x1000);
    assert_ne!(ROOT_PHYS_UNSET, 0x200000);
}

#[test]
fn test_kernel_may_alloc_round_trip() {
    let mut g = KernelGlobals::new();
    g.set_kernel_may_alloc(true);
    assert!(g.kernel_may_alloc());
    g.set_kernel_may_alloc(false);
    assert!(!g.kernel_may_alloc());
}
