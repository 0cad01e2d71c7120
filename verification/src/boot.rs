//! Boot-time decisions: the kernel layout check and huge-page choice, the
//! initial state of the boot processes, and the state changes that end
//! booting on the bootstrap processor.
use vstd::prelude::*;
use crate::proc::{effective_priority, name_from_bytes, proc_nr, rts, KProcess, ProcNr, NR_BOOT_MODULES};
use crate::proc_table::{ProcessTable, queues_enqueued};
use crate::sched::{nr_index, valid_nr, PROC_TABLE_SIZE};
use crate::smp::{CpuLocal, SmpState, MAX_CPUS};
use crate::globals::KernelGlobals;
use crate::types::NR_TASKS;
use vstd::string::StringSliceAdditionalSpecFns;

verus! {

/// Why the kernel layout is refused at boot.
#[derive(Debug, Clone, Copy, PartialEq, Eq, Structural)]
pub enum BootCheckError {
    /// The kernel size is zero.
    ZeroKernSize,
    /// The physical base is not page-aligned.
    PhysNotPageAligned,
    /// The virtual base is not page-aligned.
    VirtNotPageAligned,
    /// Bases and size fit no huge-page size.
    NoHugePageFit,
    /// The kernel stack top is not 16-byte aligned.
    StackNotAligned,
}

/// `x` is a multiple of `m` (for `m == 0`: `x` is zero).
pub open spec fn multiple_of(x: u64, m: u64) -> bool {
    if m == 0 { x == 0 } else { x % m == 0 }
}

fn is_multiple_of(x: u64, m: u64) -> (r: bool)
    ensures
        r == multiple_of(x, m),
{
    if m == 0 { x == 0 } else { x % m == 0 }
}

/// The page size for mapping the kernel (virtual base `kv`, physical base
/// `kp`, size `ks`): the huge-page size `huge` when bases and size are all
/// multiples of it, else `fallback` when they are multiples of that. The
/// size must be positive, the bases page-aligned and the stack top
/// (`stack_top`) 16-byte aligned.
pub fn boot_huge_page_size(kv: u64, kp: u64, ks: u64, stack_top: u64, huge: u64, fallback: u64) -> (r: Result<u64, BootCheckError>)
    ensures
        r == (if ks == 0 {
            Err(BootCheckError::ZeroKernSize)
        } else if !multiple_of(kp, 4096) {
            Err(BootCheckError::PhysNotPageAligned)
        } else if !multiple_of(kv, 4096) {
            Err(BootCheckError::VirtNotPageAligned)
        } else if !(multiple_of(kv, huge) && multiple_of(kp, huge) && multiple_of(ks, huge))
            && !(multiple_of(kv, fallback) && multiple_of(kp, fallback) && multiple_of(ks, fallback)) {
            Err(BootCheckError::NoHugePageFit)
        } else if !multiple_of(stack_top, 16) {
            Err(BootCheckError::StackNotAligned)
        } else if multiple_of(kv, huge) && multiple_of(kp, huge) && multiple_of(ks, huge) {
            Ok(huge)
        } else {
            Ok(fallback)
        }),
        r is Ok ==> multiple_of(ks, r->Ok_0),
{
    if ks == 0 {
        return Err(BootCheckError::ZeroKernSize);
    }
    if !is_multiple_of(kp, 0x1000) {
        return Err(BootCheckError::PhysNotPageAligned);
    }
    if !is_multiple_of(kv, 0x1000) {
        return Err(BootCheckError::VirtNotPageAligned);
    }
    let kern_huge = if is_multiple_of(kv, huge) && is_multiple_of(kp, huge) && is_multiple_of(ks, huge) {
        huge
    } else if is_multiple_of(kv, fallback) && is_multiple_of(kp, fallback) && is_multiple_of(ks, fallback) {
        fallback
    } else {
        return Err(BootCheckError::NoHugePageFit);
    };
    if !is_multiple_of(stack_top, 16) {
        return Err(BootCheckError::StackNotAligned);
    }
    Ok(kern_huge)
}

/// The name and process number of kernel task `i`.
pub open spec fn kernel_task_spec(i: int) -> Option<(&'static str, ProcNr)> {
    if i == 0 {
        Some(("asyncm", ProcNr(-5i32)))
    } else if i == 1 {
        Some(("idle", ProcNr(-4i32)))
    } else if i == 2 {
        Some(("clock", ProcNr(-3i32)))
    } else if i == 3 {
        Some(("system", ProcNr(-2i32)))
    } else if i == 4 {
        Some(("kernel", ProcNr(-1i32)))
    } else {
        None
    }
}

/// The name and process number of kernel task `i`.
pub fn kernel_task(i: usize) -> (r: Option<(&'static str, ProcNr)>)
    ensures
        r == kernel_task_spec(i as int),
        r.is_some() == (i < NR_TASKS),
        r.is_some() ==> r.unwrap().1 == ProcNr((i - NR_TASKS) as i32),
{
    match i {
        0 => Some(("asyncm", ProcNr(-5))),
        1 => Some(("idle", ProcNr(-4))),
        2 => Some(("clock", ProcNr(-3))),
        3 => Some(("system", ProcNr(-2))),
        4 => Some(("kernel", ProcNr(-1))),
        _ => None,
    }
}

/// The process number of boot module `i`.
pub fn boot_module_proc_nr(i: usize) -> (r: Option<ProcNr>)
    ensures
        r == (if i < NR_BOOT_MODULES { Some(ProcNr(i as i32)) } else { None }),
{
    if i < NR_BOOT_MODULES {
        Some(ProcNr(i as i32))
    } else {
        None
    }
}

/// The runtime flags a boot module `nr` starts with: stopped; without
/// privileges or quantum unless it is the root service or the memory
/// manager; inhibited until the memory manager sets it up unless it is
/// the memory manager.
pub open spec fn boot_module_flags(nr: ProcNr) -> u32 {
    (if nr.0 == proc_nr::RS_PROC_NR || nr.0 == proc_nr::VM_PROC_NR { 0u32 } else { rts::NO_PRIV | rts::NO_QUANTUM })
        | (if nr.0 != proc_nr::VM_PROC_NR { rts::VMINHIBIT | rts::BOOTINHIBIT } else { 0u32 })
        | rts::PROC_STOP
}

fn boot_module_flags_exec(nr: ProcNr) -> (r: u32)
    ensures
        r == boot_module_flags(nr),
{
    let schedulable = nr.0 == proc_nr::RS_PROC_NR || nr.0 == proc_nr::VM_PROC_NR;
    let a: u32 = if schedulable { 0 } else { rts::NO_PRIV | rts::NO_QUANTUM };
    let b: u32 = if nr.0 != proc_nr::VM_PROC_NR { rts::VMINHIBIT | rts::BOOTINHIBIT } else { 0 };
    a | b | rts::PROC_STOP
}

/// Set up the boot processes: the kernel tasks are named and stopped,
/// boot module `i` is named `module_names[i]` and gets
/// `boot_module_flags`; every one of them leaves the free state.
pub fn init_boot_procs(pt: &mut ProcessTable, module_names: &[&str])
    requires
        old(pt).wf(),
        module_names@.len() == NR_BOOT_MODULES,
        forall|i: int| 0 <= i < NR_TASKS + NR_BOOT_MODULES ==> (#[trigger] old(pt).slots()[i]).p_rts_flags@ != 0,
    ensures
        final(pt).wf(),
        final(pt).queues() == old(pt).queues(),
        forall|i: int| 0 <= i < NR_TASKS ==> (#[trigger] final(pt).slots()[i]).p_rts_flags@
            == (old(pt).slots()[i].p_rts_flags@ | rts::PROC_STOP) & !rts::SLOT_FREE,
        forall|i: int| NR_TASKS <= i < NR_TASKS + NR_BOOT_MODULES ==> (#[trigger] final(pt).slots()[i]).p_rts_flags@
            == (old(pt).slots()[i].p_rts_flags@ | boot_module_flags(ProcNr((i - NR_TASKS) as i32))) & !rts::SLOT_FREE,
        forall|i: int| 0 <= i < NR_TASKS ==> (#[trigger] final(pt).slots()[i]).p_name@
            == name_from_bytes(kernel_task_spec(i).unwrap().0.spec_bytes()),
        forall|i: int| NR_TASKS <= i < NR_TASKS + NR_BOOT_MODULES ==> (#[trigger] final(pt).slots()[i]).p_name@
            == name_from_bytes(module_names@[i - NR_TASKS].spec_bytes()),
        forall|i: int| 0 <= i < NR_TASKS + NR_BOOT_MODULES ==> #[trigger] final(pt).slots()[i] == (KProcess {
            p_rts_flags: final(pt).slots()[i].p_rts_flags,
            p_name: final(pt).slots()[i].p_name,
            ..old(pt).slots()[i]
        }),
        forall|i: int| NR_TASKS + NR_BOOT_MODULES <= i < PROC_TABLE_SIZE ==> #[trigger] final(pt).slots()[i] == old(pt).slots()[i],
{
    let mut i: usize = 0;
    while i < NR_TASKS
        invariant
            i <= NR_TASKS,
            pt.wf(),
            pt.queues() == old(pt).queues(),
            forall|j: int| 0 <= j < i ==> (#[trigger] pt.slots()[j]).p_rts_flags@ == (old(pt).slots()[j].p_rts_flags@ | rts::PROC_STOP) & !rts::SLOT_FREE,
            forall|j: int| 0 <= j < i ==> (#[trigger] pt.slots()[j]).p_name@ == name_from_bytes(kernel_task_spec(j).unwrap().0.spec_bytes()),
            forall|j: int| 0 <= j < i ==> #[trigger] pt.slots()[j] == (KProcess {
                p_rts_flags: pt.slots()[j].p_rts_flags,
                p_name: pt.slots()[j].p_name,
                ..old(pt).slots()[j]
            }),
            forall|j: int| i <= j < PROC_TABLE_SIZE ==> #[trigger] pt.slots()[j] == old(pt).slots()[j],
            forall|j: int| 0 <= j < NR_TASKS + NR_BOOT_MODULES ==> (#[trigger] old(pt).slots()[j]).p_rts_flags@ != 0,
        decreases NR_TASKS - i,
    {
        let (name, nr) = kernel_task(i).unwrap();
        proof {
            let o = old(pt).slots()[i as int].p_rts_flags@;
            assert((o | 0x2u32) & !0x1u32 != 0) by (bit_vector);
        }
        pt.init_boot_proc(nr, name, rts::PROC_STOP);
        i = i + 1;
    }
    let mut k: usize = 0;
    while k < NR_BOOT_MODULES
        invariant
            k <= NR_BOOT_MODULES,
            module_names@.len() == NR_BOOT_MODULES,
            pt.wf(),
            pt.queues() == old(pt).queues(),
            forall|j: int| 0 <= j < NR_TASKS ==> (#[trigger] pt.slots()[j]).p_rts_flags@ == (old(pt).slots()[j].p_rts_flags@ | rts::PROC_STOP) & !rts::SLOT_FREE,
            forall|j: int| NR_TASKS <= j < NR_TASKS + k ==> (#[trigger] pt.slots()[j]).p_rts_flags@
                == (old(pt).slots()[j].p_rts_flags@ | boot_module_flags(ProcNr((j - NR_TASKS) as i32))) & !rts::SLOT_FREE,
            forall|j: int| 0 <= j < NR_TASKS ==> (#[trigger] pt.slots()[j]).p_name@ == name_from_bytes(kernel_task_spec(j).unwrap().0.spec_bytes()),
            forall|j: int| NR_TASKS <= j < NR_TASKS + k ==> (#[trigger] pt.slots()[j]).p_name@
                == name_from_bytes(module_names@[j - NR_TASKS].spec_bytes()),
            forall|j: int| 0 <= j < NR_TASKS + k ==> #[trigger] pt.slots()[j] == (KProcess {
                p_rts_flags: pt.slots()[j].p_rts_flags,
                p_name: pt.slots()[j].p_name,
                ..old(pt).slots()[j]
            }),
            forall|j: int| NR_TASKS + k <= j < PROC_TABLE_SIZE ==> #[trigger] pt.slots()[j] == old(pt).slots()[j],
            forall|j: int| 0 <= j < NR_TASKS + NR_BOOT_MODULES ==> (#[trigger] old(pt).slots()[j]).p_rts_flags@ != 0,
        decreases NR_BOOT_MODULES - k,
    {
        let nr = boot_module_proc_nr(k).unwrap();
        let flags = boot_module_flags_exec(nr);
        proof {
            let o = old(pt).slots()[k + NR_TASKS].p_rts_flags@;
            assert(((o | flags) & !0x1u32 != 0) || (flags & 0x2u32 == 0)) by (bit_vector);
            assert(flags & 0x2u32 != 0) by {
                let a: u32 = if nr.0 == proc_nr::RS_PROC_NR || nr.0 == proc_nr::VM_PROC_NR { 0u32 } else { rts::NO_PRIV | rts::NO_QUANTUM };
                let b: u32 = if nr.0 != proc_nr::VM_PROC_NR { rts::VMINHIBIT | rts::BOOTINHIBIT } else { 0u32 };
                assert((a | b | 0x2u32) & 0x2u32 != 0) by (bit_vector);
            }
        }
        pt.init_boot_proc(nr, module_names[k], flags);
        k = k + 1;
    }
}

/// The ready queues after clearing `PROC_STOP` on boot modules `0..n` of
/// `slots`, in order: each module left with no flag joins the end of its
/// queue.
pub open spec fn queues_after_release(qs: Seq<Seq<ProcNr>>, slots: Seq<KProcessView>, n: int) -> Seq<Seq<ProcNr>>
    decreases n,
{
    if n <= 0 {
        qs
    } else {
        let prev = queues_after_release(qs, slots, n - 1);
        let f = slots[NR_TASKS + n - 1].rts;
        if f != 0 && f & !rts::PROC_STOP == 0 {
            queues_enqueued(prev, effective_priority(slots[NR_TASKS + n - 1].priority) as int, ProcNr((n - 1) as i32))
        } else {
            prev
        }
    }
}

/// The two fields of a slot that decide where a released process goes.
pub struct KProcessView {
    pub rts: u32,
    pub priority: u8,
}

/// The view of the slots of `pt` that `queues_after_release` reads.
pub open spec fn release_view(pt: ProcessTable) -> Seq<KProcessView> {
    Seq::new(pt.slots().len(), |i: int| KProcessView { rts: pt.slots()[i].p_rts_flags@, priority: pt.slots()[i].p_sched.priority })
}

/// End booting on the bootstrap processor: the memory manager is marked
/// not running, time is billed to the idle task, every boot module has
/// `PROC_STOP` cleared (joining its ready queue when that leaves it
/// runnable), the bootstrap processor records time stamp `tsc` as its
/// last context switch and gets an FPU, and boot allocation ends.
pub fn bsp_finish_booting(pt: &mut ProcessTable, smp: &mut SmpState, globals: &mut KernelGlobals, tsc: u64)
    requires
        old(pt).wf(),
        old(smp).wf(),
        old(smp).bsp_spec().id() < MAX_CPUS,
    ensures
        final(pt).wf(),
        final(smp).wf(),
        !final(globals).vm_running_spec(),
        !final(globals).may_alloc_spec(),
        final(globals).ptproc_raw() == old(globals).ptproc_raw(),
        final(globals).root_raw() == old(globals).root_raw(),
        final(pt).slots()[1].p_accounting.enter_queue == 0,
        forall|i: int| NR_TASKS <= i < NR_TASKS + NR_BOOT_MODULES ==> (#[trigger] final(pt).slots()[i]).p_rts_flags@
            == old(pt).slots()[i].p_rts_flags@ & !rts::PROC_STOP,
        final(pt).queues() == queues_after_release(old(pt).queues(), release_view(*old(pt)), NR_BOOT_MODULES as int),
        ({
            let b = old(smp).bsp_spec().id() as int;
            &&& final(smp).local(b) == (CpuLocal { tsc_ctr_switch: tsc, cpu_last_tsc: tsc, fpu_presence: true, ..old(smp).local(b) })
            &&& forall|i: int| 0 <= i < MAX_CPUS && i != b ==> #[trigger] final(smp).local(i) == old(smp).local(i)
        }),
{
    globals.set_vm_running(false);
    pt.set_bill_to_idle();
    let ghost after_bill = *pt;
    let mut n: i32 = 0;
    while n < 12
        invariant
            0 <= n <= 12,
            pt.wf(),
            after_bill.wf(),
            release_view(after_bill) == release_view(*old(pt)),
            after_bill.queues() == old(pt).queues(),
            pt.slots().len() == PROC_TABLE_SIZE,
            forall|i: int| NR_TASKS <= i < NR_TASKS + n ==> (#[trigger] pt.slots()[i]).p_rts_flags@
                == after_bill.slots()[i].p_rts_flags@ & !rts::PROC_STOP,
            forall|i: int| NR_TASKS + n <= i < NR_TASKS + NR_BOOT_MODULES ==> (#[trigger] pt.slots()[i]).p_rts_flags@
                == after_bill.slots()[i].p_rts_flags@ && pt.slots()[i].p_sched.priority == after_bill.slots()[i].p_sched.priority,
            pt.queues() == queues_after_release(after_bill.queues(), release_view(after_bill), n as int),
            pt.slots()[1].p_accounting.enter_queue == 0,
        decreases 12 - n,
    {
        let ghost before = *pt;
        pt.rts_unset(ProcNr(n), rts::PROC_STOP);
        proof {
            assert(valid_nr(ProcNr(n)));
            assert(nr_index(ProcNr(n)) == NR_TASKS + n);
        }
        n = n + 1;
    }
    let bsp = smp.bsp_cpu_id();
    match smp.cpu_local_mut(bsp) {
        Some(local) => {
            local.note_context_switch(tsc);
            local.fpu_presence = true;
        },
        None => {},
    }
    globals.set_kernel_may_alloc(false);
}

} // verus!
