//! Multiprocessor bookkeeping: per-CPU data, CPU state flags, the
//! scheduling requests that one CPU posts to another, and the decisions
//! around them.
use vstd::prelude::*;
use crate::proc::{proc_nr, rts, mf, CpuId, ProcNr, NONE_PROC_NR};
use crate::sched::Scheduler;
use crate::proc_table::{ProcessTable, queues_after_rts_set};
use crate::sched::valid_nr;
use crate::proc::priority;

pub use crate::proc::MAX_CPUS;

verus! {

/// CPU state flags.
#[derive(Debug, Clone, Copy, PartialEq, Eq, Structural)]
pub struct CpuFlags(pub u32);

impl CpuFlags {
    /// The bootstrap processor.
    pub const BSP: u32 = 1;
    /// The CPU has finished its initialization.
    pub const READY: u32 = 2;

    /// The raw bits.
    pub fn bits(self) -> (r: u32)
        ensures
            r == self.0,
    {
        self.0
    }

    /// Whether every bit of `flag` is set.
    pub fn contains(self, flag: u32) -> (r: bool)
        ensures
            r == (self.0 & flag == flag),
    {
        self.0 & flag == flag
    }
}

/// What a scheduling request asks of the CPU that receives it.
#[derive(Debug, Clone, Copy, PartialEq, Eq, Structural)]
pub struct SchedIpiFlags(pub u32);

impl SchedIpiFlags {
    /// Stop the target process.
    pub const STOP_PROC: u32 = 1;
    /// Inhibit the target process for the memory manager.
    pub const VM_INHIBIT: u32 = 2;
    /// Save the whole context of the target process.
    pub const SAVE_CTX: u32 = 4;
    /// Every request bit.
    pub const ALL: u32 = 7;

    /// The raw bits.
    pub fn bits(self) -> (r: u32)
        ensures
            r == self.0,
    {
        self.0
    }

    /// Whether every bit of `flag` is set.
    pub fn contains(self, flag: u32) -> (r: bool)
        ensures
            r == (self.0 & flag == flag),
    {
        self.0 & flag == flag
    }

    /// Whether no bit is set.
    pub fn is_empty(self) -> (r: bool)
        ensures
            r == (self.0 == 0),
    {
        self.0 == 0
    }
}

/// Data private to one CPU.
#[derive(Debug)]
pub struct CpuLocal {
    /// The running process.
    pub proc_ptr: Option<ProcNr>,
    /// The process billed for time.
    pub bill_ptr: Option<ProcNr>,
    /// The idle task of this CPU.
    pub idle_proc: ProcNr,
    /// The process whose page tables are loaded.
    pub ptproc: Option<ProcNr>,
    /// Whether the CPU is idle.
    pub cpu_is_idle: bool,
    /// Whether the idle loop was interrupted.
    pub idle_interrupted: bool,
    /// Time stamp of the last context switch.
    pub tsc_ctr_switch: u64,
    /// Last time stamp read.
    pub cpu_last_tsc: u64,
    /// Time stamp when the CPU last went idle.
    pub cpu_last_idle: u64,
    /// Whether a page fault is being handled.
    pub pagefault_handled: bool,
    /// Whether the CPU has an FPU.
    pub fpu_presence: bool,
    /// The process whose state is in the FPU.
    pub fpu_owner: Option<ProcNr>,
    /// Ready queues of this CPU.
    pub scheduler: Scheduler,
}

impl CpuLocal {
    /// Freshly initialized: nothing running, the idle task is `IDLE`, all
    /// counters zero, empty ready queues.
    pub open spec fn is_fresh(&self) -> bool {
        &&& self.proc_ptr.is_none()
        &&& self.bill_ptr.is_none()
        &&& self.idle_proc == ProcNr(proc_nr::IDLE)
        &&& self.ptproc.is_none()
        &&& !self.cpu_is_idle
        &&& !self.idle_interrupted
        &&& self.tsc_ctr_switch == 0
        &&& self.cpu_last_tsc == 0
        &&& self.cpu_last_idle == 0
        &&& !self.pagefault_handled
        &&& !self.fpu_presence
        &&& self.fpu_owner.is_none()
        &&& self.scheduler.wf()
        &&& forall|q: int| 0 <= q < priority::NR_SCHED_QUEUES ==> (#[trigger] self.scheduler.heads()[q]).is_none()
    }

    /// A freshly initialized record.
    pub fn new() -> (r: CpuLocal)
        ensures
            r.is_fresh(),
    {
        CpuLocal {
            proc_ptr: None,
            bill_ptr: None,
            idle_proc: ProcNr(proc_nr::IDLE),
            ptproc: None,
            cpu_is_idle: false,
            idle_interrupted: false,
            tsc_ctr_switch: 0,
            cpu_last_tsc: 0,
            cpu_last_idle: 0,
            pagefault_handled: false,
            fpu_presence: false,
            fpu_owner: None,
            scheduler: Scheduler::new(),
        }
    }

    /// Make `nr` the running and the billed process.
    pub fn set_running(&mut self, nr: ProcNr)
        ensures
            *final(self) == (CpuLocal { proc_ptr: Some(nr), bill_ptr: Some(nr), ..*old(self) }),
    {
        self.proc_ptr = Some(nr);
        self.bill_ptr = Some(nr);
    }

    /// Record the time stamp of a context switch.
    pub fn note_context_switch(&mut self, tsc: u64)
        ensures
            *final(self) == (CpuLocal { tsc_ctr_switch: tsc, cpu_last_tsc: tsc, ..*old(self) }),
    {
        self.tsc_ctr_switch = tsc;
        self.cpu_last_tsc = tsc;
    }
}

impl Default for CpuLocal {
    fn default() -> (r: CpuLocal)
        ensures
            r.is_fresh(),
    {
        CpuLocal::new()
    }
}

/// State flags of one CPU.
#[derive(Debug)]
pub struct CpuState {
    flags: u32,
}

impl CpuState {
    /// The flag bits.
    pub closed spec fn bits(&self) -> u32 {
        self.flags
    }

    /// No flag set.
    pub fn new() -> (r: CpuState)
        ensures
            r.bits() == 0,
    {
        CpuState { flags: 0 }
    }

    /// Set the bits of `flag`.
    pub fn set_flag(&mut self, flag: u32)
        ensures
            final(self).bits() == old(self).bits() | flag,
    {
        self.flags = self.flags | flag;
    }

    /// Clear the bits of `flag`.
    pub fn clear_flag(&mut self, flag: u32)
        ensures
            final(self).bits() == old(self).bits() & !flag,
    {
        self.flags = self.flags & !flag;
    }

    /// Whether every bit of `flag` is set.
    pub fn test_flag(&self, flag: u32) -> (r: bool)
        ensures
            r == (self.bits() & flag == flag),
    {
        self.flags & flag == flag
    }

    /// Whether the CPU is ready.
    pub fn is_ready(&self) -> (r: bool)
        ensures
            r == (self.bits() & CpuFlags::READY == CpuFlags::READY),
    {
        self.flags & CpuFlags::READY == CpuFlags::READY
    }
}

impl Default for CpuState {
    fn default() -> (r: CpuState)
        ensures
            r.bits() == 0,
    {
        CpuState::new()
    }
}

/// A scheduling request posted to one CPU.
#[derive(Debug)]
pub struct SchedIpiData {
    flags: u32,
    target_proc: u32,
}

impl SchedIpiData {
    /// The pending request bits.
    pub closed spec fn pending_bits(&self) -> u32 {
        self.flags
    }

    /// The target process, as stored.
    pub closed spec fn target_bits(&self) -> u32 {
        self.target_proc
    }

    /// No request, target zero.
    pub fn new() -> (r: SchedIpiData)
        ensures
            r.pending_bits() == 0,
            r.target_bits() == 0,
    {
        SchedIpiData { flags: 0, target_proc: 0 }
    }

    /// The pending requests, unknown bits dropped.
    pub fn load_flags(&self) -> (r: SchedIpiFlags)
        ensures
            r.0 == self.pending_bits() & SchedIpiFlags::ALL,
    {
        SchedIpiFlags(self.flags & SchedIpiFlags::ALL)
    }

    /// Add the requests of `flags`.
    pub fn set_flags(&mut self, flags: SchedIpiFlags)
        ensures
            final(self).pending_bits() == old(self).pending_bits() | flags.0,
            final(self).target_bits() == old(self).target_bits(),
    {
        self.flags = self.flags | flags.0;
    }

    /// Drop every request.
    pub fn clear_flags(&mut self)
        ensures
            final(self).pending_bits() == 0,
            final(self).target_bits() == old(self).target_bits(),
    {
        self.flags = 0;
    }

    /// Whether any request bit is set.
    pub fn has_pending(&self) -> (r: bool)
        ensures
            r == (self.pending_bits() != 0),
    {
        self.flags != 0
    }

    /// Set the target process.
    pub fn set_target(&mut self, nr: ProcNr)
        ensures
            final(self).target_bits() == nr.0 as u32,
            final(self).pending_bits() == old(self).pending_bits(),
    {
        self.target_proc = nr.0 as u32;
    }

    /// The target process.
    pub fn get_target(&self) -> (r: ProcNr)
        ensures
            r == ProcNr(self.target_bits() as i32),
    {
        ProcNr(self.target_proc as i32)
    }
}

impl Default for SchedIpiData {
    fn default() -> (r: SchedIpiData)
        ensures
            r.pending_bits() == 0,
            r.target_bits() == 0,
    {
        SchedIpiData::new()
    }
}

/// The target stored by `set_target(nr)` is read back as `nr`.
pub proof fn law_set_target_then_get(nr: ProcNr)
    ensures
        ProcNr((nr.0 as u32) as i32) == nr,
{
    let x = nr.0;
    assert((x as u32) as i32 == x) by (bit_vector);
}

/// `n` kept between 1 and `MAX_CPUS`.
pub open spec fn clamp_ncpus(n: u32) -> u32 {
    if n < 1 {
        1
    } else if n > MAX_CPUS {
        MAX_CPUS as u32
    } else {
        n
    }
}

/// The state shared by all CPUs.
#[derive(Debug)]
pub struct SmpState {
    ncpus: u32,
    bsp_cpu_id: CpuId,
    cpus: Vec<CpuState>,
    cpu_locals: Vec<CpuLocal>,
    sched_ipi_data: Vec<SchedIpiData>,
    ap_cpus_booted: u32,
}

impl SmpState {
    /// Number of CPUs.
    pub closed spec fn ncpus_spec(&self) -> u32 {
        self.ncpus
    }

    /// The bootstrap processor.
    pub closed spec fn bsp_spec(&self) -> CpuId {
        self.bsp_cpu_id
    }

    /// Flag bits of CPU `i`.
    pub closed spec fn cpu_bits(&self, i: int) -> u32 {
        self.cpus@[i].bits()
    }

    /// Local data of CPU `i`.
    pub closed spec fn local(&self, i: int) -> CpuLocal {
        self.cpu_locals@[i]
    }

    /// Scheduling request posted to CPU `i`.
    pub closed spec fn ipi(&self, i: int) -> SchedIpiData {
        self.sched_ipi_data@[i]
    }

    /// Number of application processors that finished booting.
    pub closed spec fn booted(&self) -> u32 {
        self.ap_cpus_booted
    }

    /// One record of each kind per CPU.
    pub closed spec fn wf(&self) -> bool {
        &&& self.cpus@.len() == MAX_CPUS
        &&& self.cpu_locals@.len() == MAX_CPUS
        &&& self.sched_ipi_data@.len() == MAX_CPUS
    }

    /// Freshly built for `n` CPUs with bootstrap processor `bsp`: only
    /// `bsp` has flags (`BSP | READY`), every local record is fresh, no
    /// request is posted and no processor has booted.
    pub open spec fn is_fresh(&self, n: u32, bsp: CpuId) -> bool {
        &&& self.wf()
        &&& self.ncpus_spec() == n
        &&& self.bsp_spec() == bsp
        &&& forall|i: int| 0 <= i < MAX_CPUS ==> #[trigger] self.cpu_bits(i) == (if i == bsp.id() {
            CpuFlags::BSP | CpuFlags::READY
        } else {
            0u32
        })
        &&& forall|i: int| 0 <= i < MAX_CPUS ==> ((#[trigger] self.cpu_bits(i)) & CpuFlags::READY == CpuFlags::READY) == (i == bsp.id())
        &&& forall|i: int| 0 <= i < MAX_CPUS ==> ((#[trigger] self.cpu_bits(i)) & CpuFlags::BSP == CpuFlags::BSP) == (i == bsp.id())
        &&& forall|i: int| 0 <= i < MAX_CPUS ==> (#[trigger] self.local(i)).is_fresh()
        &&& forall|i: int| 0 <= i < MAX_CPUS ==> (#[trigger] self.ipi(i)).pending_bits() == 0 && self.ipi(i).target_bits() == 0
        &&& self.booted() == 0
    }

    fn build(n: u32, bsp: CpuId) -> (r: SmpState)
        requires
            bsp.id() < MAX_CPUS,
        ensures
            r.is_fresh(n, bsp),
    {
        let mut cpus: Vec<CpuState> = Vec::new();
        let mut cpu_locals: Vec<CpuLocal> = Vec::new();
        let mut sched_ipi_data: Vec<SchedIpiData> = Vec::new();
        let mut i: usize = 0;
        while i < 32
            invariant
                i <= 32,
                cpus@.len() == i,
                cpu_locals@.len() == i,
                sched_ipi_data@.len() == i,
                forall|j: int| 0 <= j < i ==> (#[trigger] cpus@[j]).bits() == 0,
                forall|j: int| 0 <= j < i ==> (#[trigger] cpu_locals@[j]).is_fresh(),
                forall|j: int| 0 <= j < i ==> (#[trigger] sched_ipi_data@[j]).pending_bits() == 0
                    && sched_ipi_data@[j].target_bits() == 0,
            decreases 32 - i,
        {
            cpus.push(CpuState::new());
            cpu_locals.push(CpuLocal::new());
            sched_ipi_data.push(SchedIpiData::new());
            i = i + 1;
        }
        let b = bsp.index();
        let ghost before = cpus@;
        cpus[b].set_flag(CpuFlags::BSP | CpuFlags::READY);
        proof {
            assert(0u32 | (1u32 | 2u32) == (1u32 | 2u32) && (1u32 | 2u32) & 2u32 == 2u32 && (1u32 | 2u32) & 1u32 == 1u32
                && 0u32 & 2u32 != 2u32 && 0u32 & 1u32 != 1u32) by (bit_vector);
            assert(cpus@ == before.update(b as int, cpus@[b as int]));
        }
        let r = SmpState { ncpus: n, bsp_cpu_id: bsp, cpus, cpu_locals, sched_ipi_data, ap_cpus_booted: 0 };
        assert forall|i: int| 0 <= i < MAX_CPUS implies #[trigger] r.cpu_bits(i) == (if i == bsp.id() {
            CpuFlags::BSP | CpuFlags::READY
        } else {
            0u32
        }) by {
            if i != b {
                assert(r.cpus@[i] == before[i]);
            }
        }
        assert forall|i: int| 0 <= i < MAX_CPUS implies (#[trigger] r.local(i)).is_fresh() by {
            assert(r.cpu_locals@[i].is_fresh());
        }
        assert forall|i: int| 0 <= i < MAX_CPUS implies (#[trigger] r.ipi(i)).pending_bits() == 0 && r.ipi(i).target_bits() == 0 by {
            assert(r.sched_ipi_data@[i].pending_bits() == 0);
        }
        r
    }

    /// One CPU, CPU 0, which is the bootstrap processor and ready.
    pub fn new_single_cpu() -> (r: SmpState)
        ensures
            r.is_fresh(1, r.bsp_spec()),
            r.bsp_spec().id() == 0,
            r.bsp_spec() == CpuId::new_spec(0),
    {
        SmpState::build(1, CpuId::bsp())
    }

    /// `ncpus` CPUs, kept between 1 and `MAX_CPUS`, with bootstrap
    /// processor `bsp_cpu_id`, which is ready.
    pub fn with_ncpus(ncpus: u32, bsp_cpu_id: CpuId) -> (r: SmpState)
        requires
            bsp_cpu_id.id() < MAX_CPUS,
        ensures
            r.is_fresh(clamp_ncpus(ncpus), bsp_cpu_id),
    {
        let n = if ncpus < 1 {
            1
        } else if ncpus > 32 {
            32
        } else {
            ncpus
        };
        SmpState::build(n, bsp_cpu_id)
    }

    /// Number of CPUs.
    pub fn ncpus(&self) -> (r: u32)
        ensures
            r == self.ncpus_spec(),
    {
        self.ncpus
    }

    /// The bootstrap processor.
    pub fn bsp_cpu_id(&self) -> (r: CpuId)
        ensures
            r == self.bsp_spec(),
    {
        self.bsp_cpu_id
    }

    /// Whether `cpu` is the bootstrap processor.
    pub fn cpu_is_bsp(&self, cpu: CpuId) -> (r: bool)
        ensures
            r == (cpu == self.bsp_spec()),
    {
        cpu == self.bsp_cpu_id
    }

    /// Whether `cpu` is ready; `false` for a CPU past `MAX_CPUS`.
    pub fn cpu_is_ready(&self, cpu: CpuId) -> (r: bool)
        requires
            self.wf(),
        ensures
            r == (cpu.id() < MAX_CPUS && self.cpu_bits(cpu.id() as int) & CpuFlags::READY == CpuFlags::READY),
    {
        if cpu.index() < MAX_CPUS {
            self.cpus[cpu.index()].is_ready()
        } else {
            false
        }
    }

    /// Set the bits of `flag` on `cpu`; a CPU past `MAX_CPUS` is ignored.
    pub fn cpu_set_flag(&mut self, cpu: CpuId, flag: u32)
        requires
            old(self).wf(),
        ensures
            final(self).wf(),
            forall|i: int| 0 <= i < MAX_CPUS ==> #[trigger] final(self).cpu_bits(i) == (if i == cpu.id() {
                old(self).cpu_bits(i) | flag
            } else {
                old(self).cpu_bits(i)
            }),
            forall|i: int| 0 <= i < MAX_CPUS ==> #[trigger] final(self).local(i) == old(self).local(i),
            forall|i: int| 0 <= i < MAX_CPUS ==> #[trigger] final(self).ipi(i) == old(self).ipi(i),
            final(self).ncpus_spec() == old(self).ncpus_spec(),
            final(self).bsp_spec() == old(self).bsp_spec(),
            final(self).booted() == old(self).booted(),
    {
        if cpu.index() < MAX_CPUS {
            self.cpus[cpu.index()].set_flag(flag);
        }
    }

    /// Clear the bits of `flag` on `cpu`; a CPU past `MAX_CPUS` is ignored.
    pub fn cpu_clear_flag(&mut self, cpu: CpuId, flag: u32)
        requires
            old(self).wf(),
        ensures
            final(self).wf(),
            forall|i: int| 0 <= i < MAX_CPUS ==> #[trigger] final(self).cpu_bits(i) == (if i == cpu.id() {
                old(self).cpu_bits(i) & !flag
            } else {
                old(self).cpu_bits(i)
            }),
            forall|i: int| 0 <= i < MAX_CPUS ==> #[trigger] final(self).local(i) == old(self).local(i),
            forall|i: int| 0 <= i < MAX_CPUS ==> #[trigger] final(self).ipi(i) == old(self).ipi(i),
            final(self).ncpus_spec() == old(self).ncpus_spec(),
            final(self).bsp_spec() == old(self).bsp_spec(),
            final(self).booted() == old(self).booted(),
    {
        if cpu.index() < MAX_CPUS {
            self.cpus[cpu.index()].clear_flag(flag);
        }
    }

    /// The local data of `cpu`, or `None` past `MAX_CPUS`.
    pub fn cpu_local(&self, cpu: CpuId) -> (r: Option<&CpuLocal>)
        requires
            self.wf(),
        ensures
            r.is_some() == (cpu.id() < MAX_CPUS),
            r.is_some() ==> *r.unwrap() == self.local(cpu.id() as int),
    {
        if cpu.index() < MAX_CPUS {
            Some(&self.cpu_locals[cpu.index()])
        } else {
            None
        }
    }

    /// The local data of `cpu` for update, or `None` past `MAX_CPUS`.
    pub fn cpu_local_mut(&mut self, cpu: CpuId) -> (r: Option<&mut CpuLocal>)
        requires
            old(self).wf(),
        ensures
            r.is_some() == (cpu.id() < MAX_CPUS),
            r.is_some() ==> *r.unwrap() == old(self).local(cpu.id() as int),
            final(self).wf(),
            forall|i: int| 0 <= i < MAX_CPUS ==> #[trigger] final(self).local(i) == (if r.is_some() && i == cpu.id() {
                *final(r.unwrap())
            } else {
                old(self).local(i)
            }),
            forall|i: int| 0 <= i < MAX_CPUS ==> #[trigger] final(self).cpu_bits(i) == old(self).cpu_bits(i),
            forall|i: int| 0 <= i < MAX_CPUS ==> #[trigger] final(self).ipi(i) == old(self).ipi(i),
            final(self).ncpus_spec() == old(self).ncpus_spec(),
            final(self).bsp_spec() == old(self).bsp_spec(),
            final(self).booted() == old(self).booted(),
    {
        if cpu.index() < MAX_CPUS {
            Some(&mut self.cpu_locals[cpu.index()])
        } else {
            None
        }
    }

    /// The request posted to `cpu`.
    pub fn ipi_data(&self, cpu: CpuId) -> (r: &SchedIpiData)
        requires
            self.wf(),
            cpu.id() < MAX_CPUS,
        ensures
            *r == self.ipi(cpu.id() as int),
    {
        &self.sched_ipi_data[cpu.index()]
    }

    /// The request posted to `cpu`, for update.
    pub fn ipi_data_mut(&mut self, cpu: CpuId) -> (r: &mut SchedIpiData)
        requires
            old(self).wf(),
            cpu.id() < MAX_CPUS,
        ensures
            *r == old(self).ipi(cpu.id() as int),
            final(self).wf(),
            forall|i: int| 0 <= i < MAX_CPUS ==> #[trigger] final(self).ipi(i) == (if i == cpu.id() {
                *final(r)
            } else {
                old(self).ipi(i)
            }),
            forall|i: int| 0 <= i < MAX_CPUS ==> #[trigger] final(self).cpu_bits(i) == old(self).cpu_bits(i),
            forall|i: int| 0 <= i < MAX_CPUS ==> #[trigger] final(self).local(i) == old(self).local(i),
            final(self).ncpus_spec() == old(self).ncpus_spec(),
            final(self).bsp_spec() == old(self).bsp_spec(),
            final(self).booted() == old(self).booted(),
    {
        &mut self.sched_ipi_data[cpu.index()]
    }

    /// Count one more application processor as booted (the counter wraps).
    pub fn ap_boot_finished(&mut self)
        requires
            old(self).wf(),
        ensures
            final(self).wf(),
            final(self).booted() == old(self).booted().wrapping_add(1),
            final(self).ncpus_spec() == old(self).ncpus_spec(),
            final(self).bsp_spec() == old(self).bsp_spec(),
            forall|i: int| 0 <= i < MAX_CPUS ==> #[trigger] final(self).cpu_bits(i) == old(self).cpu_bits(i),
            forall|i: int| 0 <= i < MAX_CPUS ==> #[trigger] final(self).local(i) == old(self).local(i),
            forall|i: int| 0 <= i < MAX_CPUS ==> #[trigger] final(self).ipi(i) == old(self).ipi(i),
    {
        self.ap_cpus_booted = self.ap_cpus_booted.wrapping_add(1);
    }

    /// Whether every application processor has booted: the count equals
    /// the number of CPUs less one.
    pub fn all_aps_booted(&self) -> (r: bool)
        ensures
            r == (self.booted() == (if self.ncpus_spec() >= 1 { self.ncpus_spec() - 1 } else { 0 })),
    {
        let expected = if self.ncpus >= 1 { self.ncpus - 1 } else { 0 };
        self.ap_cpus_booted == expected
    }

    /// Take the request posted to `cpu`: with no known request bit,
    /// `None` and nothing changes; otherwise the request and its target,
    /// and the request bits are cleared.
    pub fn handle_sched_ipi(&mut self, cpu: CpuId) -> (r: Option<(SchedIpiFlags, ProcNr)>)
        requires
            old(self).wf(),
            cpu.id() < MAX_CPUS,
        ensures
            final(self).wf(),
            ({
                let d = old(self).ipi(cpu.id() as int);
                let f = d.pending_bits() & SchedIpiFlags::ALL;
                if f == 0 {
                    &&& r.is_none()
                    &&& final(self).ipi(cpu.id() as int) == d
                } else {
                    &&& r == Some((SchedIpiFlags(f), ProcNr(d.target_bits() as i32)))
                    &&& final(self).ipi(cpu.id() as int).pending_bits() == 0
                    &&& final(self).ipi(cpu.id() as int).target_bits() == d.target_bits()
                }
            }),
            forall|i: int| 0 <= i < MAX_CPUS && i != cpu.id() ==> #[trigger] final(self).ipi(i) == old(self).ipi(i),
            forall|i: int| 0 <= i < MAX_CPUS ==> #[trigger] final(self).cpu_bits(i) == old(self).cpu_bits(i),
            forall|i: int| 0 <= i < MAX_CPUS ==> #[trigger] final(self).local(i) == old(self).local(i),
            final(self).ncpus_spec() == old(self).ncpus_spec(),
            final(self).bsp_spec() == old(self).bsp_spec(),
            final(self).booted() == old(self).booted(),
    {
        let c = cpu.index();
        let flags = self.sched_ipi_data[c].load_flags();
        if flags.is_empty() {
            return None;
        }
        let target = self.sched_ipi_data[c].get_target();
        self.sched_ipi_data[c].clear_flags();
        Some((flags, target))
    }
}

impl Default for SmpState {
    fn default() -> (r: SmpState)
        ensures
            r.is_fresh(1, r.bsp_spec()),
            r.bsp_spec().id() == 0,
            r.bsp_spec() == CpuId::new_spec(0),
    {
        SmpState::new_single_cpu()
    }
}

/// The runtime flags that request bits `f` set on the target: `PROC_STOP`
/// for a stop request, `VMINHIBIT` for an inhibit request.
pub open spec fn ipi_rts_bits(f: u32) -> u32 {
    (if f & SchedIpiFlags::STOP_PROC != 0 { rts::PROC_STOP } else { 0u32 })
        | (if f & SchedIpiFlags::VM_INHIBIT != 0 { rts::VMINHIBIT } else { 0u32 })
}

/// Whether handling request bits `f` for `target` on a CPU with local data
/// `local` must save the target's FPU state: a context save is requested,
/// the target has used the FPU and this CPU holds its FPU state.
pub open spec fn ipi_saves_fpu(f: u32, pt: ProcessTable, target: ProcNr, local: CpuLocal) -> bool {
    &&& f & SchedIpiFlags::SAVE_CTX != 0
    &&& valid_nr(target)
    &&& pt.slot(target).p_misc_flags@ & mf::EXT_REG_INITIALIZED != 0
    &&& local.fpu_owner == Some(target)
}

impl SmpState {
    /// Carry out the request posted to `cpu` on the process table: a stop
    /// request sets `PROC_STOP` on the target, an inhibit request
    /// `VMINHIBIT`, and a context save releases this CPU's hold on the
    /// target's FPU state; then the request bits are cleared. With no
    /// request nothing changes. Returns the target when its FPU state must
    /// be saved by the caller.
    pub fn sched_handler_full(&mut self, pt: &mut ProcessTable, cpu: CpuId) -> (r: Option<ProcNr>)
        requires
            old(self).wf(),
            old(pt).wf(),
            cpu.id() < MAX_CPUS,
        ensures
            final(self).wf(),
            final(pt).wf(),
            final(self).ncpus_spec() == old(self).ncpus_spec(),
            final(self).bsp_spec() == old(self).bsp_spec(),
            final(self).booted() == old(self).booted(),
            forall|i: int| 0 <= i < MAX_CPUS ==> #[trigger] final(self).cpu_bits(i) == old(self).cpu_bits(i),
            forall|i: int| 0 <= i < MAX_CPUS && i != cpu.id() ==> #[trigger] final(self).ipi(i) == old(self).ipi(i),
            forall|i: int| 0 <= i < MAX_CPUS && i != cpu.id() ==> #[trigger] final(self).local(i) == old(self).local(i),
            ({
                let c = cpu.id() as int;
                let d = old(self).ipi(c);
                let f = d.pending_bits() & SchedIpiFlags::ALL;
                let target = ProcNr(d.target_bits() as i32);
                let save = ipi_saves_fpu(f, *old(pt), target, old(self).local(c));
                if f == 0 {
                    &&& r.is_none()
                    &&& final(self).ipi(c) == d
                    &&& final(self).local(c) == old(self).local(c)
                    &&& final(pt).slots() == old(pt).slots()
                    &&& final(pt).queues() == old(pt).queues()
                } else {
                    &&& final(self).ipi(c).pending_bits() == 0
                    &&& final(self).ipi(c).target_bits() == d.target_bits()
                    &&& (valid_nr(target) ==> final(pt).slot(target).p_rts_flags@ == old(pt).slot(target).p_rts_flags@ | ipi_rts_bits(f))
                    &&& final(pt).queues() == (if valid_nr(target) {
                        queues_after_rts_set(old(pt).queues(), old(pt).slot(target), target, ipi_rts_bits(f))
                    } else {
                        old(pt).queues()
                    })
                    &&& r == (if save { Some(target) } else { None })
                    &&& final(self).local(c) == (if save {
                        CpuLocal { fpu_owner: None, ..old(self).local(c) }
                    } else {
                        old(self).local(c)
                    })
                }
            }),
    {
        let c = cpu.index();
        let flags = self.sched_ipi_data[c].load_flags();
        if flags.is_empty() {
            return None;
        }
        let target = self.sched_ipi_data[c].get_target();
        let ghost f = flags.0;
        let ghost pt0 = *pt;
        if flags.contains(SchedIpiFlags::STOP_PROC) {
            pt.rts_set(target, rts::PROC_STOP);
        }
        let ghost pt1 = *pt;
        let mut save = false;
        if flags.contains(SchedIpiFlags::SAVE_CTX) {
            let used_fpu = match pt.get(target) {
                Some(p) => p.p_misc_flags.load() & mf::EXT_REG_INITIALIZED != 0,
                None => false,
            };
            if used_fpu && self.cpu_locals[c].fpu_owner == Some(target) {
                self.cpu_locals[c].fpu_owner = None;
                save = true;
            }
        }
        if flags.contains(SchedIpiFlags::VM_INHIBIT) {
            pt.rts_set(target, rts::VMINHIBIT);
        }
        self.sched_ipi_data[c].clear_flags();
        proof {
            let s = f & SchedIpiFlags::STOP_PROC;
            let v = f & SchedIpiFlags::VM_INHIBIT;
            let x = f & SchedIpiFlags::SAVE_CTX;
            assert((f & 1u32 == 1u32) == (f & 1u32 != 0u32)) by (bit_vector);
            assert((f & 2u32 == 2u32) == (f & 2u32 != 0u32)) by (bit_vector);
            assert((f & 4u32 == 4u32) == (f & 4u32 != 0u32)) by (bit_vector);
            assert(0u32 | 0x200u32 == 0x200u32 && 0x2u32 | 0u32 == 0x2u32 && 0u32 | 0u32 == 0u32) by (bit_vector);
            assert(save == ipi_saves_fpu(f, pt0, target, old(self).local(c as int)));
            if valid_nr(target) {
                let o = pt0.slot(target).p_rts_flags@;
                assert(o | (0x2u32 | 0x200u32) == (o | 0x2u32) | 0x200u32) by (bit_vector);
                assert(o | (0x2u32 | 0u32) == o | 0x2u32) by (bit_vector);
                assert(o | (0u32 | 0x200u32) == o | 0x200u32) by (bit_vector);
                assert(o | (0u32 | 0u32) == o) by (bit_vector);
                assert(o | 0x2u32 != 0u32) by (bit_vector);
                assert((0u32 | 0x200u32) != 0u32 && (0x2u32 | 0x200u32) != 0u32 && (0x2u32 | 0u32) != 0u32) by (bit_vector);
            }
        }
        if save {
            Some(target)
        } else {
            None
        }
    }

    /// Preempt the process running on `cpu` on request of another CPU:
    /// unless it is the idle task, it gets `PREEMPTED`.
    pub fn ipi_sched_handler(&self, pt: &mut ProcessTable, cpu: CpuId)
        requires
            self.wf(),
            old(pt).wf(),
            cpu.id() < MAX_CPUS,
        ensures
            final(pt).wf(),
            ({
                let cur = self.local(cpu.id() as int).proc_ptr;
                if cur.is_some() && cur.unwrap() != ProcNr(proc_nr::IDLE) && valid_nr(cur.unwrap()) {
                    &&& final(pt).slot(cur.unwrap()).p_rts_flags@ == old(pt).slot(cur.unwrap()).p_rts_flags@ | rts::PREEMPTED
                    &&& final(pt).queues() == queues_after_rts_set(old(pt).queues(), old(pt).slot(cur.unwrap()), cur.unwrap(), rts::PREEMPTED)
                } else {
                    &&& final(pt).queues() == old(pt).queues()
                    &&& (cur.is_none() || cur.unwrap() == ProcNr(proc_nr::IDLE) ==> final(pt).slots() == old(pt).slots())
                }
            }),
    {
        match self.cpu_locals[cpu.index()].proc_ptr {
            Some(cur) => {
                if cur.0 != proc_nr::IDLE {
                    pt.rts_set(cur, rts::PREEMPTED);
                }
            },
            None => {},
        }
    }

    /// Post request `task` about `target_proc` to `target_cpu`: the target
    /// is recorded and the request bits are added.
    pub fn post_sched_ipi(&mut self, target_cpu: CpuId, target_proc: ProcNr, task: SchedIpiFlags)
        requires
            old(self).wf(),
            target_cpu.id() < MAX_CPUS,
        ensures
            final(self).wf(),
            final(self).ipi(target_cpu.id() as int).target_bits() == target_proc.0 as u32,
            final(self).ipi(target_cpu.id() as int).pending_bits() == old(self).ipi(target_cpu.id() as int).pending_bits() | task.0,
            forall|i: int| 0 <= i < MAX_CPUS && i != target_cpu.id() ==> #[trigger] final(self).ipi(i) == old(self).ipi(i),
            forall|i: int| 0 <= i < MAX_CPUS ==> #[trigger] final(self).cpu_bits(i) == old(self).cpu_bits(i),
            forall|i: int| 0 <= i < MAX_CPUS ==> #[trigger] final(self).local(i) == old(self).local(i),
            final(self).ncpus_spec() == old(self).ncpus_spec(),
            final(self).bsp_spec() == old(self).bsp_spec(),
            final(self).booted() == old(self).booted(),
    {
        let c = target_cpu.index();
        self.sched_ipi_data[c].set_target(target_proc);
        self.sched_ipi_data[c].set_flags(task);
    }

    /// Number of CPUs that are ready.
    pub fn ready_cpu_count(&self) -> (r: u32)
        requires
            self.wf(),
        ensures
            r == ready_count(self, MAX_CPUS as int),
            r <= MAX_CPUS,
    {
        let mut n: u32 = 0;
        let mut i: usize = 0;
        while i < MAX_CPUS
            invariant
                i <= MAX_CPUS,
                self.wf(),
                n == ready_count(self, i as int),
                n <= i,
            decreases MAX_CPUS - i,
        {
            if self.cpus[i].is_ready() {
                n = n + 1;
            }
            i = i + 1;
        }
        n
    }
}

/// Number of ready CPUs among the first `k`.
pub open spec fn ready_count(s: &SmpState, k: int) -> nat
    decreases k,
{
    if k <= 0 {
        0
    } else {
        ready_count(s, k - 1) + (if s.cpu_bits(k - 1) & CpuFlags::READY == CpuFlags::READY { 1nat } else { 0nat })
    }
}

/// How a stop or inhibit request reaches a process.
#[derive(Debug, Clone, Copy, PartialEq, Eq, Structural)]
pub enum RemoteAction {
    /// The flag was set here; nothing else is needed.
    Done,
    /// The process is runnable: post the request to its CPU and wait.
    Sync(CpuId),
}

/// Stop process `nr` (`flag` is `PROC_STOP`) or inhibit it (`flag` is
/// `VMINHIBIT`): a runnable process is reached through its CPU, any other
/// gets `flag` here.
pub fn schedule_flag_proc(pt: &mut ProcessTable, nr: ProcNr, flag: u32) -> (r: RemoteAction)
    requires
        old(pt).wf(),
    ensures
        final(pt).wf(),
        valid_nr(nr) && old(pt).slot(nr).p_rts_flags@ == 0 ==> r == RemoteAction::Sync(CpuId::new_spec(old(pt).slot(nr).p_sched.cpu))
            && final(pt).slots() == old(pt).slots() && final(pt).queues() == old(pt).queues(),
        !(valid_nr(nr) && old(pt).slot(nr).p_rts_flags@ == 0) ==> r == RemoteAction::Done
            && (valid_nr(nr) ==> final(pt).slot(nr).p_rts_flags@ == old(pt).slot(nr).p_rts_flags@ | flag)
            && final(pt).queues() == old(pt).queues(),
{
    let target = match pt.get(nr) {
        Some(p) => {
            if p.is_runnable() {
                Some(CpuId::new_unchecked(p.p_sched.cpu))
            } else {
                None
            }
        },
        None => None,
    };
    match target {
        Some(cpu) => RemoteAction::Sync(cpu),
        None => {
            pt.rts_set(nr, flag);
            RemoteAction::Done
        },
    }
}

/// Stop process `nr`: see `schedule_flag_proc` with `PROC_STOP`.
pub fn schedule_stop_proc(pt: &mut ProcessTable, nr: ProcNr) -> (r: RemoteAction)
    requires
        old(pt).wf(),
    ensures
        final(pt).wf(),
        valid_nr(nr) && old(pt).slot(nr).p_rts_flags@ == 0 ==> r == RemoteAction::Sync(CpuId::new_spec(old(pt).slot(nr).p_sched.cpu))
            && final(pt).slots() == old(pt).slots() && final(pt).queues() == old(pt).queues(),
        !(valid_nr(nr) && old(pt).slot(nr).p_rts_flags@ == 0) ==> r == RemoteAction::Done
            && (valid_nr(nr) ==> final(pt).slot(nr).p_rts_flags@ == old(pt).slot(nr).p_rts_flags@ | rts::PROC_STOP)
            && final(pt).queues() == old(pt).queues(),
{
    schedule_flag_proc(pt, nr, rts::PROC_STOP)
}

/// Inhibit process `nr`: see `schedule_flag_proc` with `VMINHIBIT`.
pub fn schedule_vminhibit(pt: &mut ProcessTable, nr: ProcNr) -> (r: RemoteAction)
    requires
        old(pt).wf(),
    ensures
        final(pt).wf(),
        valid_nr(nr) && old(pt).slot(nr).p_rts_flags@ == 0 ==> r == RemoteAction::Sync(CpuId::new_spec(old(pt).slot(nr).p_sched.cpu))
            && final(pt).slots() == old(pt).slots() && final(pt).queues() == old(pt).queues(),
        !(valid_nr(nr) && old(pt).slot(nr).p_rts_flags@ == 0) ==> r == RemoteAction::Done
            && (valid_nr(nr) ==> final(pt).slot(nr).p_rts_flags@ == old(pt).slot(nr).p_rts_flags@ | rts::VMINHIBIT)
            && final(pt).queues() == old(pt).queues(),
{
    schedule_flag_proc(pt, nr, rts::VMINHIBIT)
}

/// The CPU of process `nr` (the bootstrap processor for an `nr` outside
/// the table), to which a stop-and-save request for a migration goes.
pub fn migration_source_cpu(pt: &ProcessTable, nr: ProcNr) -> (r: CpuId)
    requires
        pt.wf(),
    ensures
        r == (if valid_nr(nr) { CpuId::new_spec(pt.slot(nr).p_sched.cpu) } else { CpuId::new_spec(0) }),
{
    match pt.get(nr) {
        Some(p) => CpuId::new_unchecked(p.p_sched.cpu),
        None => CpuId::bsp(),
    }
}

/// Finish migrating process `nr` to `dest_cpu` once it is stopped: its
/// CPU becomes `dest_cpu` and `PROC_STOP` is cleared.
pub fn finish_migrate_proc(pt: &mut ProcessTable, nr: ProcNr, dest_cpu: CpuId)
    requires
        old(pt).wf(),
        nr.0 != NONE_PROC_NR,
    ensures
        final(pt).wf(),
        valid_nr(nr) ==> final(pt).slot(nr).p_sched.cpu == dest_cpu.id(),
        valid_nr(nr) ==> final(pt).slot(nr).p_rts_flags@ == old(pt).slot(nr).p_rts_flags@ & !rts::PROC_STOP,
{
    pt.set_cpu(nr, dest_cpu);
    pt.rts_unset(nr, rts::PROC_STOP);
}

} // verus!
