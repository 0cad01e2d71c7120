//! Per-process kernel state: runtime and miscellaneous flag words,
//! scheduling fields, accounting counters, process names, signal sets and
//! the process slot itself.
use vstd::prelude::*;
use vstd::string::StringSliceAdditionalSpecFns;
use crate::types::{Endpoint, ENDPOINT_NONE};
use crate::ipc::SenderQueue;
use crate::vm::{VmSuspendContext, VmSuspendType, VmCheckParams, VmSuspendState};

pub mod rts;
pub mod mf;
pub mod priority;
pub mod proc_nr;

verus! {

/// Process number (slot number; kernel tasks are negative).
#[derive(Debug, Clone, Copy, PartialEq, Eq, PartialOrd, Ord, Hash, Structural)]
pub struct ProcNr(pub i32);

impl ProcNr {
    /// Create a process number from a raw `i32`.
    pub fn new(val: i32) -> (r: ProcNr)
        ensures
            r.0 == val,
    {
        ProcNr(val)
    }
}

/// Sentinel value for "no process" in ready-queue links.
pub const NONE_PROC_NR: i32 = -1;

/// Number of user-space boot modules.
pub const NR_BOOT_MODULES: usize = 12;
/// Number of boot processes (kernel tasks plus boot modules).
pub const NR_BOOT_PROCS: usize = 17;

/// Maximum number of CPUs.
pub const MAX_CPUS: usize = 32;

/// Maximum process name length (including the trailing NUL).
pub const PROC_NAME_LEN: usize = 16;

// ── Flag words ──

/// Runtime status flag word of a process.
#[derive(Debug)]
pub struct RtsFlags {
    bits: u32,
}

impl View for RtsFlags {
    type V = u32;

    closed spec fn view(&self) -> u32 {
        self.bits
    }
}

impl RtsFlags {
    /// No flag set (the process is runnable).
    pub fn new() -> (r: RtsFlags)
        ensures
            r@ == 0,
    {
        RtsFlags { bits: 0 }
    }

    /// Start with the given flags.
    pub fn with(flags: u32) -> (r: RtsFlags)
        ensures
            r@ == flags,
    {
        RtsFlags { bits: flags }
    }

    /// Start with a raw bit value.
    pub fn with_raw_bits(bits: u32) -> (r: RtsFlags)
        ensures
            r@ == bits,
    {
        RtsFlags { bits }
    }

    /// Whether any bit of `flag` is set.
    pub fn is_set(&self, flag: u32) -> (r: bool)
        ensures
            r == (self@ & flag != 0),
    {
        self.bits & flag != 0
    }

    /// Set the given flags.
    pub fn set(&mut self, flags: u32)
        ensures
            final(self)@ == old(self)@ | flags,
    {
        self.bits = self.bits | flags;
    }

    /// Clear the given flags.
    pub fn unset(&mut self, flags: u32)
        ensures
            final(self)@ == old(self)@ & !flags,
    {
        self.bits = self.bits & !flags;
    }

    /// The named flags that are set.
    pub fn get(&self) -> (r: u32)
        ensures
            r == self@ & rts::ALL,
    {
        self.bits & rts::ALL
    }

    /// Overwrite the raw value.
    pub fn set_raw(&mut self, value: u32)
        ensures
            final(self)@ == value,
    {
        self.bits = value;
    }

    /// The raw value.
    pub fn load(&self) -> (r: u32)
        ensures
            r == self@,
    {
        self.bits
    }

    /// Overwrite the raw value.
    pub fn store(&mut self, value: u32)
        ensures
            final(self)@ == value,
    {
        self.bits = value;
    }

    /// A process is runnable exactly when no runtime flag is set.
    pub fn is_runnable(&self) -> (r: bool)
        ensures
            r == (self@ == 0),
    {
        self.bits == 0
    }

    /// Clear the given flags, with no scheduler interaction.
    pub fn clear(&mut self, flags: u32)
        ensures
            final(self)@ == old(self)@ & !flags,
    {
        self.bits = self.bits & !flags;
    }
}

/// Setting flags that were clear and then clearing them gives the flag
/// word back; setting flags twice is setting them once; a process with a
/// flag set is not runnable.
pub proof fn law_set_then_clear_restores(x: u32, f: u32)
    ensures
        x & f == 0 ==> (x | f) & !f == x,
        (x | f) | f == x | f,
        f != 0 ==> (x | f) != 0,
{
    assert((x & f == 0 ==> (x | f) & !f == x) && (x | f) | f == x | f && (f != 0 ==> (x | f) != 0)) by (bit_vector);
}

/// Miscellaneous flag word of a process.
#[derive(Debug)]
pub struct MiscFlags {
    bits: u32,
}

impl View for MiscFlags {
    type V = u32;

    closed spec fn view(&self) -> u32 {
        self.bits
    }
}

impl MiscFlags {
    /// No flag set.
    pub fn new() -> (r: MiscFlags)
        ensures
            r@ == 0,
    {
        MiscFlags { bits: 0 }
    }

    /// Whether any bit of `flag` is set.
    pub fn is_set(&self, flag: u32) -> (r: bool)
        ensures
            r == (self@ & flag != 0),
    {
        self.bits & flag != 0
    }

    /// Set the given flags.
    pub fn set(&mut self, flags: u32)
        ensures
            final(self)@ == old(self)@ | flags,
    {
        self.bits = self.bits | flags;
    }

    /// Clear the given flags.
    pub fn unset(&mut self, flags: u32)
        ensures
            final(self)@ == old(self)@ & !flags,
    {
        self.bits = self.bits & !flags;
    }

    /// Clear the given flags (same as `unset`).
    pub fn clear(&mut self, flags: u32)
        ensures
            final(self)@ == old(self)@ & !flags,
    {
        self.unset(flags);
    }

    /// The named flags that are set.
    pub fn get(&self) -> (r: u32)
        ensures
            r == self@ & mf::ALL,
    {
        self.bits & mf::ALL
    }

    /// Start with the given flags.
    pub fn with(flags: u32) -> (r: MiscFlags)
        ensures
            r@ == flags,
    {
        MiscFlags { bits: flags }
    }

    /// The raw value.
    pub fn load(&self) -> (r: u32)
        ensures
            r == self@,
    {
        self.bits
    }
}

// ── Priority and quantum ──

/// A scheduling priority in `TASK_Q..=MIN_USER_Q`.
#[derive(Debug, Clone, Copy, PartialEq, Eq, Structural)]
pub struct Priority(u8);

impl Priority {
    /// The priority value.
    pub closed spec fn value(self) -> u8 {
        self.0
    }

    /// Validated constructor: `None` when `value > MIN_USER_Q`.
    pub fn new(value: u8) -> (r: Option<Priority>)
        ensures
            match r {
                Some(p) => value <= priority::MIN_USER_Q && p.value() == value,
                None => value > priority::MIN_USER_Q,
            },
    {
        if value <= priority::MIN_USER_Q {
            Some(Priority(value))
        } else {
            None
        }
    }

    /// The raw value.
    pub fn get(&self) -> (r: u8)
        ensures
            r == self.value(),
    {
        self.0
    }

    /// Whether this is the kernel-task priority.
    pub fn is_kernel(&self) -> (r: bool)
        ensures
            r == (self.value() == priority::TASK_Q),
    {
        self.0 == priority::TASK_Q
    }

    /// The default priority, `USER_Q`.
    pub fn user_default() -> (r: Priority)
        ensures
            r.value() == priority::USER_Q,
    {
        Priority(priority::USER_Q)
    }
}

impl Default for Priority {
    fn default() -> (r: Priority)
        ensures
            r.value() == priority::USER_Q,
    {
        Priority(priority::USER_Q)
    }
}

/// The priority a stored raw value stands for: itself when valid, else the
/// default `USER_Q`.
pub open spec fn effective_priority(raw: u8) -> u8 {
    if raw <= priority::MIN_USER_Q {
        raw
    } else {
        priority::USER_Q
    }
}

/// Time slice of a process.
#[derive(Debug)]
pub struct Quantum {
    pub cpu_time_left: u64,
    pub size_ms: u32,
}

impl Quantum {
    /// A quantum of `size_ms` milliseconds with no time left yet.
    pub fn new(size_ms: u32) -> (r: Quantum)
        ensures
            r.cpu_time_left == 0,
            r.size_ms == size_ms,
    {
        Quantum { cpu_time_left: 0, size_ms }
    }

    /// Refill the time left: `size_ms * cycles_per_ms` cycles.
    pub fn allocate(&mut self, cycles_per_ms: u64)
        requires
            old(self).size_ms * cycles_per_ms <= u64::MAX,
        ensures
            final(self).cpu_time_left == old(self).size_ms * cycles_per_ms,
            final(self).size_ms == old(self).size_ms,
    {
        let total: u64 = self.size_ms as u64 * cycles_per_ms;
        self.cpu_time_left = total;
    }

    /// Consume `cycles`; returns whether the quantum is now exhausted.
    pub fn consume(&mut self, cycles: u64) -> (r: bool)
        ensures
            r == (old(self).cpu_time_left <= cycles),
            final(self).cpu_time_left == (if r { 0 } else { old(self).cpu_time_left - cycles }),
            final(self).size_ms == old(self).size_ms,
    {
        if self.cpu_time_left <= cycles {
            self.cpu_time_left = 0;
            true
        } else {
            self.cpu_time_left = self.cpu_time_left - cycles;
            false
        }
    }
}

// ── CPU identifiers and masks ──

/// A CPU identifier.
#[derive(Debug, Clone, Copy, PartialEq, Eq, PartialOrd, Ord, Hash, Structural)]
pub struct CpuId(u32);

impl CpuId {
    /// The raw value.
    pub closed spec fn id(self) -> u32 {
        self.0
    }

    /// The "no CPU" sentinel.
    pub fn none() -> (r: CpuId)
        ensures
            r.id() == u32::MAX,
    {
        CpuId(u32::MAX)
    }

    /// The bootstrap processor.
    pub fn bsp() -> (r: CpuId)
        ensures
            r.id() == 0,
            r == CpuId::new_spec(0),
    {
        CpuId(0)
    }

    /// Validated constructor: `None` when `id >= MAX_CPUS`.
    pub fn new(id: u32) -> (r: Option<CpuId>)
        ensures
            match r {
                Some(c) => id < MAX_CPUS && c.id() == id,
                None => id >= MAX_CPUS,
            },
    {
        if id < 32 {
            Some(CpuId(id))
        } else {
            None
        }
    }

    /// The identifier with raw value `id`.
    pub closed spec fn new_spec(id: u32) -> CpuId {
        CpuId(id)
    }

    /// Constructor without validation.
    pub fn new_unchecked(id: u32) -> (r: CpuId)
        ensures
            r.id() == id,
            r == CpuId::new_spec(id),
    {
        CpuId(id)
    }

    /// The raw value.
    pub fn raw(self) -> (r: u32)
        ensures
            r == self.id(),
    {
        self.0
    }

    /// The value as an index.
    pub fn index(self) -> (r: usize)
        ensures
            r == self.id(),
    {
        self.0 as usize
    }

    /// Whether this is the bootstrap processor.
    pub fn is_bsp(self) -> (r: bool)
        ensures
            r == (self.id() == 0),
    {
        self.0 == 0
    }

    /// Whether this is the "no CPU" sentinel.
    pub fn is_none(self) -> (r: bool)
        ensures
            r == (self.id() == u32::MAX),
    {
        self.0 == u32::MAX
    }
}

/// Whether bit `cpu` of `bits` is set, for a CPU below `MAX_CPUS`.
pub open spec fn mask_has(bits: u64, cpu: u32) -> bool {
    cpu < MAX_CPUS && (bits >> cpu) & 1 == 1
}

/// CPU affinity bitmap: bit `i` set means the process may run on CPU `i`.
#[derive(Debug, Clone, Copy)]
pub struct CpuMask {
    bits: u64,
}

impl CpuMask {
    /// The bitmap.
    pub closed spec fn bits(self) -> u64 {
        self.bits
    }

    /// Whether CPU `cpu` is allowed.
    pub open spec fn allows_spec(self, cpu: u32) -> bool {
        mask_has(self.bits(), cpu)
    }

    /// All CPUs allowed.
    pub fn all() -> (r: CpuMask)
        ensures
            forall|c: u32| #[trigger] r.allows_spec(c) <==> c < MAX_CPUS,
            r.bits() == 0xffff_ffffu64,
    {
        let r = CpuMask { bits: 0xffff_ffffu64 };
        assert forall|c: u32| #[trigger] r.allows_spec(c) <==> c < MAX_CPUS by {
            assert(c < 32 ==> (0xffff_ffffu64 >> c) & 1u64 == 1u64) by (bit_vector);
            assert(c >= 32 ==> (0xffff_ffffu64 >> c) & 1u64 == 0u64) by (bit_vector);
        }
        r
    }

    /// No CPU allowed.
    pub fn empty() -> (r: CpuMask)
        ensures
            forall|c: u32| !(#[trigger] r.allows_spec(c)),
            r.bits() == 0,
    {
        let r = CpuMask { bits: 0 };
        assert forall|c: u32| !(#[trigger] r.allows_spec(c)) by {
            assert((0u64 >> c) & 1u64 == 0u64) by (bit_vector);
        }
        r
    }

    /// Whether CPU `cpu` is allowed.
    pub fn allows(&self, cpu: CpuId) -> (r: bool)
        ensures
            r == self.allows_spec(cpu.id()),
    {
        let c = cpu.raw();
        if cpu.index() < 32 {
            let b = self.bits;
            assert(c < 32 ==> ((b & (1u64 << c) != 0) == ((b >> c) & 1 == 1))) by (bit_vector);
            self.bits & (1u64 << c) != 0
        } else {
            false
        }
    }

    /// Allow CPU `cpu` (ignored when out of range).
    pub fn set(&mut self, cpu: CpuId)
        ensures
            forall|c: u32| #[trigger] final(self).allows_spec(c) <==> (old(self).allows_spec(c) || (c == cpu.id() && c < MAX_CPUS)),
    {
        let c = cpu.raw();
        if cpu.index() < 32 {
            let b = self.bits;
            let nb = b | (1u64 << c);
            assert forall|d: u32| mask_has(nb, d) <==> (mask_has(b, d) || (d == c && d < 32)) by {
                assert(c < 32 && nb == b | (1u64 << c) ==> (((nb >> d) & 1 == 1) <==> (((b >> d) & 1 == 1) || d == c))) by (bit_vector);
            }
            self.bits = nb;
        }
    }

    /// Disallow CPU `cpu` (ignored when out of range).
    pub fn clear(&mut self, cpu: CpuId)
        ensures
            forall|c: u32| #[trigger] final(self).allows_spec(c) <==> (old(self).allows_spec(c) && c != cpu.id()),
    {
        let c = cpu.raw();
        if cpu.index() < 32 {
            let b = self.bits;
            let nb = b & !(1u64 << c);
            assert forall|d: u32| mask_has(nb, d) <==> (mask_has(b, d) && d != c) by {
                assert(c < 32 && nb == b & !(1u64 << c) ==> (((nb >> d) & 1 == 1) <==> (((b >> d) & 1 == 1) && d != c))) by (bit_vector);
            }
            self.bits = nb;
        }
    }
}

// ── Scheduling fields ──

/// Scheduling fields of a process.
#[derive(Debug)]
pub struct SchedFields {
    /// Raw priority value (queue number).
    pub priority: u8,
    pub quantum: Quantum,
    pub cpu: u32,
    pub cpu_mask: CpuMask,
    /// The user-space scheduler, or `None` for kernel scheduling.
    pub scheduler: Option<ProcNr>,
}

impl SchedFields {
    /// Default fields: priority `USER_Q`, a 200 ms quantum, CPU 0, every CPU allowed.
    pub fn new() -> (r: SchedFields)
        ensures
            r.priority == priority::USER_Q,
            r.quantum.size_ms == 200,
            r.quantum.cpu_time_left == 0,
            r.cpu == 0,
            r.cpu_mask.bits() == 0xffff_ffffu64,
            r.scheduler.is_none(),
    {
        SchedFields::with_priority(priority::USER_Q)
    }

    /// Like `new`, with the given raw priority.
    pub fn with_priority(prio: u8) -> (r: SchedFields)
        ensures
            r.priority == prio,
            r.quantum.size_ms == 200,
            r.quantum.cpu_time_left == 0,
            r.cpu == 0,
            r.cpu_mask.bits() == 0xffff_ffffu64,
            r.scheduler.is_none(),
    {
        SchedFields {
            priority: prio,
            quantum: Quantum::new(200),
            cpu: 0,
            cpu_mask: CpuMask::all(),
            scheduler: None,
        }
    }
}

// ── Accounting ──

/// `x + y` modulo 2^64.
pub open spec fn wadd64(x: u64, y: u64) -> u64 {
    vstd::wrapping::u64_specs::wrapping_add(x, y)
}

/// `x + y` modulo 2^32.
pub open spec fn wadd32(x: u32, y: u32) -> u32 {
    vstd::wrapping::u32_specs::wrapping_add(x, y)
}

/// Scheduling statistics of a process.
#[derive(Debug)]
pub struct Accounting {
    pub enter_queue: u64,
    pub time_in_queue: u64,
    pub dequeues: u32,
    pub ipc_sync: u32,
    pub ipc_async: u32,
    pub preempted: u32,
}

impl Accounting {
    /// Every counter zero.
    pub open spec fn is_zero(&self) -> bool {
        &&& self.enter_queue == 0
        &&& self.time_in_queue == 0
        &&& self.dequeues == 0
        &&& self.ipc_sync == 0
        &&& self.ipc_async == 0
        &&& self.preempted == 0
    }

    /// All counters zero.
    pub fn new() -> (r: Accounting)
        ensures
            r.is_zero(),
    {
        Accounting {
            enter_queue: 0,
            time_in_queue: 0,
            dequeues: 0,
            ipc_sync: 0,
            ipc_async: 0,
            preempted: 0,
        }
    }

    /// Reset all counters to zero.
    pub fn reset(&mut self)
        ensures
            final(self).is_zero(),
    {
        self.enter_queue = 0;
        self.time_in_queue = 0;
        self.dequeues = 0;
        self.ipc_sync = 0;
        self.ipc_async = 0;
        self.preempted = 0;
    }

    /// Bill to idle: the enqueue stamp becomes zero, so the next dequeue
    /// credits no queue time.
    pub fn bill_to_idle(&mut self)
        ensures
            final(self).enter_queue == 0,
            final(self).time_in_queue == old(self).time_in_queue,
            final(self).dequeues == old(self).dequeues,
            final(self).ipc_sync == old(self).ipc_sync,
            final(self).ipc_async == old(self).ipc_async,
            final(self).preempted == old(self).preempted,
    {
        self.enter_queue = 0;
    }

    /// Record the time stamp at which the process entered a queue.
    pub fn record_enqueue(&mut self, tsc: u64)
        ensures
            final(self).enter_queue == tsc,
            final(self).time_in_queue == old(self).time_in_queue,
            final(self).dequeues == old(self).dequeues,
            final(self).ipc_sync == old(self).ipc_sync,
            final(self).ipc_async == old(self).ipc_async,
            final(self).preempted == old(self).preempted,
    {
        self.enter_queue = tsc;
    }

    /// Record a dequeue at time stamp `tsc`: the time spent in the queue is
    /// added when the stamps are ordered, the stamp is cleared and the
    /// dequeue count goes up by one.
    pub fn record_dequeue(&mut self, tsc: u64)
        ensures
            final(self).time_in_queue == (if old(self).enter_queue > 0 && tsc > old(self).enter_queue {
                wadd64(old(self).time_in_queue, (tsc - old(self).enter_queue) as u64)
            } else {
                old(self).time_in_queue
            }),
            final(self).enter_queue == 0,
            final(self).dequeues == wadd32(old(self).dequeues, 1),
            final(self).ipc_sync == old(self).ipc_sync,
            final(self).ipc_async == old(self).ipc_async,
            final(self).preempted == old(self).preempted,
    {
        let enter = self.enter_queue;
        if enter > 0 && tsc > enter {
            let delta = tsc - enter;
            self.time_in_queue = self.time_in_queue.wrapping_add(delta);
        }
        self.enter_queue = 0;
        self.dequeues = self.dequeues.wrapping_add(1);
    }

    /// Count a synchronous IPC.
    pub fn record_ipc_sync(&mut self)
        ensures
            final(self).ipc_sync == wadd32(old(self).ipc_sync, 1),
            final(self).enter_queue == old(self).enter_queue,
            final(self).time_in_queue == old(self).time_in_queue,
            final(self).dequeues == old(self).dequeues,
            final(self).ipc_async == old(self).ipc_async,
            final(self).preempted == old(self).preempted,
    {
        self.ipc_sync = self.ipc_sync.wrapping_add(1);
    }

    /// Count an asynchronous IPC.
    pub fn record_ipc_async(&mut self)
        ensures
            final(self).ipc_async == wadd32(old(self).ipc_async, 1),
            final(self).enter_queue == old(self).enter_queue,
            final(self).time_in_queue == old(self).time_in_queue,
            final(self).dequeues == old(self).dequeues,
            final(self).ipc_sync == old(self).ipc_sync,
            final(self).preempted == old(self).preempted,
    {
        self.ipc_async = self.ipc_async.wrapping_add(1);
    }

    /// Count a preemption.
    pub fn record_preempt(&mut self)
        ensures
            final(self).preempted == wadd32(old(self).preempted, 1),
            final(self).enter_queue == old(self).enter_queue,
            final(self).time_in_queue == old(self).time_in_queue,
            final(self).dequeues == old(self).dequeues,
            final(self).ipc_sync == old(self).ipc_sync,
            final(self).ipc_async == old(self).ipc_async,
    {
        self.preempted = self.preempted.wrapping_add(1);
    }
}

/// Time statistics of a process, in clock ticks.
#[derive(Debug)]
pub struct TimeStats {
    pub user_time: u64,
    pub sys_time: u64,
    pub virt_left: u64,
    pub prof_left: u64,
}

impl TimeStats {
    /// All zero.
    pub fn new() -> (r: TimeStats)
        ensures
            r.user_time == 0,
            r.sys_time == 0,
            r.virt_left == 0,
            r.prof_left == 0,
    {
        TimeStats { user_time: 0, sys_time: 0, virt_left: 0, prof_left: 0 }
    }

    /// Add user time.
    pub fn add_user_time(&mut self, ticks: u64)
        ensures
            final(self).user_time == wadd64(old(self).user_time, ticks),
            final(self).sys_time == old(self).sys_time,
            final(self).virt_left == old(self).virt_left,
            final(self).prof_left == old(self).prof_left,
    {
        self.user_time = self.user_time.wrapping_add(ticks);
    }

    /// Add system time.
    pub fn add_sys_time(&mut self, ticks: u64)
        ensures
            final(self).sys_time == wadd64(old(self).sys_time, ticks),
            final(self).user_time == old(self).user_time,
            final(self).virt_left == old(self).virt_left,
            final(self).prof_left == old(self).prof_left,
    {
        self.sys_time = self.sys_time.wrapping_add(ticks);
    }

    /// One tick of the virtual timer; returns whether it just expired.
    pub fn tick_virt_timer(&mut self) -> (r: bool)
        ensures
            final(self).virt_left == (if old(self).virt_left == 0 { 0 } else { (old(self).virt_left - 1) as u64 }),
            r == (old(self).virt_left == 1),
            final(self).user_time == old(self).user_time,
            final(self).sys_time == old(self).sys_time,
            final(self).prof_left == old(self).prof_left,
    {
        if self.virt_left == 0 {
            return false;
        }
        self.virt_left = self.virt_left - 1;
        self.virt_left == 0
    }

    /// One tick of the profiling timer; returns whether it just expired.
    pub fn tick_prof_timer(&mut self) -> (r: bool)
        ensures
            final(self).prof_left == (if old(self).prof_left == 0 { 0 } else { (old(self).prof_left - 1) as u64 }),
            r == (old(self).prof_left == 1),
            final(self).user_time == old(self).user_time,
            final(self).sys_time == old(self).sys_time,
            final(self).virt_left == old(self).virt_left,
    {
        if self.prof_left == 0 {
            return false;
        }
        self.prof_left = self.prof_left - 1;
        self.prof_left == 0
    }
}

/// CPU cycle statistics of a process.
#[derive(Debug)]
pub struct CyclesStats {
    pub total: u64,
    pub kcall: u64,
    pub kipc: u64,
    pub tick: u64,
}

impl CyclesStats {
    /// All zero.
    pub fn new() -> (r: CyclesStats)
        ensures
            r.total == 0,
            r.kcall == 0,
            r.kipc == 0,
            r.tick == 0,
    {
        CyclesStats { total: 0, kcall: 0, kipc: 0, tick: 0 }
    }

    /// Add to the total cycles.
    pub fn add_cycles(&mut self, cycles: u64)
        ensures
            final(self).total == wadd64(old(self).total, cycles),
            final(self).kcall == old(self).kcall,
            final(self).kipc == old(self).kipc,
            final(self).tick == old(self).tick,
    {
        self.total = self.total.wrapping_add(cycles);
    }

    /// Add to the kernel-call cycles.
    pub fn add_kcall_cycles(&mut self, cycles: u64)
        ensures
            final(self).kcall == wadd64(old(self).kcall, cycles),
            final(self).total == old(self).total,
            final(self).kipc == old(self).kipc,
            final(self).tick == old(self).tick,
    {
        self.kcall = self.kcall.wrapping_add(cycles);
    }

    /// Add to the kernel-IPC cycles.
    pub fn add_kipc_cycles(&mut self, cycles: u64)
        ensures
            final(self).kipc == wadd64(old(self).kipc, cycles),
            final(self).total == old(self).total,
            final(self).kcall == old(self).kcall,
            final(self).tick == old(self).tick,
    {
        self.kipc = self.kipc.wrapping_add(cycles);
    }
}

/// CPU average statistics of a process.
#[derive(Debug)]
pub struct CpuAvg {
    pub ca_base: u64,
    pub ca_run: u32,
    pub ca_last: u32,
    pub ca_avg: u32,
}

impl CpuAvg {
    /// All zero.
    pub fn new() -> (r: CpuAvg)
        ensures
            r.ca_base == 0,
            r.ca_run == 0,
            r.ca_last == 0,
            r.ca_avg == 0,
    {
        CpuAvg { ca_base: 0, ca_run: 0, ca_last: 0, ca_avg: 0 }
    }
}

/// Arguments of a deferred system call.
#[derive(Debug, Clone, Copy)]
pub struct DeferArgs {
    pub r1: usize,
    pub r2: usize,
    pub r3: usize,
}

impl DeferArgs {
    /// All zero.
    pub fn new() -> (r: DeferArgs)
        ensures
            r.r1 == 0,
            r.r2 == 0,
            r.r3 == 0,
    {
        DeferArgs { r1: 0, r2: 0, r3: 0 }
    }
}


/// Page-table root addresses of a process.
#[derive(Debug, Clone, Copy)]
pub struct ProcessSegments {
    /// Physical address of the page-table root.
    pub phys_root: u64,
    /// Kernel-virtual address of the page-table root, if the process has one.
    pub virt_root: Option<u64>,
}

impl ProcessSegments {
    /// No page table.
    pub fn new() -> (r: ProcessSegments)
        ensures
            r.phys_root == 0,
            r.virt_root.is_none(),
    {
        ProcessSegments { phys_root: 0, virt_root: None }
    }
}

// ── Process names ──

/// Index of the first zero byte of `s` at or after `i`, or `s.len()`.
pub open spec fn first_zero_from(s: Seq<u8>, i: int) -> int
    decreases s.len() - i,
{
    if i >= s.len() {
        s.len() as int
    } else if s[i] == 0 {
        i
    } else {
        first_zero_from(s, i + 1)
    }
}

/// Length of a NUL-terminated name: the index of its first zero byte.
pub open spec fn name_len(s: Seq<u8>) -> int {
    first_zero_from(s, 0)
}

proof fn lemma_first_zero_from(s: Seq<u8>, i: int)
    requires
        0 <= i <= s.len(),
    ensures
        i <= first_zero_from(s, i) <= s.len(),
        first_zero_from(s, i) < s.len() ==> s[first_zero_from(s, i)] == 0,
        forall|j: int| i <= j < first_zero_from(s, i) ==> s[j] != 0,
    decreases s.len() - i,
{
    if i < s.len() && s[i] != 0 {
        lemma_first_zero_from(s, i + 1);
    }
}

/// The bytes of a name built from `bytes`: at most `PROC_NAME_LEN - 1` of
/// them, padded with zeros.
pub open spec fn name_from_bytes(bytes: Seq<u8>) -> Seq<u8> {
    let n = if bytes.len() < PROC_NAME_LEN - 1 { bytes.len() as int } else { PROC_NAME_LEN - 1 };
    Seq::new(PROC_NAME_LEN as nat, |i: int| if i < n { bytes[i] } else { 0u8 })
}

proof fn lemma_name_len_of_bytes(b: Seq<u8>, i: int)
    requires
        b.len() < PROC_NAME_LEN,
        forall|j: int| 0 <= j < b.len() ==> b[j] != 0,
        0 <= i <= b.len(),
    ensures
        first_zero_from(name_from_bytes(b), i) == b.len(),
    decreases b.len() - i,
{
    if i < b.len() {
        lemma_name_len_of_bytes(b, i + 1);
    }
}

/// A short text without NUL bytes survives a round trip through a name:
/// `from_str(s)` holds the bytes of `s` up to its first NUL, they are valid
/// UTF-8, so `as_str` gives the text back.
pub proof fn law_from_str_then_as_str(s: &str)
    requires
        s.spec_bytes().len() < PROC_NAME_LEN,
        forall|j: int| 0 <= j < s.spec_bytes().len() ==> s.spec_bytes()[j] != 0,
    ensures
        name_len(name_from_bytes(s.spec_bytes())) == s.spec_bytes().len(),
        name_from_bytes(s.spec_bytes()).take(s.spec_bytes().len() as int) == s.spec_bytes(),
        vstd::utf8::valid_utf8(name_from_bytes(s.spec_bytes()).take(s.spec_bytes().len() as int)),
{
    let b = s.spec_bytes();
    lemma_name_len_of_bytes(b, 0);
    assert(name_from_bytes(b).take(b.len() as int) =~= b);
    vstd::utf8::encode_utf8_valid_utf8(s@);
}

/// The name `old` with as much of `suffix` appended as fits before the
/// final NUL.
pub open spec fn name_with_suffix(old: Seq<u8>, suffix: Seq<u8>) -> Seq<u8> {
    let cur = name_len(old);
    let available = if cur + 1 <= PROC_NAME_LEN { PROC_NAME_LEN - (cur + 1) } else { 0 };
    let copy_len = if suffix.len() < available { suffix.len() as int } else { available };
    Seq::new(old.len(), |i: int| if cur <= i < cur + copy_len { suffix[i - cur] } else { old[i] })
}

/// Process name: a fixed array of bytes, NUL-terminated when shorter.
#[derive(Debug, Clone, Copy)]
pub struct ProcName {
    data: [u8; PROC_NAME_LEN],
}

impl View for ProcName {
    type V = Seq<u8>;

    closed spec fn view(&self) -> Seq<u8> {
        self.data@
    }
}

impl ProcName {
    /// A name always holds `PROC_NAME_LEN` bytes.
    pub proof fn lemma_view_len(&self)
        ensures
            self@.len() == PROC_NAME_LEN,
    {
    }

    /// An empty name.
    pub fn new() -> (r: ProcName)
        ensures
            r@ == Seq::new(PROC_NAME_LEN as nat, |i: int| 0u8),
    {
        let r = ProcName { data: [0u8; PROC_NAME_LEN] };
        assert(r@ =~= Seq::new(PROC_NAME_LEN as nat, |i: int| 0u8));
        r
    }

    /// A name from a string, truncated to `PROC_NAME_LEN - 1` bytes.
    pub fn from_str(s: &str) -> (r: ProcName)
        ensures
            r@ == name_from_bytes(s.spec_bytes()),
    {
        let bytes = s.as_bytes();
        let len: usize = if bytes.len() < PROC_NAME_LEN - 1 { bytes.len() } else { PROC_NAME_LEN - 1 };
        let mut data = [0u8; PROC_NAME_LEN];
        let mut i: usize = 0;
        while i < len
            invariant
                len <= bytes@.len(),
                len < PROC_NAME_LEN,
                i <= len,
                bytes@ == s.spec_bytes(),
                forall|j: int| 0 <= j < i ==> data@[j] == bytes@[j],
                forall|j: int| i <= j < PROC_NAME_LEN ==> data@[j] == 0u8,
            decreases len - i,
        {
            data[i] = bytes[i];
            i = i + 1;
        }
        let r = ProcName { data };
        assert(r@ =~= name_from_bytes(s.spec_bytes()));
        r
    }

    /// Number of bytes before the first NUL.
    pub fn len(&self) -> (r: usize)
        ensures
            r == name_len(self@),
            r <= PROC_NAME_LEN,
    {
        proof {
            lemma_first_zero_from(self@, 0);
        }
        let mut i: usize = 0;
        while i < PROC_NAME_LEN
            invariant
                i <= PROC_NAME_LEN,
                self@.len() == PROC_NAME_LEN,
                first_zero_from(self@, i as int) == first_zero_from(self@, 0),
            decreases PROC_NAME_LEN - i,
        {
            if self.data[i] == 0 {
                return i;
            }
            i = i + 1;
        }
        i
    }

    /// The name as text, or `"<invalid>"` when its bytes are not UTF-8.
    pub fn as_str(&self) -> (r: &str)
        ensures
            vstd::utf8::valid_utf8(self@.take(name_len(self@))) ==> r.spec_bytes() == self@.take(name_len(self@)),
            !vstd::utf8::valid_utf8(self@.take(name_len(self@))) ==> r@ == "<invalid>"@,
    {
        let len = self.len();
        let bytes: &[u8] = &self.data[0..len];
        assert(bytes@ =~= self@.take(name_len(self@)));
        match str_from_utf8(bytes) {
            Some(s) => s,
            None => "<invalid>",
        }
    }

    /// Append `suffix`, truncated so that a final NUL still fits.
    pub fn push_suffix(&mut self, suffix: &str)
        ensures
            final(self)@ == name_with_suffix(old(self)@, suffix.spec_bytes()),
    {
        let cur = self.len();
        let sbytes = suffix.as_bytes();
        let available: usize = if cur + 1 <= PROC_NAME_LEN { PROC_NAME_LEN - (cur + 1) } else { 0 };
        let copy_len: usize = if sbytes.len() < available { sbytes.len() } else { available };
        let ghost old_data = self.data@;
        let mut i: usize = 0;
        while i < copy_len
            invariant
                cur == name_len(old_data),
                copy_len == 0 || cur + copy_len < PROC_NAME_LEN,
                copy_len <= sbytes@.len(),
                sbytes@ == suffix.spec_bytes(),
                i <= copy_len,
                self.data@.len() == PROC_NAME_LEN,
                forall|j: int| 0 <= j < PROC_NAME_LEN ==> self.data@[j] == (if cur <= j < cur + i { sbytes@[j - cur] } else { old_data[j] }),
            decreases copy_len - i,
        {
            self.data[cur + i] = sbytes[i];
            i = i + 1;
        }
        assert(self@ =~= name_with_suffix(old_data, suffix.spec_bytes()));
    }

    /// The raw bytes.
    pub fn as_bytes(&self) -> (r: &[u8; PROC_NAME_LEN])
        ensures
            r@ == self@,
    {
        &self.data
    }

    /// A name from a fixed byte array.
    pub fn from_array(data: [u8; PROC_NAME_LEN]) -> (r: ProcName)
        ensures
            r@ == data@,
    {
        ProcName { data }
    }
}

/// `core::str::from_utf8`: the text that `bytes` encode, when they are
/// valid UTF-8.
#[verifier::external_body]
fn str_from_utf8(bytes: &[u8]) -> (r: Option<&str>)
    ensures
        r.is_some() <==> vstd::utf8::valid_utf8(bytes@),
        r.is_some() ==> r.unwrap().spec_bytes() == bytes@,
{
    core::str::from_utf8(bytes).ok()
}

// ── Signal sets ──

/// Whether signal `sig` (1..=64) is in the bitmap `bits`.
pub open spec fn sig_in(bits: u64, sig: u8) -> bool {
    1 <= sig <= 64 && (bits >> ((sig - 1) as u64)) & 1 == 1
}

/// A set of signals 1..=64, one bit each.
#[derive(Debug, Clone, Copy, PartialEq, Eq, Structural)]
pub struct SigSet(u64);

impl View for SigSet {
    type V = u64;

    closed spec fn view(&self) -> u64 {
        self.0
    }
}

impl SigSet {
    /// The empty set.
    pub fn empty() -> (r: SigSet)
        ensures
            r@ == 0,
    {
        SigSet(0)
    }

    /// A set from its raw bitmap.
    pub fn from_raw(value: u64) -> (r: SigSet)
        ensures
            r@ == value,
    {
        SigSet(value)
    }

    /// Whether `sig` is in the set (signals outside 1..=64 never are).
    pub fn contains(self, sig: u8) -> (r: bool)
        ensures
            r == sig_in(self@, sig),
    {
        if sig == 0 || sig > 64 {
            return false;
        }
        let sh: u64 = (sig - 1) as u64;
        (self.0 >> sh) & 1 == 1
    }

    /// Add `sig` (ignored outside 1..=64).
    pub fn add(&mut self, sig: u8)
        ensures
            final(self)@ == (if 1 <= sig <= 64 { old(self)@ | (1u64 << ((sig - 1) as u64)) } else { old(self)@ }),
            forall|s: u8| #[trigger] sig_in(final(self)@, s) <==> (sig_in(old(self)@, s) || (s == sig && 1 <= sig <= 64)),
    {
        if sig == 0 || sig > 64 {
            return;
        }
        let b = self.0;
        let sh: u64 = (sig - 1) as u64;
        let nb = b | (1u64 << sh);
        assert forall|s: u8| #[trigger] sig_in(nb, s) <==> (sig_in(b, s) || s == sig) by {
            if 1 <= s <= 64 {
                let t: u64 = (s - 1) as u64;
                assert(sh < 64 && t < 64 && nb == b | (1u64 << sh) ==> (((nb >> t) & 1 == 1) <==> (((b >> t) & 1 == 1) || t == sh))) by (bit_vector);
            }
        }
        self.0 = nb;
    }

    /// Remove `sig` (ignored outside 1..=64).
    pub fn remove(&mut self, sig: u8)
        ensures
            final(self)@ == (if 1 <= sig <= 64 { old(self)@ & !(1u64 << ((sig - 1) as u64)) } else { old(self)@ }),
            forall|s: u8| #[trigger] sig_in(final(self)@, s) <==> (sig_in(old(self)@, s) && s != sig),
    {
        if sig == 0 || sig > 64 {
            return;
        }
        let b = self.0;
        let sh: u64 = (sig - 1) as u64;
        let nb = b & !(1u64 << sh);
        assert forall|s: u8| #[trigger] sig_in(nb, s) <==> (sig_in(b, s) && s != sig) by {
            if 1 <= s <= 64 {
                let t: u64 = (s - 1) as u64;
                assert(sh < 64 && t < 64 && nb == b & !(1u64 << sh) ==> (((nb >> t) & 1 == 1) <==> (((b >> t) & 1 == 1) && t != sh))) by (bit_vector);
            }
        }
        self.0 = nb;
    }

    /// Removing a signal that was just added to a set without it gives
    /// the set back.
    pub proof fn law_remove_undoes_add(b: u64, sig: u8)
        requires
            !sig_in(b, sig),
        ensures
            (if 1 <= sig <= 64 {
                (b | (1u64 << ((sig - 1) as u64))) & !(1u64 << ((sig - 1) as u64))
            } else {
                b
            }) == b,
    {
        if 1 <= sig <= 64 {
            let t: u64 = (sig - 1) as u64;
            assert(t < 64 && (b >> t) & 1 != 1 ==> (b | (1u64 << t)) & !(1u64 << t) == b) by (bit_vector);
        }
    }

    /// Remove every signal.
    pub fn clear(&mut self)
        ensures
            final(self)@ == 0,
    {
        self.0 = 0;
    }

    /// Whether the set is empty.
    pub fn is_empty(self) -> (r: bool)
        ensures
            r == (self@ == 0),
    {
        self.0 == 0
    }

    /// The raw bitmap.
    pub fn get(self) -> (r: u64)
        ensures
            r == self@,
    {
        self.0
    }
}


// ── The process slot ──

/// Kernel state of one process slot.
#[derive(Debug)]
pub struct KProcess {
    /// Process number (slot number).
    pub p_nr: ProcNr,
    /// Endpoint identifier.
    pub p_endpoint: Endpoint,
    /// Page-table root addresses.
    pub p_seg: ProcessSegments,
    /// Index of the privilege slot, if one is assigned.
    pub priv_id: Option<u8>,
    /// Sanity marker of a process slot, always `PMAGIC`.
    pub p_magic: u32,
    pub p_rts_flags: RtsFlags,
    pub p_misc_flags: MiscFlags,
    pub p_sched: SchedFields,
    pub p_accounting: Accounting,
    pub p_time: TimeStats,
    pub p_cycles: CyclesStats,
    pub p_cpuavg: CpuAvg,
    /// Time stamp of the last dequeue.
    pub p_dequeued: u64,
    /// Address of the last unhandled page fault.
    pub p_fault_addr: Option<u64>,
    pub p_defer: DeferArgs,
    /// Next process in the ready queue, or `NONE_PROC_NR`.
    pub p_nextready: i32,
    /// Processes blocked sending to this one.
    pub caller_q: SenderQueue,
    /// Endpoint the process wants to receive from.
    pub p_getfrom_e: Endpoint,
    /// Endpoint the process wants to send to.
    pub p_sendto_e: Endpoint,
    /// Pending kernel signals.
    pub p_pending: SigSet,
    pub p_name: ProcName,
    /// User address of the message delivery buffer.
    pub p_delivermsg_vir: u64,
    /// Next process in the VM restart chain.
    pub p_next_restart: Option<ProcNr>,
    /// Next process in the VM request queue.
    pub p_next_requestor: Option<ProcNr>,
    /// The pending memory request to VM, present exactly while
    /// `VMREQUEST` is set.
    pub p_vm_suspend: Option<VmSuspendContext>,
}

/// A memory request is recorded exactly while `VMREQUEST` is set.
pub open spec fn vm_request_consistent(p: KProcess) -> bool {
    (p.p_rts_flags@ & rts::VMREQUEST != 0) == p.p_vm_suspend.is_some()
}

proof fn lemma_vmrequest_bit(x: u32)
    ensures
        (x | rts::VMREQUEST) & rts::VMREQUEST != 0,
        (x & !rts::VMREQUEST) & rts::VMREQUEST == 0,
        (x & !(rts::SIGNALED | rts::SIG_PENDING | rts::P_STOP | rts::VMREQUEST)) & rts::VMREQUEST == 0,
{
    assert((x | 0x800u32) & 0x800u32 != 0 && (x & !0x800u32) & 0x800u32 == 0
        && (x & !(0x10u32 | 0x20u32 | 0x40u32 | 0x800u32)) & 0x800u32 == 0) by (bit_vector);
}

/// Marker value of `p_magic`.
pub const PMAGIC: u32 = 0xC0FFEE1;

/// The runtime flags of a child made by fork from a parent with flags
/// `parent`: `NO_QUANTUM` set, signal, trace-stop and VM-request flags
/// cleared.
pub open spec fn fork_rts(parent: u32) -> u32 {
    ((parent & rts::ALL) | rts::NO_QUANTUM) & !(rts::SIGNALED | rts::SIG_PENDING | rts::P_STOP | rts::VMREQUEST)
}

/// A forked child keeps its parent's runtime flags: for the parent's flag
/// word `f` and any set `b` of named flags other than the signal,
/// trace-stop, VM-request and quantum flags, the child has exactly the
/// flags of `b` that the parent has (a parent blocked receiving gives a
/// child blocked receiving). The child always has `NO_QUANTUM`, never
/// one of the cleared flags, and no unnamed bit.
pub proof fn law_fork_keeps_parent_flags(f: u32, b: u32)
    requires
        b & !rts::ALL == 0,
        b & (rts::SIGNALED | rts::SIG_PENDING | rts::P_STOP | rts::VMREQUEST | rts::NO_QUANTUM) == 0,
    ensures
        fork_rts(f) & b == f & b,
        fork_rts(f) & rts::NO_QUANTUM == rts::NO_QUANTUM,
        fork_rts(f) & (rts::SIGNALED | rts::SIG_PENDING | rts::P_STOP | rts::VMREQUEST) == 0,
        fork_rts(f) & !rts::ALL == 0,
{
    assert((b & !0x1dfffu32 == 0 && b & (0x10u32 | 0x20u32 | 0x40u32 | 0x800u32 | 0x8000u32) == 0
            ==> (((f & 0x1dfffu32) | 0x8000u32) & !(0x10u32 | 0x20u32 | 0x40u32 | 0x800u32)) & b == f & b)
        && (((f & 0x1dfffu32) | 0x8000u32) & !(0x10u32 | 0x20u32 | 0x40u32 | 0x800u32)) & 0x8000u32 == 0x8000u32
        && (((f & 0x1dfffu32) | 0x8000u32) & !(0x10u32 | 0x20u32 | 0x40u32 | 0x800u32)) & (0x10u32 | 0x20u32 | 0x40u32 | 0x800u32) == 0
        && (((f & 0x1dfffu32) | 0x8000u32) & !(0x10u32 | 0x20u32 | 0x40u32 | 0x800u32)) & !0x1dfffu32 == 0) by (bit_vector);
}

/// The miscellaneous flags of a forked child: timers, tracing, profiling
/// and single-step cleared.
pub open spec fn fork_misc(parent: u32) -> u32 {
    (parent & mf::ALL) & !(mf::VIRT_TIMER | mf::PROF_TIMER | mf::SC_TRACE | mf::SPROF_SEEN | mf::STEP)
}

impl KProcess {
    /// The slot state of a fresh process: flags given by `rts_bits`, no
    /// page table, no privilege, no queue links, no signals, zero
    /// counters, default scheduling fields.
    pub open spec fn is_fresh(&self, nr: ProcNr, ep: Endpoint, rts_bits: u32) -> bool {
        &&& self.p_nr == nr
        &&& self.p_endpoint == ep
        &&& self.p_seg.phys_root == 0
        &&& self.p_seg.virt_root.is_none()
        &&& self.priv_id.is_none()
        &&& self.p_magic == PMAGIC
        &&& self.p_rts_flags@ == rts_bits
        &&& self.p_misc_flags@ == 0
        &&& self.p_sched.priority == priority::USER_Q
        &&& self.p_sched.quantum.size_ms == 200
        &&& self.p_sched.quantum.cpu_time_left == 0
        &&& self.p_sched.cpu == 0
        &&& self.p_sched.cpu_mask.bits() == 0xffff_ffffu64
        &&& self.p_sched.scheduler.is_none()
        &&& self.p_accounting.is_zero()
        &&& self.p_time.user_time == 0
        &&& self.p_time.sys_time == 0
        &&& self.p_time.virt_left == 0
        &&& self.p_time.prof_left == 0
        &&& self.p_cycles.total == 0
        &&& self.p_cycles.kcall == 0
        &&& self.p_cycles.kipc == 0
        &&& self.p_cycles.tick == 0
        &&& self.p_dequeued == 0
        &&& self.p_fault_addr.is_none()
        &&& self.p_nextready == NONE_PROC_NR
        &&& self.caller_q@ == Seq::<ProcNr>::empty()
        &&& self.p_getfrom_e.0 == ENDPOINT_NONE
        &&& self.p_sendto_e.0 == ENDPOINT_NONE
        &&& self.p_pending@ == 0
        &&& self.p_name@ == Seq::new(PROC_NAME_LEN as nat, |i: int| 0u8)
        &&& self.p_delivermsg_vir == 0
        &&& self.p_next_restart.is_none()
        &&& self.p_next_requestor.is_none()
        &&& self.p_vm_suspend.is_none()
    }

    /// A free slot for process `nr` with endpoint `endpoint`.
    pub fn new(nr: ProcNr, endpoint: Endpoint) -> (r: KProcess)
        ensures
            r.is_fresh(nr, endpoint, rts::SLOT_FREE),
    {
        KProcess::with_flags(nr, endpoint, rts::SLOT_FREE)
    }

    /// A free slot with process number 0 and no endpoint.
    pub fn new_zeroed() -> (r: KProcess)
        ensures
            r.is_fresh(ProcNr(0), Endpoint(ENDPOINT_NONE), rts::SLOT_FREE),
    {
        KProcess::with_flags(ProcNr(0), Endpoint::none(), rts::SLOT_FREE)
    }

    /// A fresh slot with the given runtime flags.
    pub fn with_flags(nr: ProcNr, endpoint: Endpoint, rts_bits: u32) -> (r: KProcess)
        ensures
            r.is_fresh(nr, endpoint, rts_bits),
    {
        KProcess {
            p_nr: nr,
            p_endpoint: endpoint,
            p_seg: ProcessSegments::new(),
            priv_id: None,
            p_magic: PMAGIC,
            p_rts_flags: RtsFlags::with(rts_bits),
            p_misc_flags: MiscFlags::new(),
            p_sched: SchedFields::new(),
            p_accounting: Accounting::new(),
            p_time: TimeStats::new(),
            p_cycles: CyclesStats::new(),
            p_cpuavg: CpuAvg::new(),
            p_dequeued: 0,
            p_fault_addr: None,
            p_defer: DeferArgs::new(),
            p_nextready: NONE_PROC_NR,
            caller_q: SenderQueue::new(),
            p_getfrom_e: Endpoint::none(),
            p_sendto_e: Endpoint::none(),
            p_pending: SigSet::empty(),
            p_name: ProcName::new(),
            p_delivermsg_vir: 0,
            p_next_restart: None,
            p_next_requestor: None,
            p_vm_suspend: None,
        }
    }

    /// Kernel tasks have negative process numbers.
    pub fn is_kernel_task(&self) -> (r: bool)
        ensures
            r == (self.p_nr.0 < 0),
    {
        self.p_nr.0 < 0
    }

    /// Runnable exactly when no runtime flag is set.
    pub fn is_runnable(&self) -> (r: bool)
        ensures
            r == (self.p_rts_flags@ == 0),
    {
        self.p_rts_flags.is_runnable()
    }

    /// The priority, with an out-of-range stored value read as `USER_Q`.
    pub fn get_priority(&self) -> (r: Priority)
        ensures
            r.value() == effective_priority(self.p_sched.priority),
    {
        match Priority::new(self.p_sched.priority) {
            Some(p) => p,
            None => Priority::user_default(),
        }
    }

    /// Set the priority when it is in range; returns whether it was.
    pub fn set_priority(&mut self, prio: u8) -> (r: bool)
        ensures
            r == (prio <= priority::MIN_USER_Q),
            final(self).p_sched.priority == (if r { prio } else { old(self).p_sched.priority }),
            final(self).p_rts_flags@ == old(self).p_rts_flags@,
            final(self).p_nextready == old(self).p_nextready,
            final(self).p_nr == old(self).p_nr,
    {
        if prio <= priority::MIN_USER_Q {
            self.p_sched.priority = prio;
            true
        } else {
            false
        }
    }

    /// Set the priority without validation.
    pub fn set_priority_unchecked(&mut self, prio: u8)
        ensures
            final(self).p_sched.priority == prio,
            final(self).p_rts_flags@ == old(self).p_rts_flags@,
            final(self).p_nextready == old(self).p_nextready,
            final(self).p_nr == old(self).p_nr,
    {
        self.p_sched.priority = prio;
    }

    /// Reset the scheduling statistics.
    pub fn reset_accounting(&mut self)
        ensures
            final(self).p_accounting.is_zero(),
            final(self).p_rts_flags@ == old(self).p_rts_flags@,
            final(self).p_sched.priority == old(self).p_sched.priority,
    {
        self.p_accounting.reset();
    }

    /// The endpoint the process is blocked on: its send target while
    /// sending, else its receive source while receiving.
    pub fn blocked_on(&self) -> (r: Option<Endpoint>)
        ensures
            r == (if self.p_rts_flags@ & rts::SENDING != 0 {
                Some(self.p_sendto_e)
            } else if self.p_rts_flags@ & rts::RECEIVING != 0 {
                Some(self.p_getfrom_e)
            } else {
                None
            }),
    {
        if self.p_rts_flags.is_set(rts::SENDING) {
            Some(self.p_sendto_e)
        } else if self.p_rts_flags.is_set(rts::RECEIVING) {
            Some(self.p_getfrom_e)
        } else {
            None
        }
    }

    /// Suspend the process on a memory request to VM: record a pending
    /// request of kind `suspend_type` about `target`'s range `params`, and
    /// set `VMREQUEST`, which keeps the process from running.
    pub fn suspend_for_vm(&mut self, suspend_type: VmSuspendType, target: Endpoint, params: VmCheckParams)
        requires
            old(self).p_rts_flags@ & rts::VMREQUEST == 0,
            old(self).p_vm_suspend.is_none(),
        ensures
            final(self).p_vm_suspend == Some(VmSuspendContext {
                suspend_type,
                target,
                check_params: params,
                state: VmSuspendState::Pending,
            }),
            final(self).p_rts_flags@ == old(self).p_rts_flags@ | rts::VMREQUEST,
            vm_request_consistent(*final(self)),
            *final(self) == (KProcess {
                p_vm_suspend: final(self).p_vm_suspend,
                p_rts_flags: final(self).p_rts_flags,
                ..*old(self)
            }),
    {
        self.p_vm_suspend = Some(VmSuspendContext {
            suspend_type,
            target,
            check_params: params,
            state: VmSuspendState::Pending,
        });
        self.p_rts_flags.set(rts::VMREQUEST);
        proof {
            lemma_vmrequest_bit(old(self).p_rts_flags@);
        }
    }

    /// Drop a pending memory request: no request, `VMREQUEST` cleared;
    /// the miscellaneous flags (a kernel call to resume among them) stay.
    pub fn clear_vm_suspend(&mut self)
        ensures
            final(self).p_vm_suspend.is_none(),
            final(self).p_rts_flags@ == old(self).p_rts_flags@ & !rts::VMREQUEST,
            vm_request_consistent(*final(self)),
            *final(self) == (KProcess {
                p_vm_suspend: None,
                p_rts_flags: final(self).p_rts_flags,
                ..*old(self)
            }),
    {
        self.p_vm_suspend = None;
        self.p_rts_flags.clear(rts::VMREQUEST);
        proof {
            lemma_vmrequest_bit(old(self).p_rts_flags@);
        }
    }

    /// Whether the process waits on VM (`VMREQUEST` is set).
    pub fn is_vm_suspended(&self) -> (r: bool)
        ensures
            r == (self.p_rts_flags@ & rts::VMREQUEST != 0),
    {
        self.p_rts_flags.is_set(rts::VMREQUEST)
    }

    /// The pending memory request, if any.
    pub fn vm_suspend_context(&self) -> (r: Option<VmSuspendContext>)
        ensures
            r == self.p_vm_suspend,
    {
        self.p_vm_suspend
    }

    /// Set the process name.
    pub fn set_boot_name(&mut self, name: &str)
        ensures
            final(self).p_name@ == name_from_bytes(name.spec_bytes()),
            final(self).p_rts_flags@ == old(self).p_rts_flags@,
            final(self).p_nr == old(self).p_nr,
            *final(self) == (KProcess { p_name: final(self).p_name, ..*old(self) }),
    {
        self.p_name = ProcName::from_str(name);
    }

    /// A child of `parent` made by fork, in slot `child_nr` with endpoint
    /// `child_endpoint`.
    ///
    /// The child keeps the parent's flags but for the fork corrections,
    /// its priority, quantum size, CPU and affinity, IPC endpoints, name
    /// and message buffer address; everything else starts afresh: no
    /// page table, no privilege, no scheduler, no queue links, an empty
    /// sender queue, no pending memory request, no signals, zero
    /// statistics.
    pub fn fork_from(parent: &KProcess, child_nr: ProcNr, child_endpoint: Endpoint) -> (r: KProcess)
        ensures
            r.p_nr == child_nr,
            r.p_endpoint == child_endpoint,
            r.p_seg.phys_root == 0,
            r.p_seg.virt_root.is_none(),
            r.priv_id.is_none(),
            r.p_rts_flags@ == fork_rts(parent.p_rts_flags@),
            r.p_misc_flags@ == fork_misc(parent.p_misc_flags@),
            r.p_sched.priority == parent.p_sched.priority,
            r.p_sched.quantum.size_ms == parent.p_sched.quantum.size_ms,
            r.p_sched.quantum.cpu_time_left == 0,
            r.p_sched.cpu == parent.p_sched.cpu,
            r.p_sched.cpu_mask.bits() == parent.p_sched.cpu_mask.bits(),
            r.p_sched.scheduler.is_none(),
            r.p_accounting.is_zero(),
            r.p_time.user_time == 0,
            r.p_time.sys_time == 0,
            r.p_time.virt_left == 0,
            r.p_time.prof_left == 0,
            r.p_cycles.total == 0,
            r.p_cycles.kcall == 0,
            r.p_cycles.kipc == 0,
            r.p_cycles.tick == 0,
            r.p_cpuavg.ca_base == 0 && r.p_cpuavg.ca_run == 0 && r.p_cpuavg.ca_last == 0 && r.p_cpuavg.ca_avg == 0,
            r.p_defer.r1 == 0 && r.p_defer.r2 == 0 && r.p_defer.r3 == 0,
            r.p_dequeued == 0,
            r.p_fault_addr.is_none(),
            r.p_nextready == NONE_PROC_NR,
            r.p_getfrom_e == parent.p_getfrom_e,
            r.p_sendto_e == parent.p_sendto_e,
            r.p_pending@ == 0,
            r.p_name@ == parent.p_name@,
            r.p_delivermsg_vir == parent.p_delivermsg_vir,
            r.p_next_restart.is_none(),
            r.p_next_requestor.is_none(),
            r.p_magic == PMAGIC,
            r.caller_q@ == Seq::<ProcNr>::empty(),
            r.p_vm_suspend.is_none(),
            vm_request_consistent(r),
    {
        proof {
            lemma_vmrequest_bit((parent.p_rts_flags@ & rts::ALL) | rts::NO_QUANTUM);
        }
        let child_rts = (parent.p_rts_flags.get() | rts::NO_QUANTUM)
            & !(rts::SIGNALED | rts::SIG_PENDING | rts::P_STOP | rts::VMREQUEST);
        let child_mf = parent.p_misc_flags.get()
            & !(mf::VIRT_TIMER | mf::PROF_TIMER | mf::SC_TRACE | mf::SPROF_SEEN | mf::STEP);
        KProcess {
            p_nr: child_nr,
            p_endpoint: child_endpoint,
            p_seg: ProcessSegments::new(),
            priv_id: None,
            p_magic: PMAGIC,
            p_rts_flags: RtsFlags::with(child_rts),
            p_misc_flags: MiscFlags::with(child_mf),
            p_sched: SchedFields {
                priority: parent.p_sched.priority,
                quantum: Quantum::new(parent.p_sched.quantum.size_ms),
                cpu: parent.p_sched.cpu,
                cpu_mask: parent.p_sched.cpu_mask,
                scheduler: None,
            },
            p_accounting: Accounting::new(),
            p_time: TimeStats::new(),
            p_cycles: CyclesStats::new(),
            p_cpuavg: CpuAvg::new(),
            p_dequeued: 0,
            p_fault_addr: None,
            p_defer: DeferArgs::new(),
            p_nextready: NONE_PROC_NR,
            caller_q: SenderQueue::new(),
            p_getfrom_e: parent.p_getfrom_e,
            p_sendto_e: parent.p_sendto_e,
            p_pending: SigSet::empty(),
            p_name: parent.p_name,
            p_delivermsg_vir: parent.p_delivermsg_vir,
            p_next_restart: None,
            p_next_requestor: None,
            p_vm_suspend: None,
        }
    }
}

/// Fork flag: the child starts with `VMINHIBIT` set.
pub const FORK_VMINHIBIT: u32 = 0x01;

/// The bytes `"*F"` that mark a forked process's name.
pub open spec fn fork_name_suffix() -> Seq<u8> {
    seq![42u8, 70u8]
}

/// Finish a fork: a child of a system process loses its privilege
/// (`NO_PRIV`), `FORK_VMINHIBIT` sets `VMINHIBIT`, and the name gets the
/// suffix `"*F"` when the whole suffix fits before the final NUL; a name
/// too long for it is left as it is.
pub fn complete_fork_setup(child: &mut KProcess, parent_is_sys_proc: bool, flags: u32)
    ensures
        final(child).p_rts_flags@ == old(child).p_rts_flags@
            | (if parent_is_sys_proc { rts::NO_PRIV } else { 0 })
            | (if flags & FORK_VMINHIBIT != 0 { rts::VMINHIBIT } else { 0 }),
        final(child).p_name@ == (if name_len(old(child).p_name@) + 2 < PROC_NAME_LEN {
            name_with_suffix(old(child).p_name@, fork_name_suffix())
        } else {
            old(child).p_name@
        }),
        *final(child) == (KProcess { p_rts_flags: final(child).p_rts_flags, p_name: final(child).p_name, ..*old(child) }),
{
    let ghost r0 = child.p_rts_flags@;
    if parent_is_sys_proc {
        child.p_rts_flags.set(rts::NO_PRIV);
    }
    if flags & FORK_VMINHIBIT != 0 {
        child.p_rts_flags.set(rts::VMINHIBIT);
    }
    proof {
        let a: u32 = if parent_is_sys_proc { rts::NO_PRIV } else { 0 };
        let b: u32 = if flags & FORK_VMINHIBIT != 0 { rts::VMINHIBIT } else { 0 };
        assert((r0 | a) | b == r0 | a | b && r0 | 0u32 == r0) by (bit_vector);
        assert(forall|x: u32| #[trigger] (x | 0u32) == x) by (bit_vector);
    }
    if child.p_name.len() + 2 < PROC_NAME_LEN {
        let suffix = "*F";
        proof {
            reveal_strlit("*F");
            vstd::string::is_ascii_spec_bytes(suffix);
            assert(suffix.spec_bytes() =~= fork_name_suffix());
        }
        child.p_name.push_suffix(suffix);
    }
}

} // verus!
