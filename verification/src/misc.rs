//! Miscellaneous kernel calls: information queries, process tracing, live
//! update of a system process, statistical profiling, and the answer to an
//! unknown call.
use vstd::prelude::*;
use crate::errno::{E2BIG, EBUSY, EFAULT, EINVAL, ENOSYS, EPERM, OK};
use crate::proc::proc_nr;
use crate::proc::{mf, rts, Accounting, KProcess, ProcNr, PROC_NAME_LEN};
use crate::priv_table::{priv_with_identity, Priv, PrivFlags, PrivTable, SysId, Bitmap, NR_SYS_PROCS};
use crate::types::{Endpoint, ENDPOINT_SELF};
use crate::proc_table::{ProcessTable, acct_after_dequeue, acct_after_enqueue, endpoint_lookup, queues_after_rts_set, queues_enqueued, rts_set_dequeues, with_identity};
use crate::proc::effective_priority;
use crate::sched::{nr_index, same_but_link, valid_nr};
use crate::ipc::without_sender;

verus! {

/// How a kernel call ends.
#[derive(Debug, Clone, Copy, PartialEq, Eq, Structural)]
pub enum KcallResult {
    /// The call is answered with this status.
    Reply(i32),
    /// The caller waits for the memory manager; the call is redone later.
    VmSuspend,
}

/// The answer to a kernel call that is not implemented: `ENOSYS`.
pub fn dispatch_unused() -> (r: KcallResult)
    ensures
        r == KcallResult::Reply(ENOSYS),
{
    KcallResult::Reply(ENOSYS)
}

/// What an information query asks for.
#[derive(Debug, Clone, Copy, PartialEq, Eq, Structural)]
pub enum GetInfoRequest {
    /// Kernel information.
    KInfo,
    /// The boot image table.
    Image,
    /// The whole process table.
    ProcTab,
    /// All randomness bins.
    Randomness,
    /// Boot monitor parameters.
    MonParams,
    /// Interrupt hooks.
    IrqHooks,
    /// The privilege table.
    PrivTab,
    /// One process slot.
    Proc,
    /// Machine information.
    Machine,
    /// Load averages.
    LoadInfo,
    /// Active interrupt masks.
    IrqActids,
    /// One privilege record.
    Priv,
    /// The clock frequency.
    Hz,
    /// The caller's own name, endpoint and privileges.
    WhoAmI,
    /// One randomness bin.
    RandomnessBin,
    /// Idle time stamp counter.
    IdleTsc,
    /// Per-CPU information.
    CpuInfo,
    /// Process registers.
    Regs,
    /// Per-state CPU ticks.
    CpuTicks,
}

/// The wire value of request `q`.
pub open spec fn getinfo_code(q: GetInfoRequest) -> i32 {
    match q {
        GetInfoRequest::KInfo => 0,
        GetInfoRequest::Image => 1,
        GetInfoRequest::ProcTab => 2,
        GetInfoRequest::Randomness => 3,
        GetInfoRequest::MonParams => 4,
        GetInfoRequest::IrqHooks => 6,
        GetInfoRequest::PrivTab => 8,
        GetInfoRequest::Proc => 11,
        GetInfoRequest::Machine => 12,
        GetInfoRequest::LoadInfo => 15,
        GetInfoRequest::IrqActids => 16,
        GetInfoRequest::Priv => 17,
        GetInfoRequest::Hz => 18,
        GetInfoRequest::WhoAmI => 19,
        GetInfoRequest::RandomnessBin => 20,
        GetInfoRequest::IdleTsc => 21,
        GetInfoRequest::CpuInfo => 23,
        GetInfoRequest::Regs => 24,
        GetInfoRequest::CpuTicks => 25,
    }
}

/// `v` is the wire value of an information query the kernel handles.
pub open spec fn is_getinfo_code(v: i32) -> bool {
    ||| 0 <= v <= 4
    ||| v == 6
    ||| v == 8
    ||| 11 <= v <= 12
    ||| 15 <= v <= 21
    ||| 23 <= v <= 25
}

impl GetInfoRequest {
    /// Decode a wire value; values the kernel does not handle are refused.
    pub fn try_from(value: i32) -> (r: Result<GetInfoRequest, ()>)
        ensures
            r is Ok <==> is_getinfo_code(value),
            r is Ok ==> getinfo_code(r->Ok_0) == value,
    {
        match value {
            0 => Ok(GetInfoRequest::KInfo),
            1 => Ok(GetInfoRequest::Image),
            2 => Ok(GetInfoRequest::ProcTab),
            3 => Ok(GetInfoRequest::Randomness),
            4 => Ok(GetInfoRequest::MonParams),
            6 => Ok(GetInfoRequest::IrqHooks),
            8 => Ok(GetInfoRequest::PrivTab),
            11 => Ok(GetInfoRequest::Proc),
            12 => Ok(GetInfoRequest::Machine),
            15 => Ok(GetInfoRequest::LoadInfo),
            16 => Ok(GetInfoRequest::IrqActids),
            17 => Ok(GetInfoRequest::Priv),
            18 => Ok(GetInfoRequest::Hz),
            19 => Ok(GetInfoRequest::WhoAmI),
            20 => Ok(GetInfoRequest::RandomnessBin),
            21 => Ok(GetInfoRequest::IdleTsc),
            23 => Ok(GetInfoRequest::CpuInfo),
            24 => Ok(GetInfoRequest::Regs),
            25 => Ok(GetInfoRequest::CpuTicks),
            _ => Err(()),
        }
    }

    /// The wire value.
    pub fn code(self) -> (r: i32)
        ensures
            r == getinfo_code(self),
    {
        match self {
            GetInfoRequest::KInfo => 0,
            GetInfoRequest::Image => 1,
            GetInfoRequest::ProcTab => 2,
            GetInfoRequest::Randomness => 3,
            GetInfoRequest::MonParams => 4,
            GetInfoRequest::IrqHooks => 6,
            GetInfoRequest::PrivTab => 8,
            GetInfoRequest::Proc => 11,
            GetInfoRequest::Machine => 12,
            GetInfoRequest::LoadInfo => 15,
            GetInfoRequest::IrqActids => 16,
            GetInfoRequest::Priv => 17,
            GetInfoRequest::Hz => 18,
            GetInfoRequest::WhoAmI => 19,
            GetInfoRequest::RandomnessBin => 20,
            GetInfoRequest::IdleTsc => 21,
            GetInfoRequest::CpuInfo => 23,
            GetInfoRequest::Regs => 24,
            GetInfoRequest::CpuTicks => 25,
        }
    }
}

/// Decoding a request's wire value gives the request back: the value is
/// one the kernel handles, and no other request has it.
pub proof fn law_getinfo_code_round_trip(q: GetInfoRequest, p: GetInfoRequest)
    ensures
        is_getinfo_code(getinfo_code(q)),
        getinfo_code(p) == getinfo_code(q) ==> p == q,
{
}

/// What a trace request asks for.
#[derive(Debug, Clone, Copy, PartialEq, Eq, Structural)]
pub enum TraceRequest {
    /// Stop the process.
    Stop,
    /// Read a word of instruction space.
    GetIns,
    /// Read a word of data space.
    GetData,
    /// Write a word of instruction space.
    SetIns,
    /// Write a word of data space.
    SetData,
    /// Resume the process.
    Resume,
    /// Detach the tracer.
    Detach,
    /// Trace system calls.
    Syscall,
    /// Read a byte of instruction space.
    ReadBIns,
    /// Write a byte of instruction space.
    WriteBIns,
    /// Read a word of the process's kernel records.
    GetUser,
    /// Write a user register.
    SetUser,
    /// Single-step.
    Step,
}

/// The wire value of trace request `q`.
pub open spec fn trace_code(q: TraceRequest) -> i32 {
    match q {
        TraceRequest::Stop => -1i32,
        TraceRequest::GetIns => 1,
        TraceRequest::GetData => 2,
        TraceRequest::SetIns => 4,
        TraceRequest::SetData => 5,
        TraceRequest::Resume => 7,
        TraceRequest::Detach => 10,
        TraceRequest::Syscall => 14,
        TraceRequest::ReadBIns => 100,
        TraceRequest::WriteBIns => 101,
        TraceRequest::GetUser => 102,
        TraceRequest::SetUser => 103,
        TraceRequest::Step => 104,
    }
}

/// `v` is the wire value of a trace request the kernel handles.
pub open spec fn is_trace_code(v: i32) -> bool {
    ||| v == -1i32
    ||| 1 <= v <= 2
    ||| 4 <= v <= 5
    ||| v == 7
    ||| v == 10
    ||| v == 14
    ||| 100 <= v <= 104
}

impl TraceRequest {
    /// The request with wire value `v`, for a `v` the kernel handles.
    pub open spec fn try_from_spec(v: i32) -> TraceRequest {
        if v == -1i32 {
            TraceRequest::Stop
        } else if v == 1 {
            TraceRequest::GetIns
        } else if v == 2 {
            TraceRequest::GetData
        } else if v == 4 {
            TraceRequest::SetIns
        } else if v == 5 {
            TraceRequest::SetData
        } else if v == 7 {
            TraceRequest::Resume
        } else if v == 10 {
            TraceRequest::Detach
        } else if v == 14 {
            TraceRequest::Syscall
        } else if v == 100 {
            TraceRequest::ReadBIns
        } else if v == 101 {
            TraceRequest::WriteBIns
        } else if v == 102 {
            TraceRequest::GetUser
        } else if v == 103 {
            TraceRequest::SetUser
        } else {
            TraceRequest::Step
        }
    }

    /// Decoding agrees with `try_from_spec`.
    pub proof fn lemma_try_from_spec(v: i32)
        requires
            is_trace_code(v),
        ensures
            trace_code(TraceRequest::try_from_spec(v)) == v,
    {
    }

    /// Decoding a trace request's wire value gives the request back.
    pub proof fn law_trace_code_round_trip(q: TraceRequest)
        ensures
            is_trace_code(trace_code(q)),
            TraceRequest::try_from_spec(trace_code(q)) == q,
    {
    }

    /// Decode a wire value; requests the kernel does not handle are
    /// refused.
    pub fn try_from(value: i32) -> (r: Result<TraceRequest, ()>)
        ensures
            r is Ok <==> is_trace_code(value),
            r is Ok ==> trace_code(r->Ok_0) == value,
    {
        match value {
            -1 => Ok(TraceRequest::Stop),
            1 => Ok(TraceRequest::GetIns),
            2 => Ok(TraceRequest::GetData),
            4 => Ok(TraceRequest::SetIns),
            5 => Ok(TraceRequest::SetData),
            7 => Ok(TraceRequest::Resume),
            10 => Ok(TraceRequest::Detach),
            14 => Ok(TraceRequest::Syscall),
            100 => Ok(TraceRequest::ReadBIns),
            101 => Ok(TraceRequest::WriteBIns),
            102 => Ok(TraceRequest::GetUser),
            103 => Ok(TraceRequest::SetUser),
            104 => Ok(TraceRequest::Step),
            _ => Err(()),
        }
    }
}

/// A profiling command.
#[derive(Debug, Clone, Copy, PartialEq, Eq, Structural)]
pub enum ProfAction {
    /// Start profiling (wire value 0).
    Start,
    /// Stop profiling (wire value 1).
    Stop,
}

impl ProfAction {
    /// Decode a wire value.
    pub fn try_from(value: i32) -> (r: Result<ProfAction, ()>)
        ensures
            r == (if value == 0 {
                Ok(ProfAction::Start)
            } else if value == 1 {
                Ok(ProfAction::Stop)
            } else {
                Err(())
            }),
    {
        match value {
            0 => Ok(ProfAction::Start),
            1 => Ok(ProfAction::Stop),
            _ => Err(()),
        }
    }
}

/// The interrupt that drives profiling.
#[derive(Debug, Clone, Copy, PartialEq, Eq, Structural)]
pub enum ProfIntrType {
    /// The real-time clock (wire value 0).
    Rtc,
    /// The non-maskable interrupt (wire value 1).
    Nmi,
}

impl ProfIntrType {
    /// Decode a wire value.
    pub fn try_from(value: i32) -> (r: Result<ProfIntrType, ()>)
        ensures
            r == (if value == 0 {
                Ok(ProfIntrType::Rtc)
            } else if value == 1 {
                Ok(ProfIntrType::Nmi)
            } else {
                Err(())
            }),
    {
        match value {
            0 => Ok(ProfIntrType::Rtc),
            1 => Ok(ProfIntrType::Nmi),
            _ => Err(()),
        }
    }
}

/// A process may take part in a live update: it holds no kernel
/// privilege (`NO_PRIV`), has a signal pending, or waits to receive
/// without sending.
pub open spec fn updatable_bits(f: u32) -> bool {
    f & rts::NO_PRIV != 0 || f & rts::SIG_PENDING != 0 || (f & rts::RECEIVING != 0 && f & rts::SENDING == 0)
}

/// Whether process `p` is quiet enough for a live update.
pub fn proc_is_updatable(p: &KProcess) -> (r: bool)
    ensures
        r == updatable_bits(p.p_rts_flags@),
{
    let flags = &p.p_rts_flags;
    if flags.is_set(rts::NO_PRIV) || flags.is_set(rts::SIG_PENDING) {
        return true;
    }
    if flags.is_set(rts::RECEIVING) && !flags.is_set(rts::SENDING) {
        return true;
    }
    false
}

/// Which processes a live update may touch, by their runtime flags `f`:
/// one without kernel privilege or with a signal pending may always be
/// updated; otherwise one waiting to receive (and not sending) may be,
/// while one blocked in a send-and-receive, one only sending and one
/// that is not receiving at all may not.
pub proof fn law_updatable_by_flags(f: u32)
    ensures
        f & rts::NO_PRIV != 0 ==> updatable_bits(f),
        f & rts::SIG_PENDING != 0 ==> updatable_bits(f),
        f & rts::RECEIVING != 0 && f & rts::SENDING == 0 ==> updatable_bits(f),
        f & rts::NO_PRIV == 0 && f & rts::SIG_PENDING == 0 && f & rts::RECEIVING != 0 && f & rts::SENDING != 0
            ==> !updatable_bits(f),
        f & rts::NO_PRIV == 0 && f & rts::SIG_PENDING == 0 && f & rts::RECEIVING == 0 ==> !updatable_bits(f),
{
}

/// An updatable process is not runnable, so it is in no ready queue.
pub proof fn law_updatable_is_not_runnable(f: u32)
    requires
        updatable_bits(f),
    ensures
        f != 0,
{
    assert(f & 0x80u32 != 0 || f & 0x20u32 != 0 || f & 0x8u32 != 0 ==> f != 0) by (bit_vector);
}

/// `r` is the record of process `p`.
pub open spec fn proc_info_of(r: ProcInfoStruct, p: KProcess) -> bool {
    &&& r.p_nr == p.p_nr.0
    &&& r.p_endpoint == p.p_endpoint.0
    &&& r.p_rts_flags == p.p_rts_flags@
    &&& r.p_misc_flags == p.p_misc_flags@
    &&& r.p_priority == p.p_sched.priority as i8
    &&& r.p_cpu == p.p_sched.cpu
    &&& r.p_quantum_size_ms == p.p_sched.quantum.size_ms
    &&& r.p_cpu_time_left == p.p_sched.quantum.cpu_time_left
    &&& r.p_user_time == p.p_time.user_time
    &&& r.p_sys_time == p.p_time.sys_time
    &&& r.p_cycles == p.p_cycles.total
    &&& r.p_pending == p.p_pending@
    &&& r.p_getfrom_e == p.p_getfrom_e.0
    &&& r.p_sendto_e == p.p_sendto_e.0
    &&& r.p_name@ == p.p_name@
    &&& r.p_priv_id == (match p.priv_id { Some(id) => id as i32, None => -1i32 })
    &&& r._padding@ == seq![0u8, 0u8, 0u8, 0u8]
}

/// A process record reports the process it was made from: its number,
/// endpoint, flags, scheduling state, user time and system time (each in
/// its own field), cycle count, pending signals, IPC partners, name and
/// privilege slot.
pub proof fn law_proc_record_reports_process(r: ProcInfoStruct, p: KProcess)
    requires
        proc_info_of(r, p),
    ensures
        r.p_user_time == p.p_time.user_time,
        r.p_sys_time == p.p_time.sys_time,
        r.p_cycles == p.p_cycles.total,
        r.p_nr == p.p_nr.0,
        r.p_endpoint == p.p_endpoint.0,
        r.p_rts_flags == p.p_rts_flags@,
        r.p_misc_flags == p.p_misc_flags@,
        r.p_priority == p.p_sched.priority as i8,
        r.p_cpu == p.p_sched.cpu,
        r.p_quantum_size_ms == p.p_sched.quantum.size_ms,
        r.p_cpu_time_left == p.p_sched.quantum.cpu_time_left,
        r.p_pending == p.p_pending@,
        r.p_getfrom_e == p.p_getfrom_e.0,
        r.p_sendto_e == p.p_sendto_e.0,
        r.p_name@ == p.p_name@,
        p.priv_id.is_some() ==> r.p_priv_id == p.priv_id.unwrap() as i32,
        p.priv_id.is_none() ==> r.p_priv_id == -1,
{
}

/// `r` is the record of no process: privilege slot `-1`, all else zero.
pub open spec fn proc_info_none(r: ProcInfoStruct) -> bool {
    &&& r.p_nr == 0 && r.p_endpoint == 0 && r.p_rts_flags == 0 && r.p_misc_flags == 0
    &&& r.p_priority == 0 && r.p_cpu == 0 && r.p_quantum_size_ms == 0 && r.p_cpu_time_left == 0
    &&& r.p_user_time == 0 && r.p_sys_time == 0 && r.p_cycles == 0 && r.p_pending == 0
    &&& r.p_getfrom_e == 0 && r.p_sendto_e == 0
    &&& r.p_name@ == Seq::new(16, |i: int| 0u8)
    &&& r.p_priv_id == -1
    &&& r._padding@ == seq![0u8, 0u8, 0u8, 0u8]
}

/// `r` is the record of privilege slot `p`: owner, index, flags, send
/// mask and the two low words of the kernel-call mask; the fields a slot
/// does not hold are zero.
pub open spec fn priv_info_of(r: PrivInfoStruct, p: Priv) -> bool {
    &&& r.s_proc_nr == p.s_proc_nr
    &&& r.s_id == p.s_id.0 as i32
    &&& r.s_flags == p.s_flags.0 as u32
    &&& r.s_trap_mask == 0
    &&& r.s_grant_entries == 0
    &&& r.s_sig_mgr == 0
    &&& r.s_notify_pending == p.s_notify_pending
    &&& r.s_sig_pending == p.s_sig_pending
    &&& r.s_ipc_to == p.s_ipc_to@
    &&& r.s_k_call_mask@ == seq![p.s_k_call_mask@ as u32, (p.s_k_call_mask@ >> 32u64) as u32]
}

/// A privilege record reports the slot it was made from: owner, index,
/// flags, pending notifications and pending signals (each in its own
/// field), the send mask and the low and high words of the kernel-call
/// mask.
pub proof fn law_priv_record_reports_slot(r: PrivInfoStruct, p: Priv)
    requires
        priv_info_of(r, p),
    ensures
        r.s_proc_nr == p.s_proc_nr,
        r.s_id == p.s_id.0 as i32,
        r.s_flags == p.s_flags.0 as u32,
        r.s_notify_pending == p.s_notify_pending,
        r.s_sig_pending == p.s_sig_pending,
        r.s_ipc_to == p.s_ipc_to@,
        r.s_k_call_mask[0] == p.s_k_call_mask@ as u32,
        r.s_k_call_mask[1] == (p.s_k_call_mask@ >> 32u64) as u32,
{
}

/// `r` is the record of no privilege slot: owner `-1`, all else zero.
pub open spec fn priv_info_none(r: PrivInfoStruct) -> bool {
    &&& r.s_proc_nr == -1 && r.s_id == 0 && r.s_flags == 0 && r.s_trap_mask == 0
    &&& r.s_grant_entries == 0 && r.s_sig_mgr == 0 && r.s_notify_pending == 0
    &&& r.s_sig_pending == 0 && r.s_ipc_to == 0
    &&& r.s_k_call_mask@ == seq![0u32, 0u32]
}

/// The user-visible part of a process slot, as information queries and
/// the tracer see it.
#[derive(Debug, Clone, Copy, PartialEq, Eq)]
pub struct ProcInfoStruct {
    pub p_nr: i32,
    pub p_endpoint: i32,
    pub p_rts_flags: u32,
    pub p_misc_flags: u32,
    pub p_priority: i8,
    pub p_cpu: u32,
    pub p_quantum_size_ms: u32,
    pub p_cpu_time_left: u64,
    pub p_user_time: u64,
    pub p_sys_time: u64,
    pub p_cycles: u64,
    pub p_pending: u64,
    pub p_getfrom_e: i32,
    pub p_sendto_e: i32,
    pub p_name: [u8; 16],
    /// Privilege slot, -1 for none.
    pub p_priv_id: i32,
    pub _padding: [u8; 4],
}

impl ProcInfoStruct {
    /// The record of process `p`.
    pub fn from_kprocess(p: &KProcess) -> (r: ProcInfoStruct)
        ensures
            proc_info_of(r, *p),
    {
        let name = p.p_name.as_bytes();
        let r = ProcInfoStruct {
            p_nr: p.p_nr.0,
            p_endpoint: p.p_endpoint.0,
            p_rts_flags: p.p_rts_flags.load(),
            p_misc_flags: p.p_misc_flags.load(),
            p_priority: p.p_sched.priority as i8,
            p_cpu: p.p_sched.cpu,
            p_quantum_size_ms: p.p_sched.quantum.size_ms,
            p_cpu_time_left: p.p_sched.quantum.cpu_time_left,
            p_user_time: p.p_time.user_time,
            p_sys_time: p.p_time.sys_time,
            p_cycles: p.p_cycles.total,
            p_pending: p.p_pending.get(),
            p_getfrom_e: p.p_getfrom_e.0,
            p_sendto_e: p.p_sendto_e.0,
            p_name: *name,
            p_priv_id: match p.priv_id {
                Some(id) => id as i32,
                None => -1,
            },
            _padding: [0u8; 4],
        };
        assert(r._padding@ =~= seq![0u8, 0u8, 0u8, 0u8]);
        r
    }
}

impl Default for ProcInfoStruct {
    fn default() -> (r: ProcInfoStruct)
        ensures
            proc_info_none(r),
    {
        let r = ProcInfoStruct {
            p_nr: 0,
            p_endpoint: 0,
            p_rts_flags: 0,
            p_misc_flags: 0,
            p_priority: 0,
            p_cpu: 0,
            p_quantum_size_ms: 0,
            p_cpu_time_left: 0,
            p_user_time: 0,
            p_sys_time: 0,
            p_cycles: 0,
            p_pending: 0,
            p_getfrom_e: 0,
            p_sendto_e: 0,
            p_name: [0u8; 16],
            p_priv_id: -1,
            _padding: [0u8; 4],
        };
        assert(r._padding@ =~= seq![0u8, 0u8, 0u8, 0u8]);
        assert(r.p_name@ =~= Seq::new(16, |i: int| 0u8));
        r
    }
}

/// Number of kernel-call mask words in a privilege record.
pub const SYS_CALL_MASK_SIZE: usize = 2;

/// The user-visible part of a privilege slot.
#[derive(Debug, Clone, Copy, PartialEq, Eq)]
pub struct PrivInfoStruct {
    pub s_proc_nr: i32,
    pub s_id: i32,
    pub s_flags: u32,
    pub s_trap_mask: u32,
    pub s_grant_entries: i32,
    pub s_sig_mgr: i32,
    pub s_notify_pending: u64,
    pub s_sig_pending: u64,
    pub s_ipc_to: u64,
    pub s_k_call_mask: [u32; 2],
}

impl PrivInfoStruct {
    /// The record of privilege slot `p`: owner, index, flags, send mask
    /// and the two low words of the kernel-call mask; the fields a slot
    /// does not hold are zero.
    pub fn from_priv(p: &Priv) -> (r: PrivInfoStruct)
        ensures
            priv_info_of(r, *p),
    {
        let m = p.s_k_call_mask.bits;
        let r = PrivInfoStruct {
            s_proc_nr: p.s_proc_nr,
            s_id: p.s_id.0 as i32,
            s_flags: p.s_flags.0 as u32,
            s_trap_mask: 0,
            s_grant_entries: 0,
            s_sig_mgr: 0,
            s_notify_pending: p.s_notify_pending,
            s_sig_pending: p.s_sig_pending,
            s_ipc_to: p.s_ipc_to.bits,
            s_k_call_mask: [m as u32, (m >> 32u64) as u32],
        };
        assert(r.s_k_call_mask@ =~= seq![p.s_k_call_mask@ as u32, (p.s_k_call_mask@ >> 32u64) as u32]);
        r
    }
}

impl Default for PrivInfoStruct {
    fn default() -> (r: PrivInfoStruct)
        ensures
            priv_info_none(r),
    {
        let r = PrivInfoStruct {
            s_proc_nr: -1,
            s_id: 0,
            s_flags: 0,
            s_trap_mask: 0,
            s_grant_entries: 0,
            s_sig_mgr: 0,
            s_notify_pending: 0,
            s_sig_pending: 0,
            s_ipc_to: 0,
            s_k_call_mask: [0u32, 0u32],
        };
        assert(r.s_k_call_mask@ =~= seq![0u32, 0u32]);
        r
    }
}

/// What the caller of `dispatch_trace` does after the checks and the flag
/// changes; the call then answers `OK`, or `EFAULT` when a copy or a
/// register write fails.
#[derive(Debug, Clone, Copy, PartialEq, Eq, Structural)]
pub enum TraceAction {
    /// Nothing more; `Some(v)` is reply data to write.
    Reply(Option<i64>),
    /// Read `len` bytes at `addr` of the address space of `endpoint`; they
    /// are the reply data.
    CopyFromProc { endpoint: Endpoint, addr: u64, len: usize },
    /// Write the `len` low bytes of `value` at `addr` of the address space
    /// of `endpoint`; the reply data is 0.
    CopyToProc { endpoint: Endpoint, addr: u64, value: u64, len: usize },
    /// The reply data is the word at byte `offset` of the process record
    /// of `target`.
    ReadProcWord { target: ProcNr, offset: u64 },
    /// The reply data is the word at byte `offset` of the privilege record
    /// of `target`.
    ReadPrivWord { target: ProcNr, offset: u64 },
    /// Write `value` to the user register at byte `offset` of `target`'s
    /// saved context; the reply data is 0.
    WriteUserReg { target: ProcNr, offset: u64, value: u64 },
}

/// `x` rounded up to a multiple of 8.
pub open spec fn round_up_word(x: int) -> int {
    if x % 8 == 0 { x } else { x + 8 - x % 8 }
}

/// The result of trace request `req` on process `t` (endpoint `ep`) once
/// the request and target are accepted. Word reads and register writes
/// need an 8-byte aligned address; a word read past the process record
/// (of `proc_size` bytes) reads the privilege record (of `priv_size`
/// bytes), which starts at the next multiple of 8, and past that fails
/// with `EFAULT`.
pub open spec fn trace_result(req: TraceRequest, t: ProcNr, ep: Endpoint, tr_addr: u64, tr_data: i64, proc_size: u64, priv_size: u64) -> Result<TraceAction, i32> {
    match req {
        TraceRequest::Stop => Ok(TraceAction::Reply(None)),
        TraceRequest::Detach | TraceRequest::Resume | TraceRequest::Step | TraceRequest::Syscall => Ok(TraceAction::Reply(Some(0))),
        TraceRequest::GetIns | TraceRequest::GetData => Ok(TraceAction::CopyFromProc { endpoint: ep, addr: tr_addr, len: 8 }),
        TraceRequest::SetIns | TraceRequest::SetData => Ok(TraceAction::CopyToProc { endpoint: ep, addr: tr_addr, value: tr_data as u64, len: 8 }),
        TraceRequest::ReadBIns => Ok(TraceAction::CopyFromProc { endpoint: ep, addr: tr_addr, len: 1 }),
        TraceRequest::WriteBIns => Ok(TraceAction::CopyToProc { endpoint: ep, addr: tr_addr, value: (tr_data as u8) as u64, len: 1 }),
        TraceRequest::GetUser => if tr_addr % 8 != 0 {
            Err(EFAULT)
        } else if tr_addr + 8 <= proc_size {
            Ok(TraceAction::ReadProcWord { target: t, offset: tr_addr })
        } else if tr_addr < round_up_word(proc_size as int) || tr_addr - round_up_word(proc_size as int) + 8 > priv_size {
            Err(EFAULT)
        } else {
            Ok(TraceAction::ReadPrivWord { target: t, offset: (tr_addr - round_up_word(proc_size as int)) as u64 })
        },
        TraceRequest::SetUser => if tr_addr % 8 != 0 {
            Err(EFAULT)
        } else {
            Ok(TraceAction::WriteUserReg { target: t, offset: tr_addr, value: tr_data as u64 })
        },
    }
}

/// The runtime flags of the target after request `req`: a stop sets
/// `PROC_STOP`, a resume, detach, step or system-call trace clears it.
pub open spec fn trace_rts_after(req: TraceRequest, f: u32) -> u32 {
    match req {
        TraceRequest::Stop => f | rts::PROC_STOP,
        TraceRequest::Detach | TraceRequest::Resume | TraceRequest::Step | TraceRequest::Syscall => f & !rts::PROC_STOP,
        _ => f,
    }
}

/// The miscellaneous flags of the target after request `req`: a stop
/// clears `SC_TRACE` and `STEP`, a detach clears `SC_ACTIVE`, a step sets
/// `STEP`, a system-call trace sets `SC_TRACE`.
pub open spec fn trace_misc_after(req: TraceRequest, m: u32) -> u32 {
    match req {
        TraceRequest::Stop => m & !(mf::SC_TRACE | mf::STEP),
        TraceRequest::Detach => m & !mf::SC_ACTIVE,
        TraceRequest::Step => m | mf::STEP,
        TraceRequest::Syscall => m | mf::SC_TRACE,
        _ => m,
    }
}

/// The ready queues after request `req` on `t`: a stop takes a runnable
/// target out of its queue, a request that clears `PROC_STOP` and leaves
/// no flag puts the target at the end of its queue.
pub open spec fn trace_queues_after(req: TraceRequest, pt: ProcessTable, t: ProcNr) -> Seq<Seq<ProcNr>> {
    let f = pt.slot(t).p_rts_flags@;
    match req {
        TraceRequest::Stop => queues_after_rts_set(pt.queues(), pt.slot(t), t, rts::PROC_STOP),
        TraceRequest::Detach | TraceRequest::Resume | TraceRequest::Step | TraceRequest::Syscall =>
            if f != 0 && f & !rts::PROC_STOP == 0 {
                queues_enqueued(pt.queues(), effective_priority(pt.slot(t).p_sched.priority) as int, t)
            } else {
                pt.queues()
            },
        _ => pt.queues(),
    }
}

/// The accounting of the target after request `req`: a stop that takes
/// it out of its queue counts a dequeue, a request that makes it runnable
/// counts an enqueue.
pub open spec fn trace_acct_after(req: TraceRequest, pt: ProcessTable, t: ProcNr) -> Accounting {
    let p = pt.slot(t);
    let f = p.p_rts_flags@;
    match req {
        TraceRequest::Stop => if rts_set_dequeues(pt, t, rts::PROC_STOP) {
            acct_after_dequeue(p.p_accounting, pt.clock_spec().tsc)
        } else {
            p.p_accounting
        },
        TraceRequest::Detach | TraceRequest::Resume | TraceRequest::Step | TraceRequest::Syscall =>
            if f != 0 && f & !rts::PROC_STOP == 0 {
                acct_after_enqueue(p.p_accounting, pt.clock_spec().tsc)
            } else {
                p.p_accounting
            },
        _ => p.p_accounting,
    }
}

/// The dequeue time of the target after request `req`: the current
/// uptime when a stop takes it out of its queue.
pub open spec fn trace_dequeued_after(req: TraceRequest, pt: ProcessTable, t: ProcNr) -> u64 {
    if req == TraceRequest::Stop && rts_set_dequeues(pt, t, rts::PROC_STOP) {
        pt.clock_spec().uptime
    } else {
        pt.slot(t).p_dequeued
    }
}

/// Handle a trace request: decode it (`EINVAL` when unknown), find the
/// target by endpoint (`EINVAL` when no occupied slot has it), refuse a
/// kernel task (`EPERM`), then act. Stop, resume, detach, step and
/// system-call trace change the target's flags here; the other requests
/// are handed back as a `TraceAction` for the caller to carry out.
pub fn dispatch_trace(pt: &mut ProcessTable, request: i32, endpt: i32, tr_addr: u64, tr_data: i64, proc_size: u64, priv_size: u64) -> (r: Result<TraceAction, i32>)
    requires
        old(pt).wf(),
    ensures
        final(pt).wf(),
        ({
            let lookup = endpoint_lookup(old(pt).slots(), Endpoint(endpt));
            let t = lookup.unwrap();
            if !is_trace_code(request) || lookup.is_none() || t.0 < 0 {
                &&& r == Err::<TraceAction, i32>(if !is_trace_code(request) || lookup.is_none() { EINVAL } else { EPERM })
                &&& final(pt).slots() == old(pt).slots()
                &&& final(pt).queues() == old(pt).queues()
            } else {
                let req = TraceRequest::try_from_spec(request);
                &&& r == trace_result(req, t, Endpoint(endpt), tr_addr, tr_data, proc_size, priv_size)
                &&& (valid_nr(t) ==> final(pt).slot(t).p_rts_flags@ == trace_rts_after(req, old(pt).slot(t).p_rts_flags@))
                &&& (valid_nr(t) ==> final(pt).slot(t).p_misc_flags@ == trace_misc_after(req, old(pt).slot(t).p_misc_flags@))
                &&& final(pt).queues() == (if valid_nr(t) { trace_queues_after(req, *old(pt), t) } else { old(pt).queues() })
                &&& (valid_nr(t) ==> final(pt).slot(t) == (KProcess {
                    p_rts_flags: final(pt).slot(t).p_rts_flags,
                    p_misc_flags: final(pt).slot(t).p_misc_flags,
                    p_accounting: trace_acct_after(req, *old(pt), t),
                    p_dequeued: trace_dequeued_after(req, *old(pt), t),
                    p_nextready: final(pt).slot(t).p_nextready,
                    ..old(pt).slot(t)
                }))
                &&& forall|i: int| 0 <= i < 261 && !(valid_nr(t) && i == nr_index(t))
                    ==> same_but_link(#[trigger] final(pt).slots()[i], old(pt).slots()[i])
            }
        }),
{
    let req = match TraceRequest::try_from(request) {
        Ok(q) => q,
        Err(()) => return Err(EINVAL),
    };
    proof {
        TraceRequest::lemma_try_from_spec(request);
    }
    let target_ep = Endpoint(endpt);
    let t = match pt.endpoint_to_nr(target_ep) {
        Some(nr) => nr,
        None => return Err(EINVAL),
    };
    if ProcessTable::is_kernel(t) {
        return Err(EPERM);
    }
    match req {
        TraceRequest::Stop => {
            pt.rts_set(t, rts::PROC_STOP);
            pt.misc_unset(t, mf::SC_TRACE | mf::STEP);
            Ok(TraceAction::Reply(None))
        },
        TraceRequest::Detach => {
            pt.misc_unset(t, mf::SC_ACTIVE);
            pt.rts_unset(t, rts::PROC_STOP);
            Ok(TraceAction::Reply(Some(0)))
        },
        TraceRequest::Resume => {
            pt.rts_unset(t, rts::PROC_STOP);
            Ok(TraceAction::Reply(Some(0)))
        },
        TraceRequest::Step => {
            pt.misc_set(t, mf::STEP);
            pt.rts_unset(t, rts::PROC_STOP);
            Ok(TraceAction::Reply(Some(0)))
        },
        TraceRequest::Syscall => {
            pt.misc_set(t, mf::SC_TRACE);
            pt.rts_unset(t, rts::PROC_STOP);
            Ok(TraceAction::Reply(Some(0)))
        },
        TraceRequest::GetIns | TraceRequest::GetData => Ok(TraceAction::CopyFromProc { endpoint: target_ep, addr: tr_addr, len: 8 }),
        TraceRequest::SetIns | TraceRequest::SetData => Ok(TraceAction::CopyToProc { endpoint: target_ep, addr: tr_addr, value: tr_data as u64, len: 8 }),
        TraceRequest::ReadBIns => Ok(TraceAction::CopyFromProc { endpoint: target_ep, addr: tr_addr, len: 1 }),
        TraceRequest::WriteBIns => Ok(TraceAction::CopyToProc { endpoint: target_ep, addr: tr_addr, value: (tr_data as u8) as u64, len: 1 }),
        TraceRequest::GetUser => {
            if tr_addr % 8 != 0 {
                return Err(EFAULT);
            }
            if proc_size >= 8 && tr_addr <= proc_size - 8 {
                Ok(TraceAction::ReadProcWord { target: t, offset: tr_addr })
            } else {
                let rem = proc_size % 8;
                let pad: u64 = if rem == 0 { 0 } else { 8 - rem };
                if pad > u64::MAX - proc_size {
                    return Err(EFAULT);
                }
                let priv_base = proc_size + pad;
                if tr_addr < priv_base {
                    return Err(EFAULT);
                }
                let priv_offset = tr_addr - priv_base;
                if priv_offset > priv_size || priv_size - priv_offset < 8 {
                    return Err(EFAULT);
                }
                Ok(TraceAction::ReadPrivWord { target: t, offset: priv_offset })
            }
        },
        TraceRequest::SetUser => {
            if tr_addr % 8 != 0 {
                return Err(EFAULT);
            }
            Ok(TraceAction::WriteUserReg { target: t, offset: tr_addr, value: tr_data as u64 })
        },
    }
}

/// Flag of an update request: abort a send in progress of the source.
pub const SYS_UPD_ROLLBACK: i32 = 0x01;

/// Process `nr` of slots `slots` is a system process according to
/// privilege slots `privs`.
pub open spec fn is_sys_nr(slots: Seq<KProcess>, privs: Seq<Priv>, nr: ProcNr) -> bool {
    let p = slots[nr.0 + 5];
    &&& valid_nr(nr)
    &&& p.priv_id.is_some()
    &&& p.priv_id.unwrap() < NR_SYS_PROCS
    &&& privs[p.priv_id.unwrap() as int].s_flags.0 & PrivFlags::SYS_PROC != 0
}

/// The status of an update of `src_e` by `dst_e`: `EINVAL` for an unknown
/// endpoint, `EPERM` for a process that is not a system process, `EINVAL`
/// when both are the same process, `EBUSY` when one of them is not quiet
/// enough, `OK` otherwise.
pub open spec fn update_status(slots: Seq<KProcess>, privs: Seq<Priv>, src_e: i32, dst_e: i32) -> i32 {
    let s = endpoint_lookup(slots, Endpoint(src_e));
    let d = endpoint_lookup(slots, Endpoint(dst_e));
    if s.is_none() {
        EINVAL
    } else if !is_sys_nr(slots, privs, s.unwrap()) {
        EPERM
    } else if d.is_none() {
        EINVAL
    } else if !is_sys_nr(slots, privs, d.unwrap()) {
        EPERM
    } else if s.unwrap() == d.unwrap() {
        EINVAL
    } else if !updatable_bits(slots[s.unwrap().0 + 5].p_rts_flags@) || !updatable_bits(slots[d.unwrap().0 + 5].p_rts_flags@) {
        EBUSY
    } else {
        OK
    }
}

/// A live update whose source is blocked in a send-and-receive (sending
/// and receiving, with kernel privilege and no signal pending) is refused
/// with `EBUSY` once both endpoints name distinct system processes; so is
/// one whose destination is.
pub proof fn law_update_refuses_process_in_sendrec(slots: Seq<KProcess>, privs: Seq<Priv>, src_e: i32, dst_e: i32, busy: ProcNr)
    requires
        endpoint_lookup(slots, Endpoint(src_e)).is_some(),
        endpoint_lookup(slots, Endpoint(dst_e)).is_some(),
        is_sys_nr(slots, privs, endpoint_lookup(slots, Endpoint(src_e)).unwrap()),
        is_sys_nr(slots, privs, endpoint_lookup(slots, Endpoint(dst_e)).unwrap()),
        endpoint_lookup(slots, Endpoint(src_e)).unwrap() != endpoint_lookup(slots, Endpoint(dst_e)).unwrap(),
        busy == endpoint_lookup(slots, Endpoint(src_e)).unwrap() || busy == endpoint_lookup(slots, Endpoint(dst_e)).unwrap(),
        slots[busy.0 + 5].p_rts_flags@ & rts::SENDING != 0,
        slots[busy.0 + 5].p_rts_flags@ & rts::RECEIVING != 0,
        slots[busy.0 + 5].p_rts_flags@ & rts::NO_PRIV == 0,
        slots[busy.0 + 5].p_rts_flags@ & rts::SIG_PENDING == 0,
    ensures
        update_status(slots, privs, src_e, dst_e) == EBUSY,
{
    law_updatable_by_flags(slots[busy.0 + 5].p_rts_flags@);
}

/// Whether the update aborts a send of the source: the rollback flag is
/// given and the source is sending.
pub open spec fn update_rolls_back(src: KProcess, flags: i32) -> bool {
    flags & SYS_UPD_ROLLBACK != 0 && src.p_rts_flags@ & rts::SENDING != 0
}

/// Live update: the destination system process takes over from the
/// source. After the checks of `update_status`, the destination's
/// privilege slot gains the source's send permissions, a send in progress
/// of the source is aborted when `flags` asks for it (its sending flags
/// cleared, and the source taken out of the sender queue of the process
/// it was sending to), and the two process slots and the two privilege
/// slots exchange their contents, each slot keeping its identity (a
/// process slot keeps its own sender queue).
pub fn dispatch_update(pt: &mut ProcessTable, privs: &mut PrivTable, src_e: i32, dst_e: i32, flags: i32) -> (r: i32)
    requires
        old(pt).wf(),
        old(privs).wf(),
    ensures
        final(pt).wf(),
        final(privs).wf(),
        r == update_status(old(pt).slots(), old(privs).slots_spec(), src_e, dst_e),
        r != OK ==> final(pt).slots() == old(pt).slots() && final(privs).slots_spec() == old(privs).slots_spec(),
        final(pt).queues() == old(pt).queues(),
        r == OK ==> ({
            let s = endpoint_lookup(old(pt).slots(), Endpoint(src_e)).unwrap();
            let d = endpoint_lookup(old(pt).slots(), Endpoint(dst_e)).unwrap();
            let os = old(pt).slot(s);
            let od = old(pt).slot(d);
            let ps = os.priv_id.unwrap();
            let pd = od.priv_id.unwrap();
            let si = nr_index(s);
            let di = nr_index(d);
            let fs = final(pt).slot(s);
            let fd = final(pt).slot(d);
            let rb = update_rolls_back(os, flags);
            let t = endpoint_lookup(old(pt).slots().update(si, KProcess {
                p_rts_flags: fd.p_rts_flags,
                p_misc_flags: fd.p_misc_flags,
                ..os
            }), os.p_sendto_e);
            let hit = rb && t.is_some() && valid_nr(t.unwrap());
            let old_privs = old(privs).slots_spec();
            let inherited = old_privs.update(pd as int, Priv {
                s_ipc_to: Bitmap { bits: old_privs[pd as int].s_ipc_to@ | old_privs[ps as int].s_ipc_to@ },
                ..old_privs[pd as int]
            });
            &&& fs == (KProcess { caller_q: fs.caller_q, ..with_identity(od, os) })
            &&& fs.caller_q@ == (if hit && t.unwrap() == s { without_sender(os.caller_q@, s) } else { os.caller_q@ })
            &&& fd == (KProcess { caller_q: fd.caller_q, ..with_identity(KProcess { p_rts_flags: fd.p_rts_flags, p_misc_flags: fd.p_misc_flags, ..os }, od) })
            &&& fd.caller_q@ == (if hit && t.unwrap() == d { without_sender(od.caller_q@, s) } else { od.caller_q@ })
            &&& fd.p_rts_flags@ == (if rb { os.p_rts_flags@ & !rts::SENDING } else { os.p_rts_flags@ })
            &&& fd.p_misc_flags@ == (if rb { os.p_misc_flags@ & !mf::SENDING_FROM_KERNEL } else { os.p_misc_flags@ })
            &&& forall|i: int| 0 <= i < 261 && i != si && i != di ==> if hit && i == nr_index(t.unwrap()) {
                &&& #[trigger] final(pt).slots()[i] == (KProcess { caller_q: final(pt).slots()[i].caller_q, ..old(pt).slots()[i] })
                &&& final(pt).slots()[i].caller_q@ == without_sender(old(pt).slots()[i].caller_q@, s)
            } else {
                final(pt).slots()[i] == old(pt).slots()[i]
            }
            &&& final(privs).slots_spec() == (if ps != pd {
                inherited.update(ps as int, priv_with_identity(inherited[pd as int], inherited[ps as int], s.0))
                    .update(pd as int, priv_with_identity(inherited[ps as int], inherited[pd as int], d.0))
            } else {
                inherited.update(pd as int, Priv { s_proc_nr: d.0, ..inherited[pd as int] })
            })
        }),
{
    let s = match pt.endpoint_to_nr(Endpoint(src_e)) {
        Some(nr) => nr,
        None => return EINVAL,
    };
    let ps = match sys_priv_of(pt, privs, s) {
        Some(id) => id,
        None => return EPERM,
    };
    let d = match pt.endpoint_to_nr(Endpoint(dst_e)) {
        Some(nr) => nr,
        None => return EINVAL,
    };
    let pd = match sys_priv_of(pt, privs, d) {
        Some(id) => id,
        None => return EPERM,
    };
    if s.0 == d.0 {
        return EINVAL;
    }
    let si = (s.0 + 5) as usize;
    let di = (d.0 + 5) as usize;
    let src_ok = proc_is_updatable(pt.get(s).unwrap());
    let dst_ok = proc_is_updatable(pt.get(d).unwrap());
    if !src_ok || !dst_ok {
        return EBUSY;
    }
    proof {
        law_updatable_is_not_runnable(old(pt).slot(s).p_rts_flags@);
        law_updatable_is_not_runnable(old(pt).slot(d).p_rts_flags@);
    }
    privs.inherit_ipc_to(SysId(ps), SysId(pd));
    let sending = pt.get(s).unwrap().p_rts_flags.is_set(rts::SENDING);
    if flags & SYS_UPD_ROLLBACK != 0 && sending {
        proof {
            let f = old(pt).slot(s).p_rts_flags@;
            assert(updatable_bits(f) && f & 0x4u32 != 0 ==> f & !0x4u32 != 0) by (bit_vector);
        }
        pt.clear_flags_blocked(s, rts::SENDING, mf::SENDING_FROM_KERNEL);
        let sendto = pt.get(s).unwrap().p_sendto_e;
        match pt.endpoint_to_nr(sendto) {
            Some(t) => pt.remove_sender(t, s),
            None => {},
        }
    }
    pt.swap_for_update(s, d);
    if ps != pd {
        privs.swap_for_update(SysId(ps), SysId(pd), s.0, d.0);
    } else {
        match privs.get_mut(SysId(pd)) {
            Some(p) => {
                p.s_proc_nr = d.0;
            },
            None => {},
        }
    }
    OK
}

/// The privilege slot of system process `nr`, or `None` when `nr` names no
/// slot, has no privilege slot or is not a system process.
fn sys_priv_of(pt: &ProcessTable, privs: &PrivTable, nr: ProcNr) -> (r: Option<u8>)
    requires
        pt.wf(),
        privs.wf(),
    ensures
        r.is_some() == is_sys_nr(pt.slots(), privs.slots_spec(), nr),
        r.is_some() ==> r.unwrap() == pt.slot(nr).priv_id.unwrap(),
{
    let p = match pt.get(nr) {
        Some(p) => p,
        None => return None,
    };
    let id = match p.priv_id {
        Some(id) => id,
        None => return None,
    };
    match privs.get(SysId(id)) {
        Some(pv) => {
            if pv.is_sys_proc() {
                Some(id)
            } else {
                None
            }
        },
        None => None,
    }
}

/// Size of the profiling sample buffer.
pub const SAMPLE_BUFFER_SIZE: usize = 262144;

/// Bytes of a sample record: endpoint, four bytes of padding, program
/// counter.
pub const SPROF_SAMPLE_SIZE: usize = 16;

/// Bytes of a process record: endpoint and name.
pub const SPROF_PROC_SIZE: usize = 20;

/// Bytes of the profiling summary.
pub const SPROF_INFO_SIZE: usize = 20;

/// The profiling summary handed to the profiler when profiling stops.
#[derive(Debug, Clone, Copy, PartialEq, Eq, Structural, Default)]
pub struct SprofInfo {
    /// Bytes of the sample buffer in use, -1 once it is full.
    pub mem_used: i32,
    pub total_samples: i32,
    pub idle_samples: i32,
    pub system_samples: i32,
    pub user_samples: i32,
}

impl SprofInfo {
    /// All counters zero.
    pub fn zero() -> (r: SprofInfo)
        ensures
            r == (SprofInfo { mem_used: 0, total_samples: 0, idle_samples: 0, system_samples: 0, user_samples: 0 }),
    {
        SprofInfo { mem_used: 0, total_samples: 0, idle_samples: 0, system_samples: 0, user_samples: 0 }
    }
}

/// A sample: the sampled endpoint and its program counter.
#[derive(Debug, Clone, Copy, PartialEq, Eq, Structural)]
pub struct SprofSample {
    pub proc: i32,
    pub pc: u64,
}

/// A process record, written the first time a system process is sampled.
#[derive(Debug, Clone, Copy, PartialEq, Eq)]
pub struct SprofProc {
    pub proc: i32,
    pub name: [u8; 16],
}

/// Byte `k` (little-endian) of `x`.
pub open spec fn byte_of(x: u64, k: int) -> u8 {
    ((x >> ((8 * k) as u64)) & 0xff) as u8
}

/// The bytes of a sample record of endpoint `ep` at program counter `pc`.
pub open spec fn sample_bytes(ep: i32, pc: u64) -> Seq<u8> {
    Seq::new(4, |k: int| byte_of(ep as u32 as u64, k)) + seq![0u8, 0u8, 0u8, 0u8] + Seq::new(8, |k: int| byte_of(pc, k))
}

/// The bytes of a process record of endpoint `ep` with name `name`.
pub open spec fn proc_record_bytes(ep: i32, name: Seq<u8>) -> Seq<u8> {
    Seq::new(4, |k: int| byte_of(ep as u32 as u64, k)) + name
}

/// What the caller of `dispatch_profile` does next.
#[derive(Debug, Clone, Copy, PartialEq, Eq, Structural)]
pub enum ProfStep {
    /// The call is answered with this status.
    Reply(i32),
    /// Start the profiling clock at `freq` and report the outcome to
    /// `finish_start`.
    StartClock { freq: i32 },
    /// Stop the profiling clock, copy the summary to `info_addr` and the
    /// first `mem_used` bytes of the sample buffer to `data_addr` of
    /// `endpoint`.
    Stop { endpoint: i32, info_addr: u64, data_addr: u64, mem_used: i32 },
}

/// Statistical profiling: whether it runs, where its results go, its
/// counters and its sample buffer.
#[derive(Debug)]
pub struct SprofState {
    sprofiling: bool,
    ep: i32,
    info_addr: u64,
    data_addr: u64,
    mem_size: usize,
    info: SprofInfo,
    buffer: Vec<u8>,
}

impl SprofState {
    /// Whether profiling runs.
    pub closed spec fn running(&self) -> bool {
        self.sprofiling
    }

    /// The endpoint that receives the results.
    pub closed spec fn ep_spec(&self) -> i32 {
        self.ep
    }

    /// Where the summary goes.
    pub closed spec fn info_addr_spec(&self) -> u64 {
        self.info_addr
    }

    /// Where the samples go.
    pub closed spec fn data_addr_spec(&self) -> u64 {
        self.data_addr
    }

    /// Bytes of buffer the profiler provided, at most `SAMPLE_BUFFER_SIZE`.
    pub closed spec fn mem_size_spec(&self) -> usize {
        self.mem_size
    }

    /// The counters.
    pub closed spec fn info_spec(&self) -> SprofInfo {
        self.info
    }

    /// The sample buffer.
    pub closed spec fn buffer_spec(&self) -> Seq<u8> {
        self.buffer@
    }

    /// The buffer has its full size, the profiler's size fits in it, and
    /// the bytes in use are at most the buffer's size (or the buffer is
    /// marked full).
    pub open spec fn wf(&self) -> bool {
        &&& self.buffer_spec().len() == SAMPLE_BUFFER_SIZE
        &&& self.mem_size_spec() <= SAMPLE_BUFFER_SIZE
        &&& (self.info_spec().mem_used == -1 || 0 <= self.info_spec().mem_used <= SAMPLE_BUFFER_SIZE)
    }

    /// Not profiling, counters zero, buffer zeroed.
    pub fn new() -> (r: SprofState)
        ensures
            r.wf(),
            !r.running(),
            r.info_spec() == SprofInfo::zero_spec(),
            r.mem_size_spec() == 0,
            forall|i: int| 0 <= i < SAMPLE_BUFFER_SIZE ==> #[trigger] r.buffer_spec()[i] == 0,
    {
        let mut buffer: Vec<u8> = Vec::new();
        let mut i: usize = 0;
        while i < SAMPLE_BUFFER_SIZE
            invariant
                i <= SAMPLE_BUFFER_SIZE,
                buffer@.len() == i,
                forall|j: int| 0 <= j < i ==> #[trigger] buffer@[j] == 0,
            decreases SAMPLE_BUFFER_SIZE - i,
        {
            buffer.push(0u8);
            i = i + 1;
        }
        SprofState { sprofiling: false, ep: 0, info_addr: 0, data_addr: 0, mem_size: 0, info: SprofInfo::zero(), buffer }
    }

    /// Whether profiling runs.
    pub fn is_running(&self) -> (r: bool)
        ensures
            r == self.running(),
    {
        self.sprofiling
    }

    /// The counters.
    pub fn info(&self) -> (r: SprofInfo)
        ensures
            r == self.info_spec(),
    {
        self.info
    }

    /// The first `len` bytes of the sample buffer.
    pub fn sample_data(&self, len: usize) -> (r: &[u8])
        requires
            self.wf(),
            len <= SAMPLE_BUFFER_SIZE,
        ensures
            r@ == self.buffer_spec().subrange(0, len as int),
    {
        vstd::slice::slice_subrange(self.buffer.as_slice(), 0, len)
    }

    /// Handle a profiling command. Start: `EBUSY` while profiling runs;
    /// otherwise profiling is marked running, and an unknown endpoint or
    /// interrupt type answers `EINVAL` and unmarks it; the parameters are
    /// recorded (the buffer size cut to `SAMPLE_BUFFER_SIZE`), the counters
    /// reset, and the clock is to be started (or, for the non-maskable
    /// interrupt, which is not supported, `ENOSYS` and profiling unmarked).
    /// Stop: `EBUSY` unless profiling runs; otherwise it is unmarked and the
    /// results are to be copied out. An unknown command answers `EINVAL`.
    pub fn dispatch_profile(&mut self, pt: &ProcessTable, action: i32, endpt: i32, intr_type: i32, ctl_ptr: u64, mem_ptr: u64, mem_size: i32, freq: i32) -> (r: ProfStep)
        requires
            old(self).wf(),
            pt.wf(),
        ensures
            final(self).wf(),
            final(self).buffer_spec() == old(self).buffer_spec(),
            ({
                let ok_ep = endpoint_lookup(pt.slots(), Endpoint(endpt)).is_some();
                if action == 0 {
                    if old(self).running() {
                        r == ProfStep::Reply(EBUSY) && *final(self) == *old(self)
                    } else if !ok_ep || (intr_type != 0 && intr_type != 1) {
                        r == ProfStep::Reply(EINVAL) && *final(self) == *old(self)
                    } else {
                        &&& final(self).ep_spec() == endpt
                        &&& final(self).info_addr_spec() == ctl_ptr
                        &&& final(self).data_addr_spec() == mem_ptr
                        &&& final(self).mem_size_spec() == (if mem_size as usize > SAMPLE_BUFFER_SIZE { SAMPLE_BUFFER_SIZE } else { mem_size as usize })
                        &&& final(self).info_spec() == SprofInfo::zero_spec()
                        &&& (intr_type == 0 ==> r == ProfStep::StartClock { freq } && final(self).running())
                        &&& (intr_type == 1 ==> r == ProfStep::Reply(ENOSYS) && !final(self).running())
                    }
                } else if action == 1 {
                    if !old(self).running() {
                        r == ProfStep::Reply(EBUSY) && *final(self) == *old(self)
                    } else {
                        &&& r == (ProfStep::Stop {
                            endpoint: old(self).ep_spec(),
                            info_addr: old(self).info_addr_spec(),
                            data_addr: old(self).data_addr_spec(),
                            mem_used: old(self).info_spec().mem_used,
                        })
                        &&& !final(self).running()
                        &&& final(self).info_spec() == old(self).info_spec()
                        &&& final(self).ep_spec() == old(self).ep_spec()
                    }
                } else {
                    r == ProfStep::Reply(EINVAL) && *final(self) == *old(self)
                }
            }),
    {
        match ProfAction::try_from(action) {
            Ok(ProfAction::Start) => {
                if self.sprofiling {
                    return ProfStep::Reply(EBUSY);
                }
                if pt.endpoint_to_nr(Endpoint(endpt)).is_none() {
                    return ProfStep::Reply(EINVAL);
                }
                let kind = match ProfIntrType::try_from(intr_type) {
                    Ok(t) => t,
                    Err(()) => return ProfStep::Reply(EINVAL),
                };
                self.ep = endpt;
                self.info_addr = ctl_ptr;
                self.data_addr = mem_ptr;
                let want = mem_size as usize;
                self.mem_size = if want > SAMPLE_BUFFER_SIZE { SAMPLE_BUFFER_SIZE } else { want };
                self.info = SprofInfo::zero();
                match kind {
                    ProfIntrType::Rtc => {
                        self.sprofiling = true;
                        ProfStep::StartClock { freq }
                    },
                    ProfIntrType::Nmi => ProfStep::Reply(ENOSYS),
                }
            },
            Ok(ProfAction::Stop) => {
                if !self.sprofiling {
                    return ProfStep::Reply(EBUSY);
                }
                self.sprofiling = false;
                ProfStep::Stop { endpoint: self.ep, info_addr: self.info_addr, data_addr: self.data_addr, mem_used: self.info.mem_used }
            },
            Err(()) => ProfStep::Reply(EINVAL),
        }
    }

    /// Finish a start once the profiling clock was asked to start: on
    /// success `OK`; on failure profiling is unmarked and `EINVAL`.
    pub fn finish_start(&mut self, clock_started: bool) -> (r: i32)
        requires
            old(self).wf(),
        ensures
            final(self).wf(),
            r == (if clock_started { OK } else { EINVAL }),
            final(self).running() == (old(self).running() && clock_started),
            final(self).info_spec() == old(self).info_spec(),
            final(self).buffer_spec() == old(self).buffer_spec(),
            final(self).mem_size_spec() == old(self).mem_size_spec(),
    {
        if clock_started {
            OK
        } else {
            self.sprofiling = false;
            EINVAL
        }
    }

    /// Write `bytes` into the buffer at offset `at`.
    fn write_bytes(&mut self, at: usize, bytes: &[u8])
        requires
            old(self).wf(),
            at + bytes@.len() <= SAMPLE_BUFFER_SIZE,
        ensures
            final(self).buffer_spec() == old(self).buffer_spec().subrange(0, at as int) + bytes@
                + old(self).buffer_spec().subrange(at + bytes@.len(), SAMPLE_BUFFER_SIZE as int),
            final(self).info_spec() == old(self).info_spec(),
            final(self).running() == old(self).running(),
            final(self).mem_size_spec() == old(self).mem_size_spec(),
            final(self).ep_spec() == old(self).ep_spec(),
            final(self).wf(),
    {
        let mut k: usize = 0;
        while k < bytes.len()
            invariant
                k <= bytes@.len(),
                at + bytes@.len() <= SAMPLE_BUFFER_SIZE,
                self.buffer@.len() == SAMPLE_BUFFER_SIZE,
                self.buffer@ == old(self).buffer_spec().subrange(0, at as int) + bytes@.subrange(0, k as int)
                    + old(self).buffer_spec().subrange(at + k, SAMPLE_BUFFER_SIZE as int),
                self.info == old(self).info,
                self.sprofiling == old(self).sprofiling,
                self.mem_size == old(self).mem_size,
                self.ep == old(self).ep,
                old(self).wf(),
            decreases bytes@.len() - k,
        {
            let ghost before = self.buffer@;
            self.buffer.set(at + k, bytes[k]);
            proof {
                assert(self.buffer@ =~= old(self).buffer_spec().subrange(0, at as int) + bytes@.subrange(0, k + 1)
                    + old(self).buffer_spec().subrange(at + k + 1, SAMPLE_BUFFER_SIZE as int));
            }
            k = k + 1;
        }
        assert(bytes@.subrange(0, bytes@.len() as int) =~= bytes@);
    }
}

impl SprofInfo {
    /// All counters zero.
    pub open spec fn zero_spec() -> SprofInfo {
        SprofInfo { mem_used: 0, total_samples: 0, idle_samples: 0, system_samples: 0, user_samples: 0 }
    }
}

/// The bytes of a sample record.
fn sample_record(ep: i32, pc: u64) -> (r: [u8; 16])
    ensures
        r@ == sample_bytes(ep, pc),
{
    let e = ep as u32 as u64;
    let r = [
        (e & 0xff) as u8, ((e >> 8u64) & 0xff) as u8, ((e >> 16u64) & 0xff) as u8, ((e >> 24u64) & 0xff) as u8,
        0u8, 0u8, 0u8, 0u8,
        (pc & 0xff) as u8, ((pc >> 8u64) & 0xff) as u8, ((pc >> 16u64) & 0xff) as u8, ((pc >> 24u64) & 0xff) as u8,
        ((pc >> 32u64) & 0xff) as u8, ((pc >> 40u64) & 0xff) as u8, ((pc >> 48u64) & 0xff) as u8, ((pc >> 56u64) & 0xff) as u8,
    ];
    proof {
        assert(e >> 0u64 == e && pc >> 0u64 == pc) by (bit_vector);
        assert(r@ =~= sample_bytes(ep, pc));
    }
    r
}

/// The bytes of a process record.
fn proc_record(ep: i32, name: &[u8; 16]) -> (r: [u8; 20])
    ensures
        r@ == proc_record_bytes(ep, name@),
{
    let e = ep as u32 as u64;
    let r = [
        (e & 0xff) as u8, ((e >> 8u64) & 0xff) as u8, ((e >> 16u64) & 0xff) as u8, ((e >> 24u64) & 0xff) as u8,
        name[0], name[1], name[2], name[3], name[4], name[5], name[6], name[7],
        name[8], name[9], name[10], name[11], name[12], name[13], name[14], name[15],
    ];
    proof {
        assert(e >> 0u64 == e) by (bit_vector);
        assert(r@ =~= proc_record_bytes(ep, name@));
    }
    r
}

/// `buf` with `bytes` written at offset `at`.
pub open spec fn splice(buf: Seq<u8>, at: int, bytes: Seq<u8>) -> Seq<u8> {
    buf.subrange(0, at) + bytes + buf.subrange(at + bytes.len(), buf.len() as int)
}

/// Process `p` is a runnable system process according to `privs`.
pub open spec fn sys_runnable(p: KProcess, privs: Seq<Priv>) -> bool {
    &&& p.priv_id.is_some()
    &&& p.priv_id.unwrap() < NR_SYS_PROCS
    &&& privs[p.priv_id.unwrap() as int].s_flags.0 & PrivFlags::SYS_PROC != 0
    &&& p.p_rts_flags@ == 0
}

/// Bytes of buffer a sample may need, beyond those in use: a summary and
/// two pairs of sample records.
pub open spec fn sample_room() -> int {
    (SPROF_INFO_SIZE + 4 * SPROF_SAMPLE_SIZE) as int
}

impl SprofState {
    /// Record a profiling sample of the running process `p` at program
    /// counter `pc`. Nothing happens unless profiling runs and the buffer
    /// is not full; when the profiler's buffer has no room for a summary
    /// and four sample records beyond the bytes in use, the buffer is
    /// marked full. The idle task counts an idle sample; the kernel or a
    /// runnable system process counts a system sample and has a sample
    /// record written (after a process record, the first time the process
    /// is seen); any other process counts a user sample. Every sample
    /// counts in the total. Counters wrap.
    pub fn profile_sample(&mut self, p: &mut KProcess, pc: u64, privs: &PrivTable)
        requires
            old(self).wf(),
            privs.wf(),
        ensures
            final(self).wf(),
            final(self).running() == old(self).running(),
            final(self).mem_size_spec() == old(self).mem_size_spec(),
            final(self).ep_spec() == old(self).ep_spec(),
            ({
                let i0 = old(self).info_spec();
                let ep = old(p).p_endpoint.0;
                if !old(self).running() || i0.mem_used == -1i32 {
                    &&& final(self).info_spec() == i0
                    &&& final(self).buffer_spec() == old(self).buffer_spec()
                    &&& *final(p) == *old(p)
                } else if i0.mem_used + sample_room() > old(self).mem_size_spec() {
                    &&& final(self).info_spec() == (SprofInfo { mem_used: -1i32, ..i0 })
                    &&& final(self).buffer_spec() == old(self).buffer_spec()
                    &&& *final(p) == *old(p)
                } else if ep == proc_nr::IDLE {
                    &&& final(self).info_spec() == (SprofInfo {
                        idle_samples: i0.idle_samples.wrapping_add(1),
                        total_samples: i0.total_samples.wrapping_add(1),
                        ..i0
                    })
                    &&& final(self).buffer_spec() == old(self).buffer_spec()
                    &&& *final(p) == *old(p)
                } else if ep == proc_nr::KERNEL || sys_runnable(*old(p), privs.slots_spec()) {
                    let seen = old(p).p_misc_flags@ & mf::SPROF_SEEN != 0;
                    let b1 = if seen {
                        old(self).buffer_spec()
                    } else {
                        splice(old(self).buffer_spec(), i0.mem_used as int, proc_record_bytes(ep, old(p).p_name@))
                    };
                    let m1: int = if seen { i0.mem_used as int } else { i0.mem_used + SPROF_PROC_SIZE };
                    &&& final(self).buffer_spec() == splice(b1, m1, sample_bytes(ep, pc))
                    &&& final(self).info_spec() == (SprofInfo {
                        mem_used: (m1 + SPROF_SAMPLE_SIZE) as i32,
                        system_samples: i0.system_samples.wrapping_add(1),
                        total_samples: i0.total_samples.wrapping_add(1),
                        ..i0
                    })
                    &&& final(p).p_misc_flags@ == old(p).p_misc_flags@ | mf::SPROF_SEEN
                    &&& *final(p) == (KProcess { p_misc_flags: final(p).p_misc_flags, ..*old(p) })
                } else {
                    &&& final(self).info_spec() == (SprofInfo {
                        user_samples: i0.user_samples.wrapping_add(1),
                        total_samples: i0.total_samples.wrapping_add(1),
                        ..i0
                    })
                    &&& final(self).buffer_spec() == old(self).buffer_spec()
                    &&& *final(p) == *old(p)
                }
            }),
    {
        if !self.sprofiling || self.info.mem_used == -1 {
            return;
        }
        let used = self.info.mem_used as usize;
        let needed = used + SPROF_INFO_SIZE + 2 * SPROF_SAMPLE_SIZE + 2 * SPROF_SAMPLE_SIZE;
        if needed > self.mem_size {
            self.info.mem_used = -1;
            return;
        }
        let ep = p.p_endpoint.0;
        if ep == proc_nr::IDLE {
            self.info.idle_samples = self.info.idle_samples.wrapping_add(1);
        } else if ep == proc_nr::KERNEL || is_sys_proc_runnable(p, privs) {
            if !p.p_misc_flags.is_set(mf::SPROF_SEEN) {
                p.p_misc_flags.set(mf::SPROF_SEEN);
                let rec = proc_record(ep, p.p_name.as_bytes());
                let at = self.info.mem_used as usize;
                self.write_bytes(at, rec.as_slice());
                self.info.mem_used = self.info.mem_used + 20;
            } else {
                proof {
                    let m = old(p).p_misc_flags@;
                    assert(m & 0x8000u32 != 0 ==> m | 0x8000u32 == m) by (bit_vector);
                    assert(*p == (KProcess { p_misc_flags: p.p_misc_flags, ..*old(p) }));
                }
            }
            let sample = sample_record(ep, pc);
            let at = self.info.mem_used as usize;
            self.write_bytes(at, sample.as_slice());
            self.info.mem_used = self.info.mem_used + 16;
            self.info.system_samples = self.info.system_samples.wrapping_add(1);
        } else {
            self.info.user_samples = self.info.user_samples.wrapping_add(1);
        }
        self.info.total_samples = self.info.total_samples.wrapping_add(1);
    }
}

/// Whether `p` is a runnable system process according to `privs`.
fn is_sys_proc_runnable(p: &KProcess, privs: &PrivTable) -> (r: bool)
    requires
        privs.wf(),
    ensures
        r == sys_runnable(*p, privs.slots_spec()),
{
    let id = match p.priv_id {
        Some(id) => id,
        None => return false,
    };
    match privs.get(SysId(id)) {
        Some(pv) => pv.is_sys_proc() && p.is_runnable(),
        None => false,
    }
}

/// Number of randomness bins.
pub const RANDOM_SOURCES: i32 = 16;

/// Bound on the CPU number of a tick query.
pub const CPU_TICKS_CPU_LIMIT: u32 = 256;

/// Bytes of the name in a who-am-i reply.
pub const WHOAMI_NAME_LEN: usize = 44;

/// What the caller of `dispatch_getinfo` does next: answer at once, or
/// copy the named data to the caller's buffer (after checking its
/// length with `val_len_fits`).
#[derive(Debug, Clone, Copy, PartialEq, Eq)]
pub enum GetInfoStep {
    /// Answer with this status.
    Reply(i32),
    /// Write the caller's endpoint, privilege flags, initialization flags
    /// and name into the reply.
    WhoAmI { endpt: i32, privflags: i32, initflags: i32, name: [u8; 44] },
    /// Write the kernel information fields into the reply.
    KInfo,
    /// Copy this process record.
    CopyProc(ProcInfoStruct),
    /// Copy this privilege record.
    CopyPriv(PrivInfoStruct),
    /// Copy the records of every process slot.
    CopyProcTab,
    /// Copy the records of every privilege slot.
    CopyPrivTab,
    /// Copy the saved registers of this process.
    CopyRegs(ProcNr),
    /// Copy the tick counters of this CPU.
    CopyCpuTicks(u32),
    /// Copy one randomness bin.
    CopyRandomnessBin(i32),
    /// Copy the idle task's cycle count.
    CopyIdleTsc(u64),
    /// Copy the data of a request that takes no argument.
    CopyData(GetInfoRequest),
}

/// The endpoint a process or privilege query is about: the caller's own
/// for `SELF`, else `val_len2_e`.
pub open spec fn getinfo_target(caller_ep: Endpoint, val_len2_e: i32) -> Endpoint {
    if val_len2_e == ENDPOINT_SELF { caller_ep } else { Endpoint(val_len2_e) }
}

/// The queries answered by copying data that takes no argument.
pub open spec fn copies_data(q: GetInfoRequest) -> bool {
    ||| q is Image
    ||| q is Randomness
    ||| q is IrqHooks
    ||| q is Machine
    ||| q is LoadInfo
    ||| q is IrqActids
    ||| q is Hz
    ||| q is CpuInfo
}

/// Whether data of `length` bytes fits a caller buffer of `val_len` bytes:
/// a positive `val_len` smaller than `length` does not (`E2BIG`).
pub fn val_len_fits(length: usize, val_len: i32) -> (r: bool)
    ensures
        r == !(val_len > 0 && length > val_len),
{
    if val_len > 0 && length as u64 > val_len as u64 {
        false
    } else {
        true
    }
}

/// The who-am-i name: the process name followed by zeros.
pub open spec fn whoami_name_spec(name: Seq<u8>) -> Seq<u8> {
    Seq::new(44, |i: int| if i < name.len() && i < 43 { name[i] } else { 0u8 })
}

fn whoami_name(name: &[u8; 16]) -> (r: [u8; 44])
    ensures
        r@ == whoami_name_spec(name@),
{
    let mut buf = [0u8; 44];
    let mut i: usize = 0;
    while i < 16
        invariant
            i <= 16,
            buf@.len() == 44,
            forall|j: int| 0 <= j < i ==> #[trigger] buf@[j] == name@[j],
            forall|j: int| i <= j < 44 ==> #[trigger] buf@[j] == 0,
        decreases 16 - i,
    {
        buf[i] = name[i];
        i = i + 1;
    }
    assert(buf@ =~= whoami_name_spec(name@));
    buf
}

/// Handle an information query up to the copy: decode the request
/// (`EINVAL` when unknown), resolve and check a target process (`EINVAL`
/// when unknown), check a CPU or bin number (`EINVAL` when out of range),
/// and build the records the query returns. The boot-parameter query
/// answers `EINVAL`, as no parameters are kept.
pub fn dispatch_getinfo(caller: &KProcess, pt: &ProcessTable, privs: &PrivTable, request: i32, val_len2_e: i32) -> (r: GetInfoStep)
    requires
        pt.wf(),
        privs.wf(),
    ensures
        !is_getinfo_code(request) ==> r == GetInfoStep::Reply(EINVAL),
        request == getinfo_code(GetInfoRequest::MonParams) ==> r == GetInfoStep::Reply(EINVAL),
        forall|q: GetInfoRequest| #[trigger] copies_data(q) && request == getinfo_code(q) ==> r == GetInfoStep::CopyData(q),
        ({
            let t = endpoint_lookup(pt.slots(), getinfo_target(caller.p_endpoint, val_len2_e));
            &&& request == getinfo_code(GetInfoRequest::Proc) ==> (if t.is_none() {
                r == GetInfoStep::Reply(EINVAL)
            } else {
                r matches GetInfoStep::CopyProc(info)
                    && (valid_nr(t.unwrap()) ==> proc_info_of(info, pt.slot(t.unwrap())))
                    && (!valid_nr(t.unwrap()) ==> proc_info_none(info))
            })
            &&& request == getinfo_code(GetInfoRequest::Regs) ==> (if t.is_none() || !valid_nr(t.unwrap()) {
                r == GetInfoStep::Reply(EINVAL)
            } else {
                r == GetInfoStep::CopyRegs(t.unwrap())
            })
            &&& request == getinfo_code(GetInfoRequest::Priv) ==> (if t.is_none() {
                r == GetInfoStep::Reply(EINVAL)
            } else {
                r matches GetInfoStep::CopyPriv(info) && ({
                    let id = pt.slot(t.unwrap()).priv_id;
                    if valid_nr(t.unwrap()) && id.is_some() && id.unwrap() < NR_SYS_PROCS {
                        priv_info_of(info, privs.slots_spec()[id.unwrap() as int])
                    } else {
                        priv_info_none(info)
                    }
                })
            })
        }),
        request == getinfo_code(GetInfoRequest::CpuTicks) ==> r == (if val_len2_e as u32 >= CPU_TICKS_CPU_LIMIT {
            GetInfoStep::Reply(EINVAL)
        } else {
            GetInfoStep::CopyCpuTicks(val_len2_e as u32)
        }),
        request == getinfo_code(GetInfoRequest::RandomnessBin) ==> r == (if val_len2_e < 0 || val_len2_e >= RANDOM_SOURCES {
            GetInfoStep::Reply(EINVAL)
        } else {
            GetInfoStep::CopyRandomnessBin(val_len2_e)
        }),
        request == getinfo_code(GetInfoRequest::WhoAmI) ==> (r matches GetInfoStep::WhoAmI { endpt, privflags, initflags, name }
            && endpt == caller.p_endpoint.0 && initflags == 0 && name@ == whoami_name_spec(caller.p_name@)
            && privflags == (if caller.priv_id.is_some() && caller.priv_id.unwrap() < NR_SYS_PROCS {
                privs.slots_spec()[caller.priv_id.unwrap() as int].s_flags.0 as i32
            } else {
                0i32
            })),
        request == getinfo_code(GetInfoRequest::KInfo) ==> r == GetInfoStep::KInfo,
        request == getinfo_code(GetInfoRequest::ProcTab) ==> r == GetInfoStep::CopyProcTab,
        request == getinfo_code(GetInfoRequest::PrivTab) ==> r == GetInfoStep::CopyPrivTab,
        request == getinfo_code(GetInfoRequest::IdleTsc) ==> r == GetInfoStep::CopyIdleTsc(pt.slot(ProcNr(proc_nr::IDLE)).p_cycles.total),
{
    let req = match GetInfoRequest::try_from(request) {
        Ok(q) => q,
        Err(()) => return GetInfoStep::Reply(EINVAL),
    };
    let target_ep = if val_len2_e == ENDPOINT_SELF { caller.p_endpoint } else { Endpoint(val_len2_e) };
    match req {
        GetInfoRequest::WhoAmI => {
            let privflags: i32 = match caller.priv_id {
                Some(id) => match privs.get(SysId(id)) {
                    Some(pv) => pv.s_flags.0 as i32,
                    None => 0,
                },
                None => 0,
            };
            GetInfoStep::WhoAmI { endpt: caller.p_endpoint.0, privflags, initflags: 0, name: whoami_name(caller.p_name.as_bytes()) }
        },
        GetInfoRequest::KInfo => GetInfoStep::KInfo,
        GetInfoRequest::Proc => {
            let nr = match pt.endpoint_to_nr(target_ep) {
                Some(nr) => nr,
                None => return GetInfoStep::Reply(EINVAL),
            };
            let info = match pt.get(nr) {
                Some(p) => ProcInfoStruct::from_kprocess(p),
                None => ProcInfoStruct::default(),
            };
            GetInfoStep::CopyProc(info)
        },
        GetInfoRequest::Priv => {
            let nr = match pt.endpoint_to_nr(target_ep) {
                Some(nr) => nr,
                None => return GetInfoStep::Reply(EINVAL),
            };
            let info = match pt.get(nr) {
                Some(p) => match p.priv_id {
                    Some(id) => match privs.get(SysId(id)) {
                        Some(pv) => PrivInfoStruct::from_priv(pv),
                        None => PrivInfoStruct::default(),
                    },
                    None => PrivInfoStruct::default(),
                },
                None => PrivInfoStruct::default(),
            };
            GetInfoStep::CopyPriv(info)
        },
        GetInfoRequest::Regs => {
            let nr = match pt.endpoint_to_nr(target_ep) {
                Some(nr) => nr,
                None => return GetInfoStep::Reply(EINVAL),
            };
            if pt.get(nr).is_none() {
                return GetInfoStep::Reply(EINVAL);
            }
            GetInfoStep::CopyRegs(nr)
        },
        GetInfoRequest::ProcTab => GetInfoStep::CopyProcTab,
        GetInfoRequest::PrivTab => GetInfoStep::CopyPrivTab,
        GetInfoRequest::CpuTicks => {
            let cpu = val_len2_e as u32;
            if cpu >= CPU_TICKS_CPU_LIMIT {
                return GetInfoStep::Reply(EINVAL);
            }
            GetInfoStep::CopyCpuTicks(cpu)
        },
        GetInfoRequest::RandomnessBin => {
            if val_len2_e < 0 || val_len2_e >= RANDOM_SOURCES {
                return GetInfoStep::Reply(EINVAL);
            }
            GetInfoStep::CopyRandomnessBin(val_len2_e)
        },
        GetInfoRequest::IdleTsc => {
            let cycles = match pt.get(ProcNr(proc_nr::IDLE)) {
                Some(p) => p.p_cycles.total,
                None => 0,
            };
            GetInfoStep::CopyIdleTsc(cycles)
        },
        GetInfoRequest::MonParams => GetInfoStep::Reply(EINVAL),
        _ => GetInfoStep::CopyData(req),
    }
}

} // verus!
