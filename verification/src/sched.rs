//! Multi-level ready queues and the scheduling-parameter update.
//!
//! Each of the `NR_SCHED_QUEUES` queues is a singly linked list threaded
//! through the processes' `p_nextready` fields; the scheduler holds the
//! head and tail of each. The abstract content of a queue is the sequence
//! of process numbers from head to tail (`queue_linked`).
use vstd::prelude::*;
use crate::clock::{wmul64, ClockState};
use crate::proc::{mf, priority, rts, KProcess, ProcNr, NONE_PROC_NR};
use crate::types::NR_TASKS;

verus! {

/// Number of process slots (kernel tasks plus user processes).
pub const PROC_TABLE_SIZE: usize = 261;

/// Whether `nr` names a slot of the process table.
pub open spec fn valid_nr(nr: ProcNr) -> bool {
    0 <= nr.0 + NR_TASKS < PROC_TABLE_SIZE
}

/// The slot index of process number `nr`.
pub open spec fn nr_index(nr: ProcNr) -> int {
    nr.0 + NR_TASKS
}

/// The `p_nextready` value of the `i`-th element of queue `s`: the next
/// process number, or `NONE_PROC_NR` for the last one.
pub open spec fn link_of(s: Seq<ProcNr>, i: int) -> i32 {
    if i + 1 < s.len() {
        s[i + 1].0
    } else {
        NONE_PROC_NR
    }
}

/// Queue `q` of the scheduler (heads `hs`, tails `ts`) holds exactly the
/// processes of `s`, in order, linked through `p_nextready` in `procs`.
pub open spec fn queue_linked(hs: Seq<Option<ProcNr>>, ts: Seq<Option<ProcNr>>, procs: Seq<KProcess>, q: int, s: Seq<ProcNr>) -> bool {
    &&& (s.len() == 0 ==> hs[q].is_none() && ts[q].is_none())
    &&& (s.len() > 0 ==> hs[q] == Some(s[0]) && ts[q] == Some(s.last()))
    &&& s.no_duplicates()
    &&& forall|i: int| 0 <= i < s.len() ==> #[trigger] valid_nr(s[i]) && s[i].0 != NONE_PROC_NR
    &&& forall|i: int| 0 <= i < s.len() ==> #[trigger] procs[nr_index(s[i])].p_nextready == link_of(s, i)
}

/// Convert a process number to a slot index.
pub fn nr_to_idx(nr: ProcNr) -> (r: Option<usize>)
    ensures
        r.is_some() == valid_nr(nr),
        r.is_some() ==> r.unwrap() == nr_index(nr),
{
    let offset: i64 = nr.0 as i64 + 5i64;
    if offset < 0 || offset >= 261 {
        None
    } else {
        Some(offset as usize)
    }
}

/// Ready-queue heads and tails, one pair per priority.
#[derive(Debug)]
pub struct Scheduler {
    run_q_head: Vec<Option<ProcNr>>,
    run_q_tail: Vec<Option<ProcNr>>,
}

/// What the caller must do after a tail insertion: link the old tail.
#[derive(Debug, Clone, Copy)]
pub struct EnqueueInfo {
    pub queue: usize,
    pub old_tail: Option<ProcNr>,
}

impl Scheduler {
    /// The queue heads.
    pub closed spec fn heads(&self) -> Seq<Option<ProcNr>> {
        self.run_q_head@
    }

    /// The queue tails.
    pub closed spec fn tails(&self) -> Seq<Option<ProcNr>> {
        self.run_q_tail@
    }

    /// One head and one tail per priority.
    pub open spec fn wf(&self) -> bool {
        &&& self.heads().len() == priority::NR_SCHED_QUEUES
        &&& self.tails().len() == priority::NR_SCHED_QUEUES
    }

    /// Every queue empty.
    pub fn new() -> (r: Scheduler)
        ensures
            r.wf(),
            forall|q: int| 0 <= q < priority::NR_SCHED_QUEUES ==> r.heads()[q].is_none() && r.tails()[q].is_none(),
    {
        let mut h: Vec<Option<ProcNr>> = Vec::new();
        let mut t: Vec<Option<ProcNr>> = Vec::new();
        let mut i: usize = 0;
        while i < 16
            invariant
                i <= 16,
                h@.len() == i,
                t@.len() == i,
                forall|q: int| 0 <= q < i ==> h@[q].is_none() && t@[q].is_none(),
            decreases 16 - i,
        {
            h.push(None);
            t.push(None);
            i = i + 1;
        }
        Scheduler { run_q_head: h, run_q_tail: t }
    }

    /// The head of the first non-empty queue, scanning from the highest
    /// priority (queue 0).
    pub fn pick_proc(&self, procs: &[KProcess]) -> (r: Option<ProcNr>)
        requires
            self.wf(),
        ensures
            r.is_none() <==> (forall|q: int| 0 <= q < priority::NR_SCHED_QUEUES ==> #[trigger] self.heads()[q].is_none()),
            r.is_some() ==> exists|q: int| 0 <= q < priority::NR_SCHED_QUEUES
                && self.heads()[q] == r
                && forall|p: int| 0 <= p < q ==> #[trigger] self.heads()[p].is_none(),
    {
        let mut q: usize = 0;
        while q < 16
            invariant
                self.wf(),
                q <= 16,
                forall|p: int| 0 <= p < q ==> #[trigger] self.heads()[p].is_none(),
            decreases 16 - q,
        {
            if let Some(nr) = self.run_q_head[q] {
                return Some(nr);
            }
            q = q + 1;
        }
        None
    }

    /// Insert `nr` at the tail of queue `q` (queue arrays only). Returns the
    /// old tail, whose `p_nextready` the caller must point at `nr`.
    pub fn enqueue_queue_tail(&mut self, nr: ProcNr, q: usize) -> (r: EnqueueInfo)
        requires
            old(self).wf(),
            q < priority::NR_SCHED_QUEUES,
        ensures
            final(self).wf(),
            r.queue == q,
            r.old_tail == old(self).tails()[q as int],
            final(self).tails() == old(self).tails().update(q as int, Some(nr)),
            final(self).heads() == (if old(self).tails()[q as int].is_none() {
                old(self).heads().update(q as int, Some(nr))
            } else {
                old(self).heads()
            }),
    {
        let old_tail = self.run_q_tail[q];
        match old_tail {
            None => {
                self.run_q_head.set(q, Some(nr));
                self.run_q_tail.set(q, Some(nr));
            },
            Some(_) => {
                self.run_q_tail.set(q, Some(nr));
            },
        }
        EnqueueInfo { queue: q, old_tail }
    }

    /// Insert `nr` at the head of queue `q` (queue arrays only).
    pub fn enqueue_queue_head(&mut self, nr: ProcNr, q: usize)
        requires
            old(self).wf(),
            q < priority::NR_SCHED_QUEUES,
        ensures
            final(self).wf(),
            final(self).heads() == old(self).heads().update(q as int, Some(nr)),
            final(self).tails() == (if old(self).heads()[q as int].is_none() {
                old(self).tails().update(q as int, Some(nr))
            } else {
                old(self).tails()
            }),
    {
        match self.run_q_head[q] {
            None => {
                self.run_q_head.set(q, Some(nr));
                self.run_q_tail.set(q, Some(nr));
            },
            Some(_) => {
                self.run_q_head.set(q, Some(nr));
            },
        }
    }

    /// Remove `nr` from queue `q`, relinking its predecessor (or the head)
    /// to its successor and fixing the tail. `nr`'s own link is reset.
    #[verifier::spinoff_prover]
    #[verifier::rlimit(30)]
    pub fn dequeue_from_queue(&mut self, nr: ProcNr, q: usize, procs: &mut Vec<KProcess>, Ghost(s): Ghost<Seq<ProcNr>>) -> (r: Ghost<int>)
        requires
            old(self).wf(),
            q < priority::NR_SCHED_QUEUES,
            old(procs)@.len() == PROC_TABLE_SIZE,
            queue_linked(old(self).heads(), old(self).tails(), old(procs)@, q as int, s),
            s.contains(nr),
        ensures
            final(self).wf(),
            0 <= r@ < s.len(),
            s[r@] == nr,
            queue_linked(final(self).heads(), final(self).tails(), final(procs)@, q as int, s.remove(r@)),
            forall|p: int| 0 <= p < priority::NR_SCHED_QUEUES && p != q ==> final(self).heads()[p] == old(self).heads()[p] && final(self).tails()[p] == old(self).tails()[p],
            final(procs)@.len() == PROC_TABLE_SIZE,
            final(procs)@[nr_index(nr)].p_nextready == NONE_PROC_NR,
            r@ > 0 ==> final(procs)@[nr_index(s[r@ - 1])].p_nextready == link_of(s, r@),
            forall|i: int| 0 <= i < PROC_TABLE_SIZE && i != nr_index(nr) && (r@ == 0 || i != nr_index(s[r@ - 1])) ==> #[trigger] final(procs)@[i] == old(procs)@[i],
            forall|i: int| 0 <= i < PROC_TABLE_SIZE ==> same_but_link(#[trigger] final(procs)@[i], old(procs)@[i]),
    {
        let ghost hs = self.heads();
        let ghost ts = self.tails();
        let ghost k0 = s.index_of(nr);
        let mut prev: Option<ProcNr> = None;
        let mut current = self.run_q_head[q];
        let ghost mut k: int = 0;
        while current.is_some() && current.unwrap() != nr
            invariant
                queue_linked(hs, ts, procs@, q as int, s),
                procs@.len() == PROC_TABLE_SIZE,
                hs == self.heads(),
                ts == self.tails(),
                self.wf(),
                q < 16,
                0 <= k <= k0,
                0 <= k0 < s.len(),
                s[k0] == nr,
                s.no_duplicates(),
                current == Some(s[k]),
                k == 0 ==> prev.is_none(),
                k > 0 ==> prev == Some(s[k - 1]),
            decreases k0 - k,
        {
            let cur_nr = current.unwrap();
            assert(k != k0);
            prev = Some(cur_nr);
            assert(valid_nr(s[k]));
            let cur_idx = (cur_nr.0 + 5) as usize;
            assert(procs@[nr_index(s[k])].p_nextready == link_of(s, k));
            let v = procs[cur_idx].p_nextready;
            proof {
                assert(k + 1 < s.len());
                assert(valid_nr(s[k + 1]));
            }
            current = Some(ProcNr(v));
            proof {
                k = k + 1;
            }
        }
        proof {
            assert(k == k0);
        }
        assert(valid_nr(s[k]));
        let nr_idx = (nr.0 + 5) as usize;
        let v = procs[nr_idx].p_nextready;
        let next: Option<ProcNr> = if v == NONE_PROC_NR { None } else { Some(ProcNr(v)) };
        proof {
            assert(procs@[nr_index(s[k])].p_nextready == link_of(s, k));
            if k + 1 < s.len() {
                assert(valid_nr(s[k + 1]));
            }
        }
        let ghost s2 = s.remove(k);
        let ghost old_procs = procs@;
        match prev {
            None => {
                self.run_q_head.set(q, next);
            },
            Some(prev_nr) => {
                assert(valid_nr(s[k - 1]));
                let prev_idx = (prev_nr.0 + 5) as usize;
                let link: i32 = match next {
                    Some(n) => n.0,
                    None => NONE_PROC_NR,
                };
                procs[prev_idx].p_nextready = link;
                assert(forall|x: int| 0 <= x < PROC_TABLE_SIZE && x != prev_idx ==> procs@[x] == old_procs[x]);
            },
        }
        if self.run_q_tail[q] == Some(nr) {
            self.run_q_tail.set(q, prev);
        }
        assert(forall|x: int| 0 <= x < PROC_TABLE_SIZE && (k == 0 || x != nr_index(s[k - 1])) ==> procs@[x] == old_procs[x]);
        let ghost mid_procs = procs@;
        procs[nr_idx].p_nextready = NONE_PROC_NR;
        assert(forall|x: int| 0 <= x < PROC_TABLE_SIZE && x != nr_idx ==> procs@[x] == mid_procs[x]);
        proof {
            assert(s2.len() == s.len() - 1);
            assert forall|i: int| 0 <= i < s2.len() implies #[trigger] valid_nr(s2[i]) && s2[i].0 != NONE_PROC_NR by {
                if i < k {
                    assert(s2[i] == s[i]);
                    assert(valid_nr(s[i]));
                } else {
                    assert(s2[i] == s[i + 1]);
                    assert(valid_nr(s[i + 1]));
                }
            }
            assert forall|a: int, b: int| 0 <= a < s2.len() && 0 <= b < s2.len() && a != b implies s2[a] != s2[b] by {
                let ia = if a < k { a } else { a + 1 };
                let ib = if b < k { b } else { b + 1 };
                assert(s2[a] == s[ia]);
                assert(s2[b] == s[ib]);
                assert(ia != ib);
                assert(s[ia] != s[ib]);
            }
            assert forall|i: int| 0 <= i < s2.len() implies #[trigger] procs@[nr_index(s2[i])].p_nextready == link_of(s2, i) by {
                let j = if i < k { i } else { i + 1 };
                assert(s2[i] == s[j]);
                assert(valid_nr(s[j]));
                assert(s[j] != nr);
                assert(nr_index(s[j]) != nr_index(nr));
                if k > 0 && i == k - 1 {
                    assert(procs@[nr_index(s2[i])].p_nextready == link_of(s, k));
                } else {
                    if k > 0 {
                        assert(s[j] != s[k - 1]);
                        assert(nr_index(s[j]) != nr_index(s[k - 1]));
                    }
                    assert(procs@[nr_index(s2[i])] == old_procs[nr_index(s[j])]);
                    if i + 1 < s2.len() {
                        if i + 1 < k {
                            assert(s2[i + 1] == s[j + 1]);
                        } else {
                            assert(s2[i + 1] == s[j + 1]);
                        }
                    }
                }
            }
            if s2.len() > 0 {
                if k == 0 {
                    assert(s2[0] == s[1]);
                } else {
                    assert(s2[0] == s[0]);
                }
                if k == s.len() - 1 {
                    assert(s2.last() == s[k - 1]);
                } else {
                    assert(s2.last() == s.last());
                    assert(s.last() != nr);
                }
            }
        }
        Ghost(k)
    }

    /// Whether queue `prio` is empty.
    pub fn is_queue_empty(&self, prio: usize) -> (r: bool)
        requires
            self.wf(),
            prio < priority::NR_SCHED_QUEUES,
        ensures
            r == self.heads()[prio as int].is_none(),
    {
        self.run_q_head[prio].is_none()
    }

    /// The head of queue `prio`.
    pub fn queue_head(&self, prio: usize) -> (r: Option<ProcNr>)
        requires
            self.wf(),
            prio < priority::NR_SCHED_QUEUES,
        ensures
            r == self.heads()[prio as int],
    {
        self.run_q_head[prio]
    }

    /// The tail of queue `prio`.
    pub fn queue_tail(&self, prio: usize) -> (r: Option<ProcNr>)
        requires
            self.wf(),
            prio < priority::NR_SCHED_QUEUES,
        ensures
            r == self.tails()[prio as int],
    {
        self.run_q_tail[prio]
    }
}

/// `a` equals `b` but for its ready-queue link.
pub open spec fn same_but_link(a: KProcess, b: KProcess) -> bool {
    a == (KProcess { p_nextready: a.p_nextready, ..b })
}

// ── Scheduling-parameter update ──

/// New scheduling parameters; `None` keeps the current value.
#[derive(Debug, Clone, Copy)]
pub struct SchedParams {
    pub priority: Option<u8>,
    pub quantum: Option<u32>,
    pub cpu: Option<u32>,
    pub niced: bool,
}

/// Errors of `sched_proc`.
#[derive(Debug, Clone, Copy, PartialEq, Eq, Structural)]
pub enum SchedProcError {
    /// A priority above `MIN_USER_Q` or a zero quantum.
    InvalidArgument,
    /// The requested CPU is not ready.
    BadCpu,
}

/// Whether the parameters are out of range.
pub open spec fn sched_params_invalid(params: SchedParams) -> bool {
    ||| (params.priority.is_some() && params.priority.unwrap() > priority::MIN_USER_Q)
    ||| (params.quantum.is_some() && params.quantum.unwrap() < 1)
}

/// Update the scheduling parameters of `p`.
///
/// Out-of-range parameters are refused with `InvalidArgument` and leave
/// `p` unchanged. Otherwise each given value is stored (a new quantum
/// also refills the time left), `NICED` follows `niced`, and
/// `NO_QUANTUM` ends up cleared.
pub fn sched_proc(p: &mut KProcess, params: SchedParams, clock: &ClockState) -> (r: Result<(), SchedProcError>)
    ensures
        r.is_err() <==> sched_params_invalid(params),
        match r {
            Err(e) => e == SchedProcError::InvalidArgument && *final(p) == *old(p),
            Ok(_) => {
                &&& final(p).p_sched.priority == (if params.priority.is_some() { params.priority.unwrap() } else { old(p).p_sched.priority })
                &&& final(p).p_sched.quantum.size_ms == (if params.quantum.is_some() { params.quantum.unwrap() } else { old(p).p_sched.quantum.size_ms })
                &&& final(p).p_sched.quantum.cpu_time_left == (if params.quantum.is_some() {
                wmul64(params.quantum.unwrap() as u64, clock.tsc_per_ms)
            } else {
                old(p).p_sched.quantum.cpu_time_left
            })
                &&& final(p).p_sched.cpu == (if params.cpu.is_some() { params.cpu.unwrap() } else { old(p).p_sched.cpu })
                &&& final(p).p_misc_flags@ == (if params.niced { old(p).p_misc_flags@ | mf::NICED } else { old(p).p_misc_flags@ & !mf::NICED })
                &&& final(p).p_rts_flags@ == old(p).p_rts_flags@ & !rts::NO_QUANTUM
                &&& final(p).p_nr == old(p).p_nr
                &&& final(p).p_endpoint == old(p).p_endpoint
                &&& final(p).p_nextready == old(p).p_nextready
                &&& final(p).p_sched.scheduler == old(p).p_sched.scheduler
                &&& final(p).p_accounting == old(p).p_accounting
            },
        },
{
    if let Some(v) = params.priority {
        if v > priority::MIN_USER_Q {
            return Err(SchedProcError::InvalidArgument);
        }
    }
    if let Some(v) = params.quantum {
        if v < 1 {
            return Err(SchedProcError::InvalidArgument);
        }
    }
    let ghost r0 = p.p_rts_flags@;
    let priority_changed = match params.priority {
        Some(v) => v != p.p_sched.priority,
        None => false,
    };
    let quantum_changed = params.quantum.is_some();
    if priority_changed || quantum_changed {
        p.p_rts_flags.set(rts::NO_QUANTUM);
    }
    if let Some(v) = params.priority {
        p.p_sched.priority = v;
    }
    if let Some(v) = params.quantum {
        p.p_sched.quantum.size_ms = v;
        p.p_sched.quantum.cpu_time_left = clock.ms_to_cpu_time(v);
    }
    if let Some(v) = params.cpu {
        p.p_sched.cpu = v;
    }
    if params.niced {
        p.p_misc_flags.set(mf::NICED);
    } else {
        p.p_misc_flags.clear(mf::NICED);
    }
    p.p_rts_flags.clear(rts::NO_QUANTUM);
    proof {
        assert((r0 | rts::NO_QUANTUM) & !rts::NO_QUANTUM == r0 & !rts::NO_QUANTUM) by (bit_vector);
    }
    Ok(())
}

/// The errno value of a `sched_proc` error: `EINVAL` (22) or `EBADCPU` (42).
pub fn sched_proc_error_to_errno(err: SchedProcError) -> (r: i32)
    ensures
        r == (match err {
            SchedProcError::InvalidArgument => 22i32,
            SchedProcError::BadCpu => 42i32,
        }),
{
    match err {
        SchedProcError::InvalidArgument => 22,
        SchedProcError::BadCpu => 42,
    }
}

/// Preemptible: any priority but `TASK_Q`.
pub fn is_preemptible(p: &KProcess) -> (r: bool)
    ensures
        r == (crate::proc::effective_priority(p.p_sched.priority) != priority::TASK_Q),
{
    let prio = p.get_priority().get();
    prio != priority::TASK_Q
}

/// Scheduled by the kernel: no user-space scheduler, or itself.
pub fn is_kernel_scheduled(p: &KProcess) -> (r: bool)
    ensures
        r == (p.p_sched.scheduler.is_none() || p.p_sched.scheduler == Some(p.p_nr)),
{
    match p.p_sched.scheduler {
        None => true,
        Some(s) => s == p.p_nr,
    }
}

/// Whether the quantum still has time left.
pub fn has_cpu_time_left(p: &KProcess) -> (r: bool)
    ensures
        r == (p.p_sched.quantum.cpu_time_left > 0),
{
    p.p_sched.quantum.cpu_time_left > 0
}

} // verus!
