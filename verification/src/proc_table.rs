//! The kernel process table: every process slot plus the ready queues.
//!
//! The table keeps, as ghost state, the content of each ready queue as a
//! sequence of process numbers. Its well-formedness (`wf`) says that the
//! queues are exactly the linked lists that the scheduler and the
//! `p_nextready` fields describe, and that every queued process is
//! runnable and sits in the queue of its own priority.
use vstd::prelude::*;
use vstd::string::StringSliceAdditionalSpecFns;
use crate::clock::ClockState;
use crate::proc::{effective_priority, mf, priority, proc_nr, rts, wadd32, wadd64, Accounting, CpuId, KProcess, name_from_bytes, ProcName, ProcNr, Quantum, SchedFields, NONE_PROC_NR};
use crate::sched::{link_of, nr_index, nr_to_idx, queue_linked, same_but_link, valid_nr, Scheduler, PROC_TABLE_SIZE};
use crate::types::{Endpoint, NR_TASKS};
use crate::ipc::without_sender;

verus! {

/// Number of user process slots.
pub const NR_PROCS: usize = 256;
/// Number of system (privileged) processes.
pub const NR_SYS_PROCS: usize = 64;

/// `s` without its element `x` (unchanged when `x` is absent).
pub open spec fn seq_without(s: Seq<ProcNr>, x: ProcNr) -> Seq<ProcNr> {
    if s.contains(x) {
        s.remove(s.index_of(x))
    } else {
        s
    }
}

/// The message that tells a user-space scheduler that one of its
/// processes ran out of quantum, with the process's statistics.
#[derive(Debug, Clone, Copy, PartialEq, Eq, Structural)]
pub struct NoQuantumNotice {
    /// Endpoint of the scheduler to notify.
    pub scheduler: Endpoint,
    /// Endpoint of the process that ran out of quantum.
    pub source: Endpoint,
    /// Time spent in ready queues, in milliseconds.
    pub acnt_queue: u64,
    pub acnt_deqs: u32,
    pub acnt_ipc_sync: u32,
    pub acnt_ipc_async: u32,
    pub acnt_preempt: u32,
    /// The CPU the process ran on.
    pub acnt_cpu: u32,
    /// Load of that CPU, in percent.
    pub acnt_cpu_load: u32,
}

/// The kernel process table.
pub struct ProcessTable {
    procs: Vec<KProcess>,
    sched: Scheduler,
    clock: ClockState,
    notices: Vec<NoQuantumNotice>,
    queues: Ghost<Seq<Seq<ProcNr>>>,
}

impl ProcessTable {
    /// The process slots, by index.
    pub closed spec fn slots(&self) -> Seq<KProcess> {
        self.procs@
    }

    /// The slot of process `nr`.
    pub open spec fn slot(&self, nr: ProcNr) -> KProcess {
        self.slots()[nr_index(nr)]
    }

    /// The content of each ready queue, from head to tail.
    pub closed spec fn queues(&self) -> Seq<Seq<ProcNr>> {
        self.queues@
    }

    /// Queue `q`.
    pub open spec fn queue(&self, q: int) -> Seq<ProcNr> {
        self.queues()[q]
    }

    /// The embedded scheduler.
    pub closed spec fn sched_spec(&self) -> Scheduler {
        self.sched
    }

    /// The clock readings the table uses.
    pub closed spec fn clock_spec(&self) -> ClockState {
        self.clock
    }

    /// Scheduler notices not yet handed out.
    pub closed spec fn pending_notices(&self) -> Seq<NoQuantumNotice> {
        self.notices@
    }

    /// Whether `nr` is in some ready queue.
    pub open spec fn is_queued(&self, nr: ProcNr) -> bool {
        exists|q: int| 0 <= q < priority::NR_SCHED_QUEUES && #[trigger] self.queue(q).contains(nr)
    }

    /// Well-formedness: the ghost queues are the linked lists that the
    /// scheduler and the slots describe, and every queued process is a
    /// runnable process in the queue of its own priority.
    pub open spec fn wf(&self) -> bool {
        tables_wf(self.sched_spec(), self.slots(), self.queues())
    }

    /// A queued process is in exactly the queue of its priority.
    pub proof fn lemma_queued_in_own_queue(&self, nr: ProcNr, q: int)
        requires
            self.wf(),
            0 <= q < priority::NR_SCHED_QUEUES,
            self.queue(q).contains(nr),
        ensures
            q == effective_priority(self.slot(nr).p_sched.priority),
            self.slot(nr).p_rts_flags@ == 0,
            valid_nr(nr),
            nr.0 != NONE_PROC_NR,
    {
        let i = self.queue(q).index_of(nr);
        assert(self.slots()[nr_index(self.queues()[q][i])].p_rts_flags@ == 0);
        assert(queue_linked(self.sched_spec().heads(), self.sched_spec().tails(), self.slots(), q, self.queue(q)));
        assert(valid_nr(self.queue(q)[i]));
    }

    /// The initial table: every slot free, process numbers `-NR_TASKS..`,
    /// endpoint equal to the process number; the idle task is stopped
    /// rather than free and is named "IDLE"; every queue is empty.
    pub fn new() -> (r: ProcessTable)
        ensures
            r.wf(),
            forall|q: int| 0 <= q < priority::NR_SCHED_QUEUES ==> #[trigger] r.queue(q).len() == 0,
            forall|i: int| 0 <= i < PROC_TABLE_SIZE && i != 1 ==> #[trigger] r.slots()[i].is_fresh(
                ProcNr((i - NR_TASKS) as i32),
                Endpoint((i - NR_TASKS) as i32),
                rts::SLOT_FREE,
            ),
            r.slots()[1].p_nr == ProcNr(proc_nr::IDLE),
            r.slots()[1].p_endpoint == Endpoint(proc_nr::IDLE),
            r.slots()[1].p_rts_flags@ == rts::PROC_STOP,
            r.slots()[1].p_name@ == seq![73u8, 68u8, 76u8, 69u8, 0u8, 0u8, 0u8, 0u8, 0u8, 0u8, 0u8, 0u8, 0u8, 0u8, 0u8, 0u8],
            r.clock_spec() == ClockState::new_spec(),
            r.pending_notices().len() == 0,
    {
        let mut procs: Vec<KProcess> = Vec::new();
        let mut i: usize = 0;
        while i < PROC_TABLE_SIZE
            invariant
                i <= PROC_TABLE_SIZE,
                procs@.len() == i,
                forall|j: int| 0 <= j < i ==> #[trigger] procs@[j].is_fresh(
                    ProcNr((j - NR_TASKS) as i32),
                    Endpoint((j - NR_TASKS) as i32),
                    rts::SLOT_FREE,
                ),
            decreases PROC_TABLE_SIZE - i,
        {
            let nr: i32 = i as i32 - 5;
            let ep = Endpoint::from_generation_slot(0, nr);
            procs.push(KProcess::new(ProcNr(nr), ep));
            i = i + 1;
        }
        assert(procs@[1].is_fresh(ProcNr((1 - NR_TASKS) as i32), Endpoint((1 - NR_TASKS) as i32), rts::SLOT_FREE));
        procs[1].p_rts_flags = crate::proc::RtsFlags::with_raw_bits(rts::PROC_STOP);
        procs[1].p_name = ProcName::from_array([73u8, 68u8, 76u8, 69u8, 0u8, 0u8, 0u8, 0u8, 0u8, 0u8, 0u8, 0u8, 0u8, 0u8, 0u8, 0u8]);
        let sched = Scheduler::new();
        let ghost qs = Seq::new(priority::NR_SCHED_QUEUES as nat, |q: int| Seq::<ProcNr>::empty());
        let r = ProcessTable { procs, sched, clock: ClockState::new(), notices: Vec::new(), queues: Ghost(qs) };
        assert(r.slots()[1].p_name@ =~= seq![73u8, 68u8, 76u8, 69u8, 0u8, 0u8, 0u8, 0u8, 0u8, 0u8, 0u8, 0u8, 0u8, 0u8, 0u8, 0u8]);
        r
    }

    /// Replace the clock readings.
    pub fn set_clock(&mut self, clock: ClockState)
        requires
            old(self).wf(),
        ensures
            final(self).wf(),
            final(self).clock_spec() == clock,
            final(self).slots() == old(self).slots(),
            final(self).queues() == old(self).queues(),
            final(self).sched_spec() == old(self).sched_spec(),
    {
        self.clock = clock;
        assert(self.slots() == old(self).slots());
        assert(self.queues() == old(self).queues());
        assert(self.sched_spec() == old(self).sched_spec());
    }

    /// The clock readings.
    pub fn clock(&self) -> (r: &ClockState)
        ensures
            *r == self.clock_spec(),
    {
        &self.clock
    }

    /// The slot of process `nr`, or `None` when `nr` is out of range.
    pub fn get(&self, nr: ProcNr) -> (r: Option<&KProcess>)
        requires
            self.slots().len() == PROC_TABLE_SIZE,
        ensures
            r.is_some() == valid_nr(nr),
            r.is_some() ==> *r.unwrap() == self.slot(nr),
    {
        match nr_to_idx(nr) {
            Some(idx) => Some(&self.procs[idx]),
            None => None,
        }
    }

    /// The slot of process `nr` for update, or `None` when out of range.
    /// Changes made through it bypass the ready queues.
    pub fn get_mut(&mut self, nr: ProcNr) -> (r: Option<&mut KProcess>)
        requires
            old(self).slots().len() == PROC_TABLE_SIZE,
        ensures
            r.is_some() == valid_nr(nr),
            r.is_some() ==> *r.unwrap() == old(self).slot(nr),
            r.is_some() ==> final(self).slots() == old(self).slots().update(nr_index(nr), *final(r.unwrap())),
            r.is_none() ==> final(self).slots() == old(self).slots(),
            final(self).slots().len() == PROC_TABLE_SIZE,
            final(self).queues() == old(self).queues(),
            final(self).sched_spec() == old(self).sched_spec(),
            final(self).clock_spec() == old(self).clock_spec(),
    {
        match nr_to_idx(nr) {
            Some(idx) => Some(&mut self.procs[idx]),
            None => None,
        }
    }

    /// Whether `nr` names a slot of the table.
    pub fn is_valid_nr(nr: ProcNr) -> (r: bool)
        ensures
            r == valid_nr(nr),
    {
        nr_to_idx(nr).is_some()
    }

    /// Whether slot `nr` is free: its named flags are exactly `SLOT_FREE`.
    pub fn is_empty(&self, nr: ProcNr) -> (r: bool)
        requires
            self.slots().len() == PROC_TABLE_SIZE,
        ensures
            r == (valid_nr(nr) && self.slot(nr).p_rts_flags@ & rts::ALL == rts::SLOT_FREE),
    {
        match self.get(nr) {
            Some(p) => p.p_rts_flags.get() == rts::SLOT_FREE,
            None => false,
        }
    }

    /// Kernel tasks have negative process numbers.
    pub fn is_kernel(nr: ProcNr) -> (r: bool)
        ensures
            r == (nr.0 < 0),
    {
        nr.0 < 0
    }

    /// The embedded scheduler.
    pub fn scheduler(&self) -> (r: &Scheduler)
        ensures
            *r == self.sched_spec(),
    {
        &self.sched
    }

    /// The scheduler of CPU `cpu_id` (one scheduler serves every CPU).
    pub fn sched_for_cpu(&self, cpu_id: CpuId) -> (r: &Scheduler)
        ensures
            *r == self.sched_spec(),
    {
        &self.sched
    }

    /// The process slots as a slice.
    pub fn procs_slice(&self) -> (r: &[KProcess])
        ensures
            r@ == self.slots(),
    {
        self.procs.as_slice()
    }

    /// The process number of the first occupied slot whose endpoint is
    /// `endpoint`.
    pub fn endpoint_to_nr(&self, endpoint: Endpoint) -> (r: Option<ProcNr>)
        requires
            self.slots().len() == PROC_TABLE_SIZE,
        ensures
            match r {
                Some(nr) => exists|i: int| 0 <= i < PROC_TABLE_SIZE
                    && slot_matches(self.slots()[i], endpoint)
                    && self.slots()[i].p_nr == nr
                    && forall|j: int| 0 <= j < i ==> !#[trigger] slot_matches(self.slots()[j], endpoint),
                None => forall|j: int| 0 <= j < PROC_TABLE_SIZE ==> !#[trigger] slot_matches(self.slots()[j], endpoint),
            },
            r == endpoint_lookup(self.slots(), endpoint),
    {
        let mut i: usize = 0;
        while i < PROC_TABLE_SIZE
            invariant
                i <= PROC_TABLE_SIZE,
                self.slots().len() == PROC_TABLE_SIZE,
                forall|j: int| 0 <= j < i ==> !#[trigger] slot_matches(self.slots()[j], endpoint),
            decreases PROC_TABLE_SIZE - i,
        {
            let p = &self.procs[i];
            if p.p_endpoint == endpoint && p.p_rts_flags.get() != rts::SLOT_FREE {
                proof {
                    lemma_first_match(self.slots(), endpoint, 0);
                    let k = first_match(self.slots(), endpoint, 0);
                    assert(slot_matches(self.slots()[i as int], endpoint));
                    if k < i {
                        assert(!slot_matches(self.slots()[k], endpoint));
                    }
                    if k > i {
                        assert(!slot_matches(self.slots()[i as int], endpoint));
                    }
                }
                return Some(p.p_nr);
            }
            i = i + 1;
        }
        proof {
            lemma_first_match(self.slots(), endpoint, 0);
            let k = first_match(self.slots(), endpoint, 0);
            if k < PROC_TABLE_SIZE {
                assert(!slot_matches(self.slots()[k], endpoint));
            }
        }
        None
    }
}

/// The index of the first slot of `slots` at or after `i` that is
/// occupied with endpoint `ep`, or `slots.len()`.
pub open spec fn first_match(slots: Seq<KProcess>, ep: Endpoint, i: int) -> int
    decreases slots.len() - i,
{
    if i < 0 || i >= slots.len() {
        slots.len() as int
    } else if slot_matches(slots[i], ep) {
        i
    } else {
        first_match(slots, ep, i + 1)
    }
}

/// The process number of the first occupied slot with endpoint `ep`.
pub open spec fn endpoint_lookup(slots: Seq<KProcess>, ep: Endpoint) -> Option<ProcNr> {
    let k = first_match(slots, ep, 0);
    if k < slots.len() {
        Some(slots[k].p_nr)
    } else {
        None
    }
}

pub proof fn lemma_first_match(slots: Seq<KProcess>, ep: Endpoint, k: int)
    requires
        0 <= k <= slots.len(),
    ensures
        k <= first_match(slots, ep, k) <= slots.len(),
        first_match(slots, ep, k) < slots.len() ==> slot_matches(slots[first_match(slots, ep, k)], ep),
        forall|j: int| k <= j < first_match(slots, ep, k) ==> !#[trigger] slot_matches(slots[j], ep),
    decreases slots.len() - k,
{
    if k < slots.len() && !slot_matches(slots[k], ep) {
        lemma_first_match(slots, ep, k + 1);
    }
}

/// The ready queues after appending `nr` to queue `q`.
pub open spec fn queues_enqueued(qs: Seq<Seq<ProcNr>>, q: int, nr: ProcNr) -> Seq<Seq<ProcNr>> {
    qs.update(q, qs[q].push(nr))
}

/// The ready queues after putting `nr` at the head of queue `q`.
pub open spec fn queues_enqueued_head(qs: Seq<Seq<ProcNr>>, q: int, nr: ProcNr) -> Seq<Seq<ProcNr>> {
    qs.update(q, seq![nr] + qs[q])
}

/// The ready queues after removing `nr` from queue `q`.
pub open spec fn queues_dequeued(qs: Seq<Seq<ProcNr>>, q: int, nr: ProcNr) -> Seq<Seq<ProcNr>> {
    qs.update(q, seq_without(qs[q], nr))
}

/// In a sequence without duplicates, the index of an element is its
/// position.
pub proof fn lemma_index_of_unique(s: Seq<ProcNr>, k: int)
    requires
        s.no_duplicates(),
        0 <= k < s.len(),
    ensures
        s.contains(s[k]),
        s.index_of(s[k]) == k,
{
    assert(s.contains(s[k]));
    let j = s.index_of(s[k]);
    assert(0 <= j < s.len() && s[j] == s[k]);
}

/// A process is in at most one ready queue.
pub proof fn lemma_queues_disjoint(sched: Scheduler, procs: Seq<KProcess>, qs: Seq<Seq<ProcNr>>, p: int, q: int, x: ProcNr)
    requires
        tables_wf(sched, procs, qs),
        0 <= p < priority::NR_SCHED_QUEUES,
        0 <= q < priority::NR_SCHED_QUEUES,
        qs[p].contains(x),
        qs[q].contains(x),
    ensures
        p == q,
{
    let i = qs[p].index_of(x);
    let j = qs[q].index_of(x);
    assert(procs[nr_index(qs[p][i])].p_rts_flags@ == 0);
    assert(procs[nr_index(qs[q][j])].p_rts_flags@ == 0);
    assert(effective_priority(procs[nr_index(qs[p][i])].p_sched.priority) == p);
    assert(effective_priority(procs[nr_index(qs[q][j])].p_sched.priority) == q);
}

/// After removing a queued process from its queue it is in no queue.
pub proof fn lemma_dequeued_not_queued(sched: Scheduler, procs: Seq<KProcess>, qs: Seq<Seq<ProcNr>>, q: int, nr: ProcNr)
    requires
        tables_wf(sched, procs, qs),
        0 <= q < priority::NR_SCHED_QUEUES,
        qs[q].contains(nr),
    ensures
        forall|p: int| 0 <= p < priority::NR_SCHED_QUEUES ==> !(#[trigger] queues_dequeued(qs, q, nr)[p]).contains(nr),
{
    let s = qs[q];
    assert(queue_linked(sched.heads(), sched.tails(), procs, q, s));
    let k = s.index_of(nr);
    assert forall|p: int| 0 <= p < priority::NR_SCHED_QUEUES implies !(#[trigger] queues_dequeued(qs, q, nr)[p]).contains(nr) by {
        if p == q {
            let s2 = s.remove(k);
            if s2.contains(nr) {
                let j = s2.index_of(nr);
                if j < k {
                    assert(s2[j] == s[j]);
                } else {
                    assert(s2[j] == s[j + 1]);
                }
            }
        } else {
            if qs[p].contains(nr) {
                lemma_queues_disjoint(sched, procs, qs, p, q, nr);
            }
        }
    }
}

/// Appending a process and removing it again gives back the queue.
pub proof fn lemma_push_then_without(s: Seq<ProcNr>, nr: ProcNr)
    requires
        !s.contains(nr),
    ensures
        seq_without(s.push(nr), nr) == s,
{
    let t = s.push(nr);
    assert(t.contains(nr)) by {
        assert(t[s.len() as int] == nr);
    }
    let j = t.index_of(nr);
    assert(j == s.len()) by {
        if j < s.len() {
            assert(t[j] == s[j]);
            assert(s.contains(nr));
        }
    }
    assert(t.remove(j) =~= s);
}

/// Law (round trip): a process that is in no ready queue, appended to
/// queue `q` and then removed from it, leaves the ready queues as they
/// were.
pub proof fn law_enqueue_then_dequeue(qs: Seq<Seq<ProcNr>>, q: int, nr: ProcNr)
    requires
        0 <= q < qs.len(),
        !qs[q].contains(nr),
    ensures
        queues_dequeued(queues_enqueued(qs, q, nr), q, nr) == qs,
{
    lemma_push_then_without(qs[q], nr);
    assert(queues_dequeued(queues_enqueued(qs, q, nr), q, nr) =~= qs);
}

/// Law (FIFO): of two processes appended to the same queue one after the
/// other, the first comes before the second.
pub proof fn law_enqueue_fifo(qs: Seq<Seq<ProcNr>>, q: int, a: ProcNr, b: ProcNr)
    requires
        0 <= q < qs.len(),
    ensures
        queues_enqueued(queues_enqueued(qs, q, a), q, b)[q] == qs[q] + seq![a, b],
{
    assert(queues_enqueued(queues_enqueued(qs, q, a), q, b)[q] =~= qs[q] + seq![a, b]);
}

/// The ready queues `qs` are the linked lists that `sched` and `procs`
/// describe, and every queued process is runnable and in the queue of its
/// own priority.
pub open spec fn tables_wf(sched: Scheduler, procs: Seq<KProcess>, qs: Seq<Seq<ProcNr>>) -> bool {
    &&& procs.len() == PROC_TABLE_SIZE
    &&& sched.wf()
    &&& qs.len() == priority::NR_SCHED_QUEUES
    &&& forall|q: int| 0 <= q < priority::NR_SCHED_QUEUES ==> #[trigger] queue_linked(sched.heads(), sched.tails(), procs, q, qs[q])
    &&& forall|q: int, i: int| 0 <= q < priority::NR_SCHED_QUEUES && 0 <= i < qs[q].len()
        ==> #[trigger] procs[nr_index(qs[q][i])].p_rts_flags@ == 0
            && effective_priority(procs[nr_index(qs[q][i])].p_sched.priority) == q
}

/// Changing slots only in fields the ready queues do not read (anything
/// but the link, the runtime flags and the priority) keeps the table
/// well formed.
pub proof fn lemma_wf_frame(sched: Scheduler, procs: Seq<KProcess>, procs2: Seq<KProcess>, qs: Seq<Seq<ProcNr>>)
    requires
        tables_wf(sched, procs, qs),
        procs2.len() == procs.len(),
        forall|i: int| 0 <= i < procs.len() ==> #[trigger] procs2[i].p_nextready == procs[i].p_nextready
            && procs2[i].p_rts_flags@ == procs[i].p_rts_flags@
            && procs2[i].p_sched.priority == procs[i].p_sched.priority,
    ensures
        tables_wf(sched, procs2, qs),
{
    assert forall|q: int| 0 <= q < priority::NR_SCHED_QUEUES implies #[trigger] queue_linked(sched.heads(), sched.tails(), procs2, q, qs[q]) by {
        assert(queue_linked(sched.heads(), sched.tails(), procs, q, qs[q]));
        assert forall|i: int| 0 <= i < qs[q].len() implies #[trigger] procs2[nr_index(qs[q][i])].p_nextready == link_of(qs[q], i) by {
            assert(valid_nr(qs[q][i]));
            assert(procs[nr_index(qs[q][i])].p_nextready == link_of(qs[q], i));
        }
    }
    assert forall|q: int, i: int| 0 <= q < priority::NR_SCHED_QUEUES && 0 <= i < qs[q].len()
        implies #[trigger] procs2[nr_index(qs[q][i])].p_rts_flags@ == 0
            && effective_priority(procs2[nr_index(qs[q][i])].p_sched.priority) == q by {
        assert(queue_linked(sched.heads(), sched.tails(), procs, q, qs[q]));
        assert(valid_nr(qs[q][i]));
        assert(procs2[nr_index(qs[q][i])].p_nextready == procs[nr_index(qs[q][i])].p_nextready);
        assert(procs[nr_index(qs[q][i])].p_rts_flags@ == 0);
    }
}

/// Changing the slot of a process that is in no ready queue keeps the
/// table well formed.
pub proof fn lemma_wf_update_unqueued(sched: Scheduler, procs: Seq<KProcess>, qs: Seq<Seq<ProcNr>>, nr: ProcNr, p: KProcess)
    requires
        tables_wf(sched, procs, qs),
        valid_nr(nr),
        forall|q: int| 0 <= q < priority::NR_SCHED_QUEUES ==> !(#[trigger] qs[q]).contains(nr),
    ensures
        tables_wf(sched, procs.update(nr_index(nr), p), qs),
{
    let procs2 = procs.update(nr_index(nr), p);
    assert forall|q: int, i: int| 0 <= q < priority::NR_SCHED_QUEUES && 0 <= i < qs[q].len()
        implies nr_index(#[trigger] qs[q][i]) != nr_index(nr) by {
        if qs[q][i] == nr {
            assert(qs[q].contains(nr));
        }
    }
    assert forall|q: int| 0 <= q < priority::NR_SCHED_QUEUES implies #[trigger] queue_linked(sched.heads(), sched.tails(), procs2, q, qs[q]) by {
        assert(queue_linked(sched.heads(), sched.tails(), procs, q, qs[q]));
        assert forall|i: int| 0 <= i < qs[q].len() implies #[trigger] procs2[nr_index(qs[q][i])].p_nextready == link_of(qs[q], i) by {
            assert(valid_nr(qs[q][i]));
            assert(nr_index(qs[q][i]) != nr_index(nr));
            assert(procs[nr_index(qs[q][i])].p_nextready == link_of(qs[q], i));
        }
    }
    assert forall|q: int, i: int| 0 <= q < priority::NR_SCHED_QUEUES && 0 <= i < qs[q].len()
        implies #[trigger] procs2[nr_index(qs[q][i])].p_rts_flags@ == 0
            && effective_priority(procs2[nr_index(qs[q][i])].p_sched.priority) == q by {
        assert(queue_linked(sched.heads(), sched.tails(), procs, q, qs[q]));
        assert(valid_nr(qs[q][i]));
        assert(nr_index(qs[q][i]) != nr_index(nr));
        assert(procs[nr_index(qs[q][i])].p_rts_flags@ == 0);
    }
}

impl ProcessTable {
    /// Append runnable, unqueued `nr` to the queue of its priority and
    /// link it behind the old tail. Returns the queue number.
    #[verifier::spinoff_prover]
    fn enqueue_tail_raw(&mut self, nr: ProcNr) -> (q: usize)
        requires
            old(self).wf(),
            valid_nr(nr),
            nr.0 != NONE_PROC_NR,
            !old(self).is_queued(nr),
            old(self).slot(nr).p_rts_flags@ == 0,
        ensures
            final(self).wf(),
            q == effective_priority(old(self).slot(nr).p_sched.priority),
            final(self).queues() == queues_enqueued(old(self).queues(), q as int, nr),
            forall|i: int| 0 <= i < PROC_TABLE_SIZE ==> same_but_link(#[trigger] final(self).slots()[i], old(self).slots()[i]),
            final(self).slot(nr).p_nextready == NONE_PROC_NR,
            final(self).clock_spec() == old(self).clock_spec(),
            final(self).pending_notices() == old(self).pending_notices(),
    {
        let ghost old_procs = self.procs@;
        let ghost qs = self.queues@;
        let idx = (nr.0 + 5) as usize;
        let q = self.procs[idx].get_priority().get() as usize;
        let ghost s = qs[q as int];
        let ghost hs = self.sched.heads();
        let ghost ts = self.sched.tails();
        assert(queue_linked(hs, ts, old_procs, q as int, s));
        assert(!old(self).queue(q as int).contains(nr));
        let info = self.sched.enqueue_queue_tail(nr, q);
        self.procs[idx].p_nextready = NONE_PROC_NR;
        assert(forall|x: int| 0 <= x < PROC_TABLE_SIZE && x != idx ==> self.procs@[x] == old_procs[x]);
        let ghost mid = self.procs@;
        match info.old_tail {
            Some(tail_nr) => {
                assert(s.len() > 0);
                assert(valid_nr(s[s.len() - 1]));
                let t = (tail_nr.0 + 5) as usize;
                assert(tail_nr == s.last());
                assert(t != idx) by {
                    assert(s.contains(s.last()));
                    assert(!s.contains(nr));
                }
                self.procs[t].p_nextready = nr.0;
                assert(forall|x: int| 0 <= x < PROC_TABLE_SIZE && x != t ==> self.procs@[x] == mid[x]);
            },
            None => {},
        }
        let ghost s2 = s.push(nr);
        self.queues = Ghost(queues_enqueued(qs, q as int, nr));
        proof {
            assert(!s.contains(nr));
            let new_procs = self.procs@;
            assert forall|i: int| 0 <= i < PROC_TABLE_SIZE implies same_but_link(#[trigger] new_procs[i], old_procs[i]) by {
                if i == idx {
                } else if s.len() > 0 && i == nr_index(s.last()) {
                } else {
                    assert(new_procs[i] == old_procs[i]);
                }
            }
            // queue q
            assert forall|i: int| 0 <= i < s2.len() implies #[trigger] valid_nr(s2[i]) && s2[i].0 != NONE_PROC_NR by {
                if i < s.len() {
                    assert(s2[i] == s[i]);
                    assert(valid_nr(s[i]));
                }
            }
            assert forall|a: int, b: int| 0 <= a < s2.len() && 0 <= b < s2.len() && a != b implies s2[a] != s2[b] by {
                if a < s.len() && b < s.len() {
                    assert(s[a] != s[b]);
                } else if a < s.len() {
                    assert(s2[a] == s[a]);
                    assert(s.contains(s[a]));
                } else if b < s.len() {
                    assert(s2[b] == s[b]);
                    assert(s.contains(s[b]));
                }
            }
            assert forall|i: int| 0 <= i < s2.len() implies #[trigger] new_procs[nr_index(s2[i])].p_nextready == link_of(s2, i) by {
                if i < s.len() - 1 {
                    assert(s2[i] == s[i]);
                    assert(valid_nr(s[i]));
                    assert(s[i] != s.last());
                    assert(s.contains(s[i]));
                    assert(nr_index(s[i]) != idx);
                    assert(old_procs[nr_index(s[i])].p_nextready == link_of(s, i));
                    assert(s2[i + 1] == s[i + 1]);
                } else if i == s.len() - 1 {
                    assert(s2[i] == s[i]);
                }
            }
            assert(queue_linked(self.sched.heads(), self.sched.tails(), new_procs, q as int, s2));
            // other queues
            assert forall|p: int| 0 <= p < priority::NR_SCHED_QUEUES && p != q implies #[trigger] queue_linked(self.sched.heads(), self.sched.tails(), new_procs, p, self.queues@[p]) by {
                let sp = qs[p];
                assert(self.queues@[p] == sp);
                assert(queue_linked(hs, ts, old_procs, p, sp));
                assert forall|i: int| 0 <= i < sp.len() implies #[trigger] new_procs[nr_index(sp[i])].p_nextready == link_of(sp, i) by {
                    assert(valid_nr(sp[i]));
                    assert(sp.contains(sp[i]));
                    assert(sp[i] != nr) by {
                        if sp[i] == nr {
                            assert(qs[p].contains(nr));
                        }
                    }
                    if s.len() > 0 && sp[i] == s.last() {
                        assert(s.contains(s.last()));
                        lemma_queues_disjoint(old(self).sched, old_procs, qs, p, q as int, sp[i]);
                    }
                    assert(old_procs[nr_index(sp[i])].p_nextready == link_of(sp, i));
                }
            }
            assert forall|p: int| 0 <= p < priority::NR_SCHED_QUEUES implies #[trigger] queue_linked(self.sched.heads(), self.sched.tails(), new_procs, p, self.queues@[p]) by {
                if p == q {
                    assert(self.queues@[p] == s2);
                }
            }
            assert forall|p: int, i: int| 0 <= p < priority::NR_SCHED_QUEUES && 0 <= i < self.queues@[p].len()
                implies #[trigger] new_procs[nr_index(self.queues@[p][i])].p_rts_flags@ == 0
                    && effective_priority(new_procs[nr_index(self.queues@[p][i])].p_sched.priority) == p by {
                let x = self.queues@[p][i];
                assert(valid_nr(x)) by {
                    assert(queue_linked(self.sched.heads(), self.sched.tails(), new_procs, p, self.queues@[p]));
                }
                assert(same_but_link(new_procs[nr_index(x)], old_procs[nr_index(x)]));
                if p == q && i == s.len() {
                } else if p == q {
                    assert(x == s[i]);
                    assert(old_procs[nr_index(qs[p][i])].p_rts_flags@ == 0);
                } else {
                    assert(old_procs[nr_index(qs[p][i])].p_rts_flags@ == 0);
                }
            }
            assert(self.wf());
        }
        q
    }

    /// Put runnable, unqueued `nr` at the head of the queue of its
    /// priority. Returns the queue number.
    #[verifier::spinoff_prover]
    fn enqueue_head_raw(&mut self, nr: ProcNr) -> (q: usize)
        requires
            old(self).wf(),
            valid_nr(nr),
            nr.0 != NONE_PROC_NR,
            !old(self).is_queued(nr),
            old(self).slot(nr).p_rts_flags@ == 0,
        ensures
            final(self).wf(),
            q == effective_priority(old(self).slot(nr).p_sched.priority),
            final(self).queues() == queues_enqueued_head(old(self).queues(), q as int, nr),
            forall|i: int| 0 <= i < PROC_TABLE_SIZE ==> same_but_link(#[trigger] final(self).slots()[i], old(self).slots()[i]),
            forall|i: int| 0 <= i < PROC_TABLE_SIZE && i != nr_index(nr) ==> #[trigger] final(self).slots()[i] == old(self).slots()[i],
            final(self).clock_spec() == old(self).clock_spec(),
            final(self).pending_notices() == old(self).pending_notices(),
    {
        let ghost old_procs = self.procs@;
        let ghost qs = self.queues@;
        let idx = (nr.0 + 5) as usize;
        let q = self.procs[idx].get_priority().get() as usize;
        let ghost s = qs[q as int];
        let ghost hs = self.sched.heads();
        let ghost ts = self.sched.tails();
        assert(queue_linked(hs, ts, old_procs, q as int, s));
        assert(!old(self).queue(q as int).contains(nr));
        let old_head = self.sched.queue_head(q);
        self.sched.enqueue_queue_head(nr, q);
        let link: i32 = match old_head {
            Some(h) => h.0,
            None => NONE_PROC_NR,
        };
        self.procs[idx].p_nextready = link;
        assert(forall|x: int| 0 <= x < PROC_TABLE_SIZE && x != idx ==> self.procs@[x] == old_procs[x]);
        let ghost s2 = seq![nr] + s;
        self.queues = Ghost(queues_enqueued_head(qs, q as int, nr));
        proof {
            let new_procs = self.procs@;
            assert forall|i: int| 0 <= i < PROC_TABLE_SIZE implies same_but_link(#[trigger] new_procs[i], old_procs[i]) by {
                if i != idx {
                    assert(new_procs[i] == old_procs[i]);
                }
            }
            assert forall|i: int| 0 <= i < s2.len() implies #[trigger] valid_nr(s2[i]) && s2[i].0 != NONE_PROC_NR by {
                if i > 0 {
                    assert(s2[i] == s[i - 1]);
                    assert(valid_nr(s[i - 1]));
                }
            }
            assert forall|a: int, b: int| 0 <= a < s2.len() && 0 <= b < s2.len() && a != b implies s2[a] != s2[b] by {
                if a > 0 && b > 0 {
                    assert(s[a - 1] != s[b - 1]);
                } else if a > 0 {
                    assert(s2[a] == s[a - 1]);
                    assert(s.contains(s[a - 1]));
                } else if b > 0 {
                    assert(s2[b] == s[b - 1]);
                    assert(s.contains(s[b - 1]));
                }
            }
            assert forall|i: int| 0 <= i < s2.len() implies #[trigger] new_procs[nr_index(s2[i])].p_nextready == link_of(s2, i) by {
                if i > 0 {
                    assert(s2[i] == s[i - 1]);
                    assert(valid_nr(s[i - 1]));
                    assert(s.contains(s[i - 1]));
                    assert(nr_index(s[i - 1]) != idx);
                    assert(old_procs[nr_index(s[i - 1])].p_nextready == link_of(s, i - 1));
                    if i + 1 < s2.len() {
                        assert(s2[i + 1] == s[i]);
                    }
                } else {
                    if s.len() > 0 {
                        assert(s2[1] == s[0]);
                    }
                }
            }
            if s.len() > 0 {
                assert(s2.last() == s.last());
            }
            assert(queue_linked(self.sched.heads(), self.sched.tails(), new_procs, q as int, s2));
            assert forall|p: int| 0 <= p < priority::NR_SCHED_QUEUES && p != q implies #[trigger] queue_linked(self.sched.heads(), self.sched.tails(), new_procs, p, self.queues@[p]) by {
                let sp = qs[p];
                assert(self.queues@[p] == sp);
                assert(queue_linked(hs, ts, old_procs, p, sp));
                assert forall|i: int| 0 <= i < sp.len() implies #[trigger] new_procs[nr_index(sp[i])].p_nextready == link_of(sp, i) by {
                    assert(valid_nr(sp[i]));
                    assert(sp[i] != nr) by {
                        if sp[i] == nr {
                            assert(sp.contains(nr));
                            assert(qs[p].contains(nr));
                        }
                    }
                    assert(old_procs[nr_index(sp[i])].p_nextready == link_of(sp, i));
                }
            }
            assert forall|p: int| 0 <= p < priority::NR_SCHED_QUEUES implies #[trigger] queue_linked(self.sched.heads(), self.sched.tails(), new_procs, p, self.queues@[p]) by {
                if p == q {
                    assert(self.queues@[p] == s2);
                }
            }
            assert forall|p: int, i: int| 0 <= p < priority::NR_SCHED_QUEUES && 0 <= i < self.queues@[p].len()
                implies #[trigger] new_procs[nr_index(self.queues@[p][i])].p_rts_flags@ == 0
                    && effective_priority(new_procs[nr_index(self.queues@[p][i])].p_sched.priority) == p by {
                let x = self.queues@[p][i];
                assert(valid_nr(x)) by {
                    assert(queue_linked(self.sched.heads(), self.sched.tails(), new_procs, p, self.queues@[p]));
                }
                assert(same_but_link(new_procs[nr_index(x)], old_procs[nr_index(x)]));
                if p == q && i == 0 {
                } else if p == q {
                    assert(x == s[i - 1]);
                    assert(old_procs[nr_index(qs[p][i - 1])].p_rts_flags@ == 0);
                } else {
                    assert(old_procs[nr_index(qs[p][i])].p_rts_flags@ == 0);
                }
            }
            assert(self.wf());
        }
        q
    }

    /// Remove queued `nr` from the queue of its priority. Returns the
    /// queue number.
    #[verifier::spinoff_prover]
    fn dequeue_raw(&mut self, nr: ProcNr) -> (q: usize)
        requires
            old(self).wf(),
            old(self).is_queued(nr),
        ensures
            final(self).wf(),
            q == effective_priority(old(self).slot(nr).p_sched.priority),
            old(self).queue(q as int).contains(nr),
            valid_nr(nr),
            final(self).queues() == queues_dequeued(old(self).queues(), q as int, nr),
            forall|i: int| 0 <= i < PROC_TABLE_SIZE ==> same_but_link(#[trigger] final(self).slots()[i], old(self).slots()[i]),
            final(self).slot(nr).p_nextready == NONE_PROC_NR,
            final(self).clock_spec() == old(self).clock_spec(),
            final(self).pending_notices() == old(self).pending_notices(),
    {
        let ghost old_procs = self.procs@;
        let ghost qs = self.queues@;
        let ghost q0 = choose|q: int| 0 <= q < priority::NR_SCHED_QUEUES && #[trigger] self.queue(q).contains(nr);
        proof {
            self.lemma_queued_in_own_queue(nr, q0);
        }
        let idx = (nr.0 + 5) as usize;
        let q = self.procs[idx].get_priority().get() as usize;
        assert(q == q0);
        let ghost s = qs[q as int];
        let ghost hs = self.sched.heads();
        let ghost ts = self.sched.tails();
        assert(queue_linked(hs, ts, old_procs, q as int, s));
        let k = self.sched.dequeue_from_queue(nr, q, &mut self.procs, Ghost(s));
        let ghost s2 = s.remove(k@);
        proof {
            lemma_index_of_unique(s, k@);
        }
        self.queues = Ghost(queues_dequeued(qs, q as int, nr));
        proof {
            let new_procs = self.procs@;
            assert(self.queues@[q as int] == s2);
            assert forall|p: int| 0 <= p < priority::NR_SCHED_QUEUES && p != q implies #[trigger] queue_linked(self.sched.heads(), self.sched.tails(), new_procs, p, self.queues@[p]) by {
                let sp = qs[p];
                assert(self.queues@[p] == sp);
                assert(queue_linked(hs, ts, old_procs, p, sp));
                assert forall|i: int| 0 <= i < sp.len() implies #[trigger] new_procs[nr_index(sp[i])].p_nextready == link_of(sp, i) by {
                    assert(valid_nr(sp[i]));
                    assert(sp.contains(sp[i]));
                    if sp[i] == nr {
                        lemma_queues_disjoint(self.sched, old_procs, qs, p, q as int, nr);
                    }
                    if k@ > 0 && sp[i] == s[k@ - 1] {
                        assert(s.contains(s[k@ - 1]));
                        lemma_queues_disjoint(old(self).sched, old_procs, qs, p, q as int, sp[i]);
                    }
                    assert(old_procs[nr_index(sp[i])].p_nextready == link_of(sp, i));
                }
            }
            assert forall|p: int| 0 <= p < priority::NR_SCHED_QUEUES implies #[trigger] queue_linked(self.sched.heads(), self.sched.tails(), new_procs, p, self.queues@[p]) by {
            }
            assert forall|p: int, i: int| 0 <= p < priority::NR_SCHED_QUEUES && 0 <= i < self.queues@[p].len()
                implies #[trigger] new_procs[nr_index(self.queues@[p][i])].p_rts_flags@ == 0
                    && effective_priority(new_procs[nr_index(self.queues@[p][i])].p_sched.priority) == p by {
                let x = self.queues@[p][i];
                assert(valid_nr(x)) by {
                    assert(queue_linked(self.sched.heads(), self.sched.tails(), new_procs, p, self.queues@[p]));
                }
                assert(same_but_link(new_procs[nr_index(x)], old_procs[nr_index(x)]));
                if p == q {
                    let j = if i < k@ { i } else { i + 1 };
                    assert(x == s[j]);
                    assert(old_procs[nr_index(qs[p][j])].p_rts_flags@ == 0);
                } else {
                    assert(old_procs[nr_index(qs[p][i])].p_rts_flags@ == 0);
                }
            }
            assert(self.wf());
        }
        q
    }
}

/// The statistics after a dequeue at time stamp `tsc`.
pub open spec fn acct_after_dequeue(a: Accounting, tsc: u64) -> Accounting {
    Accounting {
        enter_queue: 0,
        time_in_queue: if a.enter_queue > 0 && tsc > a.enter_queue {
            wadd64(a.time_in_queue, (tsc - a.enter_queue) as u64)
        } else {
            a.time_in_queue
        },
        dequeues: wadd32(a.dequeues, 1),
        ipc_sync: a.ipc_sync,
        ipc_async: a.ipc_async,
        preempted: a.preempted,
    }
}

/// The statistics after an enqueue at time stamp `tsc`.
pub open spec fn acct_after_enqueue(a: Accounting, tsc: u64) -> Accounting {
    Accounting { enter_queue: tsc, ..a }
}

/// The statistics after a preempted process is put back at the head of
/// its queue at time stamp `tsc`: the dequeue it did not really make is
/// taken back and the preemption counted.
pub open spec fn acct_after_requeue_head(a: Accounting, tsc: u64) -> Accounting {
    Accounting {
        enter_queue: tsc,
        dequeues: vstd::wrapping::u32_specs::wrapping_sub(a.dequeues, 1),
        preempted: wadd32(a.preempted, 1),
        ..a
    }
}

/// Every queue of `qs` is empty.
pub open spec fn all_queues_empty(qs: Seq<Seq<ProcNr>>) -> bool {
    forall|q: int| 0 <= q < priority::NR_SCHED_QUEUES ==> #[trigger] qs[q].len() == 0
}

/// `x` is the head of the first non-empty queue of `qs`.
pub open spec fn is_first_head(qs: Seq<Seq<ProcNr>>, x: ProcNr) -> bool {
    exists|q: int| 0 <= q < priority::NR_SCHED_QUEUES && qs[q].len() > 0 && qs[q][0] == x
        && forall|p: int| 0 <= p < q ==> #[trigger] qs[p].len() == 0
}

/// `a` equals `b` but for its accounting, its dequeue time and its
/// ready-queue link.
pub open spec fn same_sched_state(a: KProcess, b: KProcess) -> bool {
    a == (KProcess { p_accounting: a.p_accounting, p_dequeued: a.p_dequeued, p_nextready: a.p_nextready, ..b })
}

/// Whether setting `flags` on `nr` takes it out of its ready queue: it was
/// runnable and queued, and some flag is set.
pub open spec fn rts_set_dequeues(pt: ProcessTable, nr: ProcNr, flags: u32) -> bool {
    pt.slot(nr).p_rts_flags@ == 0 && flags != 0 && pt.is_queued(nr)
}

/// The ready queues after setting `flags` on process `nr` whose slot was
/// `slot`: a runnable queued process that stops being runnable leaves its
/// queue.
pub open spec fn queues_after_rts_set(qs: Seq<Seq<ProcNr>>, slot: KProcess, nr: ProcNr, flags: u32) -> Seq<Seq<ProcNr>> {
    if slot.p_rts_flags@ == 0 && flags != 0
        && exists|q: int| 0 <= q < priority::NR_SCHED_QUEUES && #[trigger] qs[q].contains(nr) {
        queues_dequeued(qs, effective_priority(slot.p_sched.priority) as int, nr)
    } else {
        qs
    }
}

/// Whether enqueuing `nr` preempts the current process `cur` on CPU `cpu`:
/// `cur` runs on that CPU, is preemptible and has a lower priority (a
/// larger queue number).
pub open spec fn preempts(nr_slot: KProcess, cur_slot: KProcess, cpu: CpuId) -> bool {
    &&& cur_slot.p_sched.cpu == cpu.id()
    &&& effective_priority(cur_slot.p_sched.priority) > effective_priority(nr_slot.p_sched.priority)
    &&& effective_priority(cur_slot.p_sched.priority) != priority::TASK_Q
}

impl ProcessTable {
    /// Whether `nr` is in some ready queue, found by walking the queues.
    fn is_in_scheduler(&self, nr: ProcNr) -> (r: bool)
        requires
            self.wf(),
        ensures
            r == self.is_queued(nr),
    {
        let mut q: usize = 0;
        while q < 16
            invariant
                self.wf(),
                q <= 16,
                forall|p: int| 0 <= p < q ==> !(#[trigger] self.queue(p)).contains(nr),
            decreases 16 - q,
        {
            let ghost s = self.queues@[q as int];
            assert(queue_linked(self.sched.heads(), self.sched.tails(), self.procs@, q as int, s));
            let mut current = self.sched.queue_head(q);
            let ghost mut k: int = 0;
            while current.is_some()
                invariant
                    self.wf(),
                    q < 16,
                    s == self.queues@[q as int],
                    queue_linked(self.sched.heads(), self.sched.tails(), self.procs@, q as int, s),
                    0 <= k <= s.len(),
                    k < s.len() ==> current == Some(s[k]),
                    k == s.len() ==> current.is_none(),
                    forall|j: int| 0 <= j < k ==> s[j] != nr,
                decreases s.len() - k,
            {
                let cur = current.unwrap();
                if cur == nr {
                    proof {
                        assert(s[k] == nr);
                        assert(self.queue(q as int).contains(nr));
                    }
                    return true;
                }
                assert(valid_nr(s[k]));
                assert(self.procs@[nr_index(s[k])].p_nextready == link_of(s, k));
                let v = self.procs[(cur.0 + 5) as usize].p_nextready;
                proof {
                    if k + 1 < s.len() {
                        assert(valid_nr(s[k + 1]));
                    }
                }
                current = if v == NONE_PROC_NR { None } else { Some(ProcNr(v)) };
                proof {
                    k = k + 1;
                }
            }
            proof {
                if s.contains(nr) {
                    let j = s.index_of(nr);
                    assert(s[j] == nr);
                }
                assert(!self.queue(q as int).contains(nr));
            }
            q = q + 1;
        }
        false
    }

    /// Remove queued `nr` from its ready queue and account for the
    /// dequeue: the queue time is credited and the dequeue time recorded.
    pub fn sched_dequeue(&mut self, nr: ProcNr, cpu_id: CpuId)
        requires
            old(self).wf(),
            old(self).is_queued(nr),
        ensures
            final(self).wf(),
            valid_nr(nr),
            final(self).queues() == queues_dequeued(old(self).queues(), effective_priority(old(self).slot(nr).p_sched.priority) as int, nr),
            final(self).slot(nr).p_accounting == acct_after_dequeue(old(self).slot(nr).p_accounting, old(self).clock_spec().tsc),
            final(self).slot(nr).p_dequeued == old(self).clock_spec().uptime,
            same_sched_state(final(self).slot(nr), old(self).slot(nr)),
            forall|i: int| 0 <= i < PROC_TABLE_SIZE && i != nr_index(nr) ==> same_but_link(#[trigger] final(self).slots()[i], old(self).slots()[i]),
            final(self).clock_spec() == old(self).clock_spec(),
            final(self).pending_notices() == old(self).pending_notices(),
    {
        let _ = cpu_id;
        let _q = self.dequeue_raw(nr);
        let ghost mid = self.procs@;
        let idx = (nr.0 + 5) as usize;
        let tsc = self.clock.read_tsc();
        let now = self.clock.get_monotonic();
        self.procs[idx].p_accounting.record_dequeue(tsc);
        self.procs[idx].p_dequeued = now;
        proof {
            assert(self.procs@[idx as int].p_accounting =~= acct_after_dequeue(old(self).procs@[idx as int].p_accounting, tsc));
            assert forall|i: int| 0 <= i < PROC_TABLE_SIZE && i != idx implies #[trigger] self.procs@[i] == mid[i] by {}
            lemma_wf_frame(self.sched, mid, self.procs@, self.queues@);
        }
    }

    /// Append runnable, unqueued `nr` to the queue of its priority. When
    /// `current_nr` runs on CPU `cpu_id` with a lower, preemptible
    /// priority, it is marked `PREEMPTED` (and so leaves its queue). The
    /// enqueue time of `nr` is recorded.
    #[verifier::spinoff_prover]
    pub fn sched_enqueue(&mut self, nr: ProcNr, current_nr: Option<ProcNr>, cpu_id: CpuId)
        requires
            old(self).wf(),
            valid_nr(nr),
            nr.0 != NONE_PROC_NR,
            !old(self).is_queued(nr),
            old(self).slot(nr).p_rts_flags@ == 0,
            current_nr.is_some() ==> valid_nr(current_nr.unwrap()),
        ensures
            final(self).wf(),
            ({
                let q = effective_priority(old(self).slot(nr).p_sched.priority) as int;
                let mid = queues_enqueued(old(self).queues(), q, nr);
                final(self).queues() == (if current_nr.is_some() && preempts(old(self).slot(nr), old(self).slot(current_nr.unwrap()), cpu_id) {
                    queues_after_rts_set(mid, old(self).slot(current_nr.unwrap()), current_nr.unwrap(), rts::PREEMPTED)
                } else {
                    mid
                })
            }),
            current_nr.is_some() && preempts(old(self).slot(nr), old(self).slot(current_nr.unwrap()), cpu_id)
                ==> final(self).slot(current_nr.unwrap()).p_rts_flags@ == old(self).slot(current_nr.unwrap()).p_rts_flags@ | rts::PREEMPTED,
            final(self).slot(nr).p_accounting == acct_after_enqueue(old(self).slot(nr).p_accounting, old(self).clock_spec().tsc),
            same_sched_state(final(self).slot(nr), old(self).slot(nr)),
            final(self).slot(nr).p_dequeued == old(self).slot(nr).p_dequeued,
            forall|i: int| 0 <= i < PROC_TABLE_SIZE && i != nr_index(nr) && !(current_nr.is_some() && i == nr_index(current_nr.unwrap()))
                ==> same_but_link(#[trigger] final(self).slots()[i], old(self).slots()[i]),
            final(self).clock_spec() == old(self).clock_spec(),
            final(self).pending_notices() == old(self).pending_notices(),
    {
        let q = self.enqueue_tail_raw(nr);
        let ghost mid_q = self.queues@;
        let ghost mid_slots = self.procs@;
        if let Some(cur_nr) = current_nr {
            let cidx = (cur_nr.0 + 5) as usize;
            let cur_prio = self.procs[cidx].get_priority().get();
            let cur_cpu = self.procs[cidx].p_sched.cpu;
            let cur_preemptible = cur_prio != 0;
            let new_prio = q as u8;
            if cur_cpu == cpu_id.raw() && cur_prio > new_prio && cur_preemptible {
                assert(cur_nr != nr);
                self.rts_set(cur_nr, rts::PREEMPTED);
                assert(nr_index(cur_nr) != nr_index(nr));
            }
        }
        let ghost mid2 = self.procs@;
        let idx = (nr.0 + 5) as usize;
        let tsc = self.clock.read_tsc();
        self.procs[idx].p_accounting.record_enqueue(tsc);
        proof {
            assert(self.procs@[idx as int].p_accounting =~= acct_after_enqueue(old(self).procs@[idx as int].p_accounting, tsc));
            lemma_wf_frame(self.sched, mid2, self.procs@, self.queues@);
        }
    }

    /// Put runnable, unqueued `nr` back at the head of the queue of its
    /// priority (a preempted process with time left), taking back the
    /// dequeue it did not make and counting the preemption.
    pub fn sched_enqueue_head(&mut self, nr: ProcNr, cpu_id: CpuId)
        requires
            old(self).wf(),
            valid_nr(nr),
            nr.0 != NONE_PROC_NR,
            !old(self).is_queued(nr),
            old(self).slot(nr).p_rts_flags@ == 0,
        ensures
            final(self).wf(),
            final(self).queues() == queues_enqueued_head(old(self).queues(), effective_priority(old(self).slot(nr).p_sched.priority) as int, nr),
            final(self).slot(nr).p_accounting == acct_after_requeue_head(old(self).slot(nr).p_accounting, old(self).clock_spec().tsc),
            same_sched_state(final(self).slot(nr), old(self).slot(nr)),
            forall|i: int| 0 <= i < PROC_TABLE_SIZE && i != nr_index(nr) ==> #[trigger] final(self).slots()[i] == old(self).slots()[i],
            final(self).clock_spec() == old(self).clock_spec(),
            final(self).pending_notices() == old(self).pending_notices(),
    {
        let _ = cpu_id;
        let _q = self.enqueue_head_raw(nr);
        let ghost mid = self.procs@;
        let idx = (nr.0 + 5) as usize;
        let tsc = self.clock.read_tsc();
        self.procs[idx].p_accounting.record_enqueue(tsc);
        let d = self.procs[idx].p_accounting.dequeues;
        self.procs[idx].p_accounting.dequeues = d.wrapping_sub(1);
        self.procs[idx].p_accounting.record_preempt();
        proof {
            assert(self.procs@[idx as int].p_accounting =~= acct_after_requeue_head(old(self).procs@[idx as int].p_accounting, tsc));
            lemma_wf_frame(self.sched, mid, self.procs@, self.queues@);
        }
    }

    /// Set runtime flags on `nr`. A runnable queued process that stops
    /// being runnable is dequeued.
    #[verifier::spinoff_prover]
    pub fn rts_set(&mut self, nr: ProcNr, flags: u32)
        requires
            old(self).wf(),
        ensures
            final(self).wf(),
            valid_nr(nr) ==> final(self).slot(nr).p_rts_flags@ == old(self).slot(nr).p_rts_flags@ | flags,
            final(self).queues() == (if valid_nr(nr) {
                queues_after_rts_set(old(self).queues(), old(self).slot(nr), nr, flags)
            } else {
                old(self).queues()
            }),
            valid_nr(nr) ==> final(self).slot(nr).p_sched.priority == old(self).slot(nr).p_sched.priority,
            valid_nr(nr) ==> final(self).slot(nr).p_misc_flags@ == old(self).slot(nr).p_misc_flags@,
            valid_nr(nr) ==> final(self).slot(nr).p_nr == old(self).slot(nr).p_nr,
            valid_nr(nr) ==> final(self).slot(nr).p_endpoint == old(self).slot(nr).p_endpoint,
            valid_nr(nr) ==> final(self).slot(nr).p_sched.scheduler == old(self).slot(nr).p_sched.scheduler,
            valid_nr(nr) ==> final(self).slot(nr).p_sched.quantum == old(self).slot(nr).p_sched.quantum,
            valid_nr(nr) ==> final(self).slot(nr).p_sched.cpu == old(self).slot(nr).p_sched.cpu,
            valid_nr(nr) ==> final(self).slot(nr).p_accounting == (if rts_set_dequeues(*old(self), nr, flags) {
                acct_after_dequeue(old(self).slot(nr).p_accounting, old(self).clock_spec().tsc)
            } else {
                old(self).slot(nr).p_accounting
            }),
            valid_nr(nr) ==> final(self).slot(nr) == (KProcess {
                p_rts_flags: final(self).slot(nr).p_rts_flags,
                p_accounting: final(self).slot(nr).p_accounting,
                p_dequeued: final(self).slot(nr).p_dequeued,
                p_nextready: final(self).slot(nr).p_nextready,
                ..old(self).slot(nr)
            }),
            valid_nr(nr) ==> final(self).slot(nr).p_dequeued == (if rts_set_dequeues(*old(self), nr, flags) {
                old(self).clock_spec().uptime
            } else {
                old(self).slot(nr).p_dequeued
            }),
            forall|i: int| 0 <= i < PROC_TABLE_SIZE && i != nr_index(nr) ==> same_but_link(#[trigger] final(self).slots()[i], old(self).slots()[i]),
            final(self).clock_spec() == old(self).clock_spec(),
            final(self).pending_notices() == old(self).pending_notices(),
    {
        match nr_to_idx(nr) {
            None => {},
            Some(idx) => {
                let old_bits = self.procs[idx].p_rts_flags.load();
                let was_runnable = old_bits == 0;
                let new_bits = old_bits | flags;
                proof {
                    assert((old_bits | flags) == 0u32 <==> (old_bits == 0u32 && flags == 0u32)) by (bit_vector);
                }
                let ghost o_sched = self.sched;
                let ghost o_procs = self.procs@;
                let ghost o_qs = self.queues@;
                let ghost mut did = false;
                let mut in_sched = false;
                if was_runnable && new_bits != 0 {
                    in_sched = self.is_in_scheduler(nr);
                }
                assert(in_sched ==> old(self).is_queued(nr));
                assert(was_runnable && new_bits != 0 ==> in_sched == old(self).is_queued(nr));
                if was_runnable && new_bits != 0 && in_sched {
                    let cpu_id = CpuId::new_unchecked(self.procs[idx].p_sched.cpu);
                    proof {
                        did = true;
                        let q0 = choose|q: int| 0 <= q < priority::NR_SCHED_QUEUES && #[trigger] self.queue(q).contains(nr);
                        self.lemma_queued_in_own_queue(nr, q0);
                        lemma_dequeued_not_queued(o_sched, o_procs, o_qs, q0, nr);
                    }
                    self.sched_dequeue(nr, cpu_id);
                }
                let ghost mid = self.procs@;
                let ghost midq = self.queues@;
                self.procs[idx].p_rts_flags.set(flags);
                proof {
                    if self.is_queued(nr) {
                        // still queued: nothing was dequeued, so the flags
                        // stay zero
                        let q1 = choose|q: int| 0 <= q < priority::NR_SCHED_QUEUES && #[trigger] self.queue(q).contains(nr);
                        assert(self.queues@[q1].contains(nr));
                        assert(!did) by {
                            if did {
                                assert(!self.queues@[q1].contains(nr));
                            }
                        }
                        assert(o_qs[q1].contains(nr));
                        let i1 = o_qs[q1].index_of(nr);
                        assert(o_procs[nr_index(o_qs[q1][i1])].p_rts_flags@ == 0);
                        assert(tables_wf(o_sched, o_procs, o_qs));
                        assert(o_qs == old(self).queues());
                        assert(old(self).queue(q1).contains(nr));
                        assert(old(self).is_queued(nr));
                        assert(o_qs[q1][i1] == nr);
                        assert(old_bits == 0);
                        assert(new_bits == 0);
                        assert(flags == 0);
                        assert(old_bits | 0u32 == old_bits) by (bit_vector);
                        assert forall|i: int| 0 <= i < PROC_TABLE_SIZE implies #[trigger] self.procs@[i].p_nextready == mid[i].p_nextready
                            && self.procs@[i].p_rts_flags@ == mid[i].p_rts_flags@
                            && self.procs@[i].p_sched.priority == mid[i].p_sched.priority by {}
                        lemma_wf_frame(self.sched, mid, self.procs@, self.queues@);
                    } else {
                        assert forall|q: int| 0 <= q < priority::NR_SCHED_QUEUES implies !(#[trigger] midq[q]).contains(nr) by {
                            if midq[q].contains(nr) {
                                assert(self.queue(q).contains(nr));
                            }
                        }
                        assert(self.procs@ =~= mid.update(nr_index(nr), self.procs@[idx as int]));
                        lemma_wf_update_unqueued(self.sched, mid, midq, nr, self.procs@[idx as int]);
                    }
                }
            },
        }
    }

    /// Clear runtime flags on `nr`. A process that becomes runnable is
    /// appended to the queue of its priority.
    #[verifier::spinoff_prover]
    pub fn rts_unset(&mut self, nr: ProcNr, flags: u32)
        requires
            old(self).wf(),
            valid_nr(nr) && old(self).slot(nr).p_rts_flags@ != 0 && old(self).slot(nr).p_rts_flags@ & !flags == 0
                ==> nr.0 != NONE_PROC_NR,
        ensures
            final(self).wf(),
            valid_nr(nr) ==> final(self).slot(nr).p_rts_flags@ == old(self).slot(nr).p_rts_flags@ & !flags,
            final(self).queues() == (if valid_nr(nr) && old(self).slot(nr).p_rts_flags@ != 0 && old(self).slot(nr).p_rts_flags@ & !flags == 0 {
                queues_enqueued(old(self).queues(), effective_priority(old(self).slot(nr).p_sched.priority) as int, nr)
            } else {
                old(self).queues()
            }),
            valid_nr(nr) ==> final(self).slot(nr).p_sched.priority == old(self).slot(nr).p_sched.priority,
            valid_nr(nr) ==> final(self).slot(nr).p_misc_flags@ == old(self).slot(nr).p_misc_flags@,
            valid_nr(nr) ==> final(self).slot(nr).p_sched.cpu == old(self).slot(nr).p_sched.cpu,
            valid_nr(nr) ==> final(self).slot(nr).p_nr == old(self).slot(nr).p_nr,
            valid_nr(nr) ==> final(self).slot(nr).p_endpoint == old(self).slot(nr).p_endpoint,
            valid_nr(nr) ==> final(self).slot(nr).p_sched.scheduler == old(self).slot(nr).p_sched.scheduler,
            valid_nr(nr) ==> final(self).slot(nr).p_sched.quantum == old(self).slot(nr).p_sched.quantum,
            valid_nr(nr) ==> final(self).slot(nr).p_accounting == (if old(self).slot(nr).p_rts_flags@ != 0 && old(self).slot(nr).p_rts_flags@ & !flags == 0 {
                acct_after_enqueue(old(self).slot(nr).p_accounting, old(self).clock_spec().tsc)
            } else {
                old(self).slot(nr).p_accounting
            }),
            forall|i: int| 0 <= i < PROC_TABLE_SIZE && i != nr_index(nr) ==> same_but_link(#[trigger] final(self).slots()[i], old(self).slots()[i]),
            final(self).clock_spec() == old(self).clock_spec(),
            valid_nr(nr) ==> final(self).slot(nr) == (KProcess {
                p_rts_flags: final(self).slot(nr).p_rts_flags,
                p_accounting: final(self).slot(nr).p_accounting,
                p_nextready: final(self).slot(nr).p_nextready,
                ..old(self).slot(nr)
            }),
            final(self).pending_notices() == old(self).pending_notices(),
    {
        match nr_to_idx(nr) {
            None => {},
            Some(idx) => {
                let old_bits = self.procs[idx].p_rts_flags.load();
                let was_runnable = old_bits == 0;
                let ghost mid = self.procs@;
                let ghost qs = self.queues@;
                self.procs[idx].p_rts_flags.clear(flags);
                proof {
                    assert(0u32 & !flags == 0u32) by (bit_vector);
                    if was_runnable {
                        lemma_wf_frame(self.sched, mid, self.procs@, self.queues@);
                    } else {
                        assert forall|q: int| 0 <= q < priority::NR_SCHED_QUEUES implies !(#[trigger] qs[q]).contains(nr) by {
                            if qs[q].contains(nr) {
                                let i = qs[q].index_of(nr);
                                assert(mid[nr_index(qs[q][i])].p_rts_flags@ == 0);
                            }
                        }
                        assert(self.procs@ =~= mid.update(nr_index(nr), self.procs@[idx as int]));
                        lemma_wf_update_unqueued(self.sched, mid, qs, nr, self.procs@[idx as int]);
                    }
                }
                let is_runnable = self.procs[idx].p_rts_flags.is_runnable();
                if !was_runnable && is_runnable {
                    proof {
                        assert forall|q: int| 0 <= q < priority::NR_SCHED_QUEUES implies !(#[trigger] self.queue(q)).contains(nr) by {
                            if qs[q].contains(nr) {
                                let i = qs[q].index_of(nr);
                                assert(mid[nr_index(qs[q][i])].p_rts_flags@ == 0);
                            }
                        }
                    }
                    let cpu_id = CpuId::new_unchecked(self.procs[idx].p_sched.cpu);
                    self.sched_enqueue(nr, None, cpu_id);
                }
            },
        }
    }
}

/// The table `f` after process `nr` of table `o` has used up its quantum:
/// a process with a scheduler of its own that is preemptible gets
/// `NO_QUANTUM` (leaving its queue) and its scheduler, when in the table,
/// gets a notice with its statistics, which are reset; any other process
/// gets a fresh quantum.
pub open spec fn after_no_time(o: ProcessTable, f: ProcessTable, nr: ProcNr) -> bool {
    let p = o.slot(nr);
    let kernel_scheduled = p.p_sched.scheduler.is_none() || p.p_sched.scheduler == Some(p.p_nr);
    let preemptible = effective_priority(p.p_sched.priority) != priority::TASK_Q;
    &&& f.clock_spec() == o.clock_spec()
    &&& if !kernel_scheduled && preemptible {
        let s = p.p_sched.scheduler.unwrap();
        &&& f.queues() == queues_after_rts_set(o.queues(), p, nr, rts::NO_QUANTUM)
        &&& f.slot(nr).p_rts_flags@ == p.p_rts_flags@ | rts::NO_QUANTUM
        &&& f.slot(nr).p_sched.priority == p.p_sched.priority
        &&& f.slot(nr).p_endpoint == p.p_endpoint
        &&& forall|i: int| 0 <= i < PROC_TABLE_SIZE && i != nr_index(nr) ==> same_but_link(#[trigger] f.slots()[i], o.slots()[i])
        &&& (valid_nr(s) ==> f.slot(nr).p_accounting.is_zero()
            && f.pending_notices() == o.pending_notices().push(notice_for(
                KProcess {
                    p_accounting: if rts_set_dequeues(o, nr, rts::NO_QUANTUM) {
                        acct_after_dequeue(p.p_accounting, o.clock_spec().tsc)
                    } else {
                        p.p_accounting
                    },
                    ..p
                },
                o.slot(s),
                o.clock_spec())))
        &&& (!valid_nr(s) ==> f.pending_notices() == o.pending_notices()
            && f.slot(nr).p_accounting == (if rts_set_dequeues(o, nr, rts::NO_QUANTUM) {
                acct_after_dequeue(p.p_accounting, o.clock_spec().tsc)
            } else {
                p.p_accounting
            }))
    } else {
        &&& f.queues() == o.queues()
        &&& f.slots() == o.slots().update(nr_index(nr), KProcess {
            p_sched: SchedFields {
                quantum: Quantum {
                    cpu_time_left: crate::clock::wmul64(p.p_sched.quantum.size_ms as u64, o.clock_spec().tsc_per_ms),
                    ..p.p_sched.quantum
                },
                ..p.p_sched
            },
            ..p
        })
        &&& f.pending_notices() == o.pending_notices()
    }
}

/// The notice for process slot `p` whose scheduler's slot is `sched_slot`,
/// with times converted by `clock`, and the CPU and its load as `clock`
/// read them.
pub open spec fn notice_for(p: KProcess, sched_slot: KProcess, clock: ClockState) -> NoQuantumNotice {
    NoQuantumNotice {
        scheduler: sched_slot.p_endpoint,
        source: p.p_endpoint,
        acnt_queue: if clock.tsc_per_ms == 0 { 0 } else { p.p_accounting.time_in_queue / clock.tsc_per_ms },
        acnt_deqs: p.p_accounting.dequeues,
        acnt_ipc_sync: p.p_accounting.ipc_sync,
        acnt_ipc_async: p.p_accounting.ipc_async,
        acnt_preempt: p.p_accounting.preempted,
        acnt_cpu: clock.cpu,
        acnt_cpu_load: clock.cpu_load,
    }
}

/// The end of a quantum reports the process's statistics to its
/// scheduler: when `sched_proc_no_time` (or `check_quantum` with no time
/// left) takes table `o` to `f` for a user-scheduled, preemptible process
/// `nr` whose scheduler `s` has a slot, exactly one notice is added; it is
/// addressed to `s`'s endpoint, comes from `nr`'s endpoint, and carries
/// `nr`'s synchronous and asynchronous IPC counts, its preemption count,
/// its dequeue count and its time in ready queues in milliseconds (this
/// dequeue included, when the process left its queue), and the CPU and
/// load of the clock readings; `nr`'s statistics are then reset.
pub proof fn law_no_quantum_notice_reports_process(o: ProcessTable, f: ProcessTable, nr: ProcNr)
    requires
        after_no_time(o, f, nr),
        o.slot(nr).p_sched.scheduler.is_some(),
        o.slot(nr).p_sched.scheduler != Some(o.slot(nr).p_nr),
        effective_priority(o.slot(nr).p_sched.priority) != priority::TASK_Q,
        valid_nr(o.slot(nr).p_sched.scheduler.unwrap()),
    ensures
        ({
            let p = o.slot(nr);
            let a = p.p_accounting;
            let n = f.pending_notices().last();
            &&& f.pending_notices().len() == o.pending_notices().len() + 1
            &&& f.pending_notices().drop_last() == o.pending_notices()
            &&& n.scheduler == o.slot(p.p_sched.scheduler.unwrap()).p_endpoint
            &&& n.source == p.p_endpoint
            &&& n.acnt_ipc_sync == a.ipc_sync
            &&& n.acnt_ipc_async == a.ipc_async
            &&& n.acnt_preempt == a.preempted
            &&& n.acnt_deqs == (if rts_set_dequeues(o, nr, rts::NO_QUANTUM) { wadd32(a.dequeues, 1) } else { a.dequeues })
            &&& n.acnt_queue == ({
                let q = if rts_set_dequeues(o, nr, rts::NO_QUANTUM) {
                    acct_after_dequeue(a, o.clock_spec().tsc).time_in_queue
                } else {
                    a.time_in_queue
                };
                if o.clock_spec().tsc_per_ms == 0 { 0 } else { q / o.clock_spec().tsc_per_ms }
            })
            &&& n.acnt_cpu == o.clock_spec().cpu
            &&& n.acnt_cpu_load == o.clock_spec().cpu_load
            &&& f.slot(nr).p_accounting.is_zero()
        }),
{
    assert(f.pending_notices().drop_last() =~= o.pending_notices());
}

/// Where `switch_to_user` goes next.
#[derive(Debug, Clone, Copy, PartialEq, Eq, Structural)]
pub enum SwitchFlow {
    /// Check whether the current process can still run.
    CheckCurrent,
    /// Pick a new process.
    PickNew,
    /// Handle the miscellaneous flags of the chosen process.
    CheckMiscFlags,
    /// Check the quantum of the chosen process.
    CheckQuantum,
    /// Return to the chosen process.
    RestoreContext,
}

/// Work on a process's miscellaneous flags that needs other kernel parts.
#[derive(Debug, Clone, Copy, PartialEq, Eq, Structural)]
pub enum MiscFlagsAction {
    /// Resume the suspended kernel call (`KCALL_RESUME`).
    KcallResume,
    /// Deliver the pending message (`DELIVERMSG`).
    DeliverMsg,
    /// Re-execute the deferred system call (`SC_DEFER`).
    ScDefer,
}

/// One step of miscellaneous-flag processing.
#[derive(Debug, Clone, Copy, PartialEq, Eq, Structural)]
pub enum MiscFlagsStep {
    /// Processing is over; the value says whether the process may run.
    Done(bool),
    /// This work must be done, after which the step is repeated if the
    /// process is still runnable.
    Handle(MiscFlagsAction),
}

/// The flags that `process_misc_flags_step` acts on.
pub open spec fn misc_interesting() -> u32 {
    mf::KCALL_RESUME | mf::DELIVERMSG | mf::SC_DEFER | mf::SC_TRACE | mf::SC_ACTIVE
}

/// The step taken for named miscellaneous flags `f`, in priority order.
pub open spec fn misc_step_for(f: u32) -> MiscFlagsStep {
    if f & misc_interesting() == 0 {
        MiscFlagsStep::Done(true)
    } else if f & mf::KCALL_RESUME != 0 {
        MiscFlagsStep::Handle(MiscFlagsAction::KcallResume)
    } else if f & mf::DELIVERMSG != 0 {
        MiscFlagsStep::Handle(MiscFlagsAction::DeliverMsg)
    } else if f & mf::SC_DEFER != 0 {
        MiscFlagsStep::Handle(MiscFlagsAction::ScDefer)
    } else {
        MiscFlagsStep::Done(true)
    }
}

/// The flags left after a step on named flags `f` (raw word `raw`): a
/// traced active call clears both trace bits, a bare active call clears
/// its bit.
pub open spec fn misc_after_step(f: u32, raw: u32) -> u32 {
    if f & misc_interesting() == 0 || f & mf::KCALL_RESUME != 0 || f & mf::DELIVERMSG != 0 || f & mf::SC_DEFER != 0 {
        raw
    } else if f & mf::SC_TRACE != 0 {
        if f & mf::SC_ACTIVE == 0 {
            raw
        } else {
            raw & !(mf::SC_TRACE | mf::SC_ACTIVE)
        }
    } else {
        raw & !mf::SC_ACTIVE
    }
}

impl ProcessTable {
    /// Bill to the idle task: its enqueue stamp becomes zero.
    pub fn set_bill_to_idle(&mut self)
        requires
            old(self).wf(),
        ensures
            final(self).wf(),
            final(self).slots()[1].p_accounting.enter_queue == 0,
            final(self).slots()[1].p_accounting.time_in_queue == old(self).slots()[1].p_accounting.time_in_queue,
            same_sched_state(final(self).slots()[1], old(self).slots()[1]),
            forall|i: int| 0 <= i < PROC_TABLE_SIZE && i != 1 ==> #[trigger] final(self).slots()[i] == old(self).slots()[i],
            final(self).queues() == old(self).queues(),
            final(self).clock_spec() == old(self).clock_spec(),
            final(self).pending_notices() == old(self).pending_notices(),
    {
        let ghost mid = self.procs@;
        self.procs[1].p_accounting.bill_to_idle();
        proof {
            lemma_wf_frame(self.sched, mid, self.procs@, self.queues@);
        }
    }

    /// Notify the user-space scheduler of `nr`, if it has one in the
    /// table: a notice with `nr`'s statistics is queued and the statistics
    /// are reset.
    fn notify_scheduler(&mut self, nr: ProcNr)
        requires
            old(self).wf(),
            valid_nr(nr),
        ensures
            final(self).wf(),
            final(self).queues() == old(self).queues(),
            final(self).clock_spec() == old(self).clock_spec(),
            same_sched_state(final(self).slot(nr), old(self).slot(nr)),
            forall|i: int| 0 <= i < PROC_TABLE_SIZE && i != nr_index(nr) ==> #[trigger] final(self).slots()[i] == old(self).slots()[i],
            ({
                let p = old(self).slot(nr);
                if p.p_sched.scheduler.is_some() && valid_nr(p.p_sched.scheduler.unwrap()) {
                    &&& final(self).pending_notices() == old(self).pending_notices().push(
                        notice_for(p, old(self).slot(p.p_sched.scheduler.unwrap()), old(self).clock_spec()))
                    &&& final(self).slot(nr).p_accounting.is_zero()
                } else {
                    &&& final(self).pending_notices() == old(self).pending_notices()
                    &&& final(self).slot(nr) == p
                }
            }),
    {
        let idx = (nr.0 + 5) as usize;
        let sched_nr = match self.procs[idx].p_sched.scheduler {
            Some(s) => s,
            None => return,
        };
        let sidx = match nr_to_idx(sched_nr) {
            Some(i) => i,
            None => return,
        };
        let scheduler_ep = self.procs[sidx].p_endpoint;
        let notice = NoQuantumNotice {
            scheduler: scheduler_ep,
            source: self.procs[idx].p_endpoint,
            acnt_queue: self.clock.cpu_time_to_ms(self.procs[idx].p_accounting.time_in_queue),
            acnt_deqs: self.procs[idx].p_accounting.dequeues,
            acnt_ipc_sync: self.procs[idx].p_accounting.ipc_sync,
            acnt_ipc_async: self.procs[idx].p_accounting.ipc_async,
            acnt_preempt: self.procs[idx].p_accounting.preempted,
            acnt_cpu: self.clock.cpu,
            acnt_cpu_load: self.clock.cpu_load,
        };
        let ghost mid = self.procs@;
        self.procs[idx].p_accounting.reset();
        self.notices.push(notice);
        proof {
            lemma_wf_frame(self.sched, mid, self.procs@, self.queues@);
        }
    }

    /// Handle the end of `nr`'s quantum. A process with a user-space
    /// scheduler and a preemptible priority gets `NO_QUANTUM` (leaving its
    /// queue) and its scheduler is notified; any other process gets a full
    /// quantum again.
    #[verifier::spinoff_prover]
    pub fn sched_proc_no_time(&mut self, nr: ProcNr)
        requires
            old(self).wf(),
            valid_nr(nr),
        ensures
            final(self).wf(),
            after_no_time(*old(self), *final(self), nr),
    {
        let idx = (nr.0 + 5) as usize;
        let kernel_scheduled = crate::sched::is_kernel_scheduled(&self.procs[idx]);
        let preemptible = crate::sched::is_preemptible(&self.procs[idx]);
        let quantum_ms = self.procs[idx].p_sched.quantum.size_ms;
        if !kernel_scheduled && preemptible {
            self.rts_set(nr, rts::NO_QUANTUM);
            proof {
                if valid_nr(old(self).slot(nr).p_sched.scheduler.unwrap()) {
                    let s = old(self).slot(nr).p_sched.scheduler.unwrap();
                    assert(self.slot(s).p_endpoint == old(self).slot(s).p_endpoint);
                }
            }
            self.notify_scheduler(nr);
        } else {
            let cpu_time = self.clock.ms_to_cpu_time(quantum_ms);
            let ghost mid = self.procs@;
            self.procs[idx].p_sched.quantum.cpu_time_left = cpu_time;
            proof {
                lemma_wf_frame(self.sched, mid, self.procs@, self.queues@);
            }
        }
    }

    /// Check the quantum of `nr`: when no time is left, handle the end of
    /// the quantum. Returns whether `nr` is still runnable.
    pub fn check_quantum(&mut self, nr: ProcNr) -> (r: bool)
        requires
            old(self).wf(),
            valid_nr(nr),
        ensures
            final(self).wf(),
            r == (final(self).slot(nr).p_rts_flags@ == 0),
            old(self).slot(nr).p_sched.quantum.cpu_time_left == 0 ==> after_no_time(*old(self), *final(self), nr),
            old(self).slot(nr).p_sched.quantum.cpu_time_left > 0 ==> final(self).slots() == old(self).slots()
                && final(self).queues() == old(self).queues()
                && final(self).pending_notices() == old(self).pending_notices(),
    {
        let idx = (nr.0 + 5) as usize;
        let has_time_left = self.procs[idx].p_sched.quantum.cpu_time_left > 0;
        if !has_time_left {
            self.sched_proc_no_time(nr);
        }
        self.procs[idx].p_rts_flags.is_runnable()
    }

    /// Choose the process to run. A runnable current process keeps the
    /// CPU. Otherwise a preempted current process has `PREEMPTED` cleared
    /// and, if that makes it runnable, goes back to its queue (at the head
    /// when it has time left); then the head of the highest-priority
    /// non-empty queue is chosen.
    #[verifier::spinoff_prover]
    pub fn select_next_process(&mut self, current_nr: Option<ProcNr>, cpu_id: CpuId) -> (r: (Option<ProcNr>, SwitchFlow))
        requires
            old(self).wf(),
            current_nr.is_some() ==> current_nr.unwrap().0 != NONE_PROC_NR,
        ensures
            final(self).wf(),
            r.1 == SwitchFlow::CheckMiscFlags,
            ({
                let c = current_nr.unwrap();
                if current_nr.is_some() && valid_nr(c) && old(self).slot(c).p_rts_flags@ == 0 {
                    &&& r.0 == current_nr
                    &&& final(self).slots() == old(self).slots()
                    &&& final(self).queues() == old(self).queues()
                } else {
                    &&& (r.0.is_none() <==> all_queues_empty(final(self).queues()))
                    &&& (r.0.is_some() ==> is_first_head(final(self).queues(), r.0.unwrap()))
                    &&& (current_nr.is_some() && valid_nr(c) && old(self).slot(c).p_rts_flags@ & rts::PREEMPTED != 0 ==> {
                        let bits = old(self).slot(c).p_rts_flags@ & !rts::PREEMPTED;
                        let q = effective_priority(old(self).slot(c).p_sched.priority) as int;
                        &&& final(self).slot(c).p_rts_flags@ == bits
                        &&& final(self).queues() == (if bits != 0 {
                            old(self).queues()
                        } else if old(self).slot(c).p_sched.quantum.cpu_time_left > 0 {
                            queues_enqueued_head(old(self).queues(), q, c)
                        } else {
                            queues_enqueued(old(self).queues(), q, c)
                        })
                    })
                    &&& (!(current_nr.is_some() && valid_nr(c) && old(self).slot(c).p_rts_flags@ & rts::PREEMPTED != 0)
                        ==> final(self).queues() == old(self).queues())
                }
            }),
    {
        if let Some(nr) = current_nr {
            if let Some(idx) = nr_to_idx(nr) {
                if self.procs[idx].is_runnable() {
                    return (Some(nr), SwitchFlow::CheckMiscFlags);
                }
            }
        }
        if let Some(nr) = current_nr {
            if let Some(idx) = nr_to_idx(nr) {
                if self.procs[idx].p_rts_flags.is_set(rts::PREEMPTED) {
                    let ghost mid = self.procs@;
                    let ghost qs = self.queues@;
                    proof {
                        assert forall|q: int| 0 <= q < priority::NR_SCHED_QUEUES implies !(#[trigger] qs[q]).contains(nr) by {
                            if qs[q].contains(nr) {
                                let i = qs[q].index_of(nr);
                                assert(mid[nr_index(qs[q][i])].p_rts_flags@ == 0);
                            }
                        }
                    }
                    self.procs[idx].p_rts_flags.clear(rts::PREEMPTED);
                    proof {
                        assert(self.procs@ =~= mid.update(nr_index(nr), self.procs@[idx as int]));
                        lemma_wf_update_unqueued(self.sched, mid, qs, nr, self.procs@[idx as int]);
                        assert forall|q: int| 0 <= q < priority::NR_SCHED_QUEUES implies !(#[trigger] self.queue(q)).contains(nr) by {
                            assert(self.queues@[q] == qs[q]);
                        }
                    }
                    if self.procs[idx].is_runnable() {
                        let has_time_left = self.procs[idx].p_sched.quantum.cpu_time_left > 0;
                        if has_time_left {
                            self.sched_enqueue_head(nr, cpu_id);
                        } else {
                            self.sched_enqueue(nr, None, cpu_id);
                        }
                    }
                }
            }
        }
        let selected = self.sched.pick_proc(self.procs.as_slice());
        proof {
            let qs = self.queues@;
            assert forall|q: int| 0 <= q < priority::NR_SCHED_QUEUES implies
                (#[trigger] self.sched.heads()[q]).is_none() == (qs[q].len() == 0)
                && (qs[q].len() > 0 ==> self.sched.heads()[q] == Some(qs[q][0])) by {
                assert(queue_linked(self.sched.heads(), self.sched.tails(), self.procs@, q, qs[q]));
            }
            if selected.is_some() {
                let q = choose|q: int| 0 <= q < priority::NR_SCHED_QUEUES
                    && self.sched.heads()[q] == selected
                    && forall|p: int| 0 <= p < q ==> #[trigger] self.sched.heads()[p].is_none();
                assert(qs[q].len() > 0);
                assert forall|p: int| 0 <= p < q implies #[trigger] qs[p].len() == 0 by {
                    assert(self.sched.heads()[p].is_none());
                }
                assert(is_first_head(qs, selected.unwrap()));
            } else {
                assert forall|q: int| 0 <= q < priority::NR_SCHED_QUEUES implies #[trigger] qs[q].len() == 0 by {
                    assert(self.sched.heads()[q].is_none());
                }
            }
        }
        (selected, SwitchFlow::CheckMiscFlags)
    }

    /// One step of processing `nr`'s miscellaneous flags, in priority
    /// order: a kernel call to resume, a message to deliver, a deferred
    /// call to redo (each handed back as work to do), then the trace bits.
    pub fn process_misc_flags_step(&mut self, nr: ProcNr) -> (r: MiscFlagsStep)
        requires
            old(self).wf(),
        ensures
            final(self).wf(),
            final(self).queues() == old(self).queues(),
            final(self).clock_spec() == old(self).clock_spec(),
            final(self).sched_spec() == old(self).sched_spec(),
            final(self).pending_notices() == old(self).pending_notices(),
            !valid_nr(nr) ==> r == MiscFlagsStep::Done(true) && final(self).slots() == old(self).slots(),
            valid_nr(nr) ==> {
                let f = old(self).slot(nr).p_misc_flags@ & mf::ALL;
                &&& r == misc_step_for(f)
                &&& final(self).slot(nr).p_misc_flags@ == misc_after_step(f, old(self).slot(nr).p_misc_flags@)
                &&& final(self).slots() == old(self).slots().update(nr_index(nr),
                    KProcess { p_misc_flags: final(self).slot(nr).p_misc_flags, ..old(self).slot(nr) })
                &&& (f & misc_interesting() == 0 ==> final(self).slots() == old(self).slots())
            },
    {
        let idx = match nr_to_idx(nr) {
            Some(i) => i,
            None => return MiscFlagsStep::Done(true),
        };
        let flags = self.procs[idx].p_misc_flags.get();
        let interesting = mf::KCALL_RESUME | mf::DELIVERMSG | mf::SC_DEFER | mf::SC_TRACE | mf::SC_ACTIVE;
        if flags & interesting == 0 {
            return MiscFlagsStep::Done(true);
        }
        if flags & mf::KCALL_RESUME != 0 {
            return MiscFlagsStep::Handle(MiscFlagsAction::KcallResume);
        }
        if flags & mf::DELIVERMSG != 0 {
            return MiscFlagsStep::Handle(MiscFlagsAction::DeliverMsg);
        }
        if flags & mf::SC_DEFER != 0 {
            return MiscFlagsStep::Handle(MiscFlagsAction::ScDefer);
        }
        let ghost mid = self.procs@;
        if flags & mf::SC_TRACE != 0 {
            if flags & mf::SC_ACTIVE == 0 {
                return MiscFlagsStep::Done(true);
            }
            self.procs[idx].p_misc_flags.clear(mf::SC_TRACE | mf::SC_ACTIVE);
        } else {
            self.procs[idx].p_misc_flags.clear(mf::SC_ACTIVE);
        }
        proof {
            lemma_wf_frame(self.sched, mid, self.procs@, self.queues@);
        }
        MiscFlagsStep::Done(true)
    }

    /// Move process `nr` to CPU `cpu`; an `nr` outside the table changes
    /// nothing.
    pub fn set_cpu(&mut self, nr: ProcNr, cpu: CpuId)
        requires
            old(self).wf(),
        ensures
            final(self).wf(),
            valid_nr(nr) ==> final(self).slots() == old(self).slots().update(nr_index(nr),
                KProcess { p_sched: SchedFields { cpu: cpu.id(), ..old(self).slot(nr).p_sched }, ..old(self).slot(nr) }),
            !valid_nr(nr) ==> final(self).slots() == old(self).slots(),
            final(self).queues() == old(self).queues(),
            final(self).clock_spec() == old(self).clock_spec(),
            final(self).pending_notices() == old(self).pending_notices(),
    {
        if let Some(idx) = nr_to_idx(nr) {
            let ghost mid = self.procs@;
            self.procs[idx].p_sched.cpu = cpu.raw();
            proof {
                lemma_wf_frame(self.sched, mid, self.procs@, self.queues@);
            }
        }
    }

    /// Set miscellaneous flags `flags` on `nr`; an `nr` outside the table
    /// changes nothing.
    pub fn misc_set(&mut self, nr: ProcNr, flags: u32)
        requires
            old(self).wf(),
        ensures
            final(self).wf(),
            valid_nr(nr) ==> final(self).slot(nr).p_misc_flags@ == old(self).slot(nr).p_misc_flags@ | flags
                && final(self).slot(nr) == (KProcess { p_misc_flags: final(self).slot(nr).p_misc_flags, ..old(self).slot(nr) }),
            forall|i: int| 0 <= i < PROC_TABLE_SIZE && (!valid_nr(nr) || i != nr_index(nr)) ==> #[trigger] final(self).slots()[i] == old(self).slots()[i],
            final(self).slots().len() == old(self).slots().len(),
            final(self).queues() == old(self).queues(),
            final(self).clock_spec() == old(self).clock_spec(),
            final(self).pending_notices() == old(self).pending_notices(),
    {
        if let Some(idx) = nr_to_idx(nr) {
            let ghost mid = self.procs@;
            self.procs[idx].p_misc_flags.set(flags);
            proof {
                lemma_wf_frame(self.sched, mid, self.procs@, self.queues@);
            }
        }
    }

    /// Clear miscellaneous flags `flags` on `nr`; an `nr` outside the
    /// table changes nothing.
    pub fn misc_unset(&mut self, nr: ProcNr, flags: u32)
        requires
            old(self).wf(),
        ensures
            final(self).wf(),
            valid_nr(nr) ==> final(self).slot(nr).p_misc_flags@ == old(self).slot(nr).p_misc_flags@ & !flags
                && final(self).slot(nr) == (KProcess { p_misc_flags: final(self).slot(nr).p_misc_flags, ..old(self).slot(nr) }),
            forall|i: int| 0 <= i < PROC_TABLE_SIZE && (!valid_nr(nr) || i != nr_index(nr)) ==> #[trigger] final(self).slots()[i] == old(self).slots()[i],
            final(self).slots().len() == old(self).slots().len(),
            final(self).queues() == old(self).queues(),
            final(self).clock_spec() == old(self).clock_spec(),
            final(self).pending_notices() == old(self).pending_notices(),
    {
        if let Some(idx) = nr_to_idx(nr) {
            let ghost mid = self.procs@;
            self.procs[idx].p_misc_flags.unset(flags);
            proof {
                lemma_wf_frame(self.sched, mid, self.procs@, self.queues@);
            }
        }
    }

    /// Take `sender` out of the sender queue of `nr`; an `nr` outside the
    /// table changes nothing.
    pub fn remove_sender(&mut self, nr: ProcNr, sender: ProcNr)
        requires
            old(self).wf(),
        ensures
            final(self).wf(),
            final(self).slots() == (if valid_nr(nr) {
                old(self).slots().update(nr_index(nr), KProcess {
                    caller_q: final(self).slot(nr).caller_q,
                    ..old(self).slot(nr)
                })
            } else {
                old(self).slots()
            }),
            valid_nr(nr) ==> final(self).slot(nr).caller_q@ == without_sender(old(self).slot(nr).caller_q@, sender),
            final(self).queues() == old(self).queues(),
            final(self).clock_spec() == old(self).clock_spec(),
            final(self).pending_notices() == old(self).pending_notices(),
    {
        if let Some(idx) = nr_to_idx(nr) {
            let ghost mid = self.procs@;
            let _ = self.procs[idx].caller_q.remove_by_nr(sender);
            proof {
                assert(self.procs@ =~= mid.update(idx as int, self.procs@[idx as int]));
                lemma_wf_frame(self.sched, mid, self.procs@, self.queues@);
            }
        }
    }

    /// Exchange the runtime state of two stopped processes for a live
    /// update: each slot takes the other's contents but keeps its own
    /// endpoint, process number, privilege slot, sender queue, scheduler,
    /// CPU and CPU mask.
    pub fn swap_for_update(&mut self, a: ProcNr, b: ProcNr)
        requires
            old(self).wf(),
            valid_nr(a),
            valid_nr(b),
            nr_index(a) != nr_index(b),
            old(self).slot(a).p_rts_flags@ != 0,
            old(self).slot(b).p_rts_flags@ != 0,
        ensures
            final(self).wf(),
            final(self).slots() == old(self).slots()
                .update(nr_index(a), with_identity(old(self).slot(b), old(self).slot(a)))
                .update(nr_index(b), with_identity(old(self).slot(a), old(self).slot(b))),
            final(self).queues() == old(self).queues(),
            final(self).clock_spec() == old(self).clock_spec(),
            final(self).pending_notices() == old(self).pending_notices(),
    {
        let ia = (a.0 + 5) as usize;
        let ib = (b.0 + 5) as usize;
        let ghost o = self.procs@;
        let ghost qs = self.queues@;
        proof {
            assert forall|q: int| 0 <= q < priority::NR_SCHED_QUEUES implies !(#[trigger] qs[q]).contains(a) && !qs[q].contains(b) by {
                if qs[q].contains(a) {
                    let i = qs[q].index_of(a);
                    assert(o[nr_index(qs[q][i])].p_rts_flags@ == 0);
                }
                if qs[q].contains(b) {
                    let i = qs[q].index_of(b);
                    assert(o[nr_index(qs[q][i])].p_rts_flags@ == 0);
                }
            }
        }
        let ep_a = self.procs[ia].p_endpoint;
        let nr_a = self.procs[ia].p_nr;
        let pid_a = self.procs[ia].priv_id;
        let sch_a = self.procs[ia].p_sched.scheduler;
        let cpu_a = self.procs[ia].p_sched.cpu;
        let mask_a = self.procs[ia].p_sched.cpu_mask;
        let ep_b = self.procs[ib].p_endpoint;
        let nr_b = self.procs[ib].p_nr;
        let pid_b = self.procs[ib].priv_id;
        let sch_b = self.procs[ib].p_sched.scheduler;
        let cpu_b = self.procs[ib].p_sched.cpu;
        let mask_b = self.procs[ib].p_sched.cpu_mask;
        let q_a = self.procs[ia].caller_q.take();
        let q_b = self.procs[ib].caller_q.take();
        let _ = self.swap_slots(a, b);
        self.procs[ia].caller_q = q_a;
        self.procs[ib].caller_q = q_b;
        self.procs[ia].p_endpoint = ep_a;
        self.procs[ia].p_nr = nr_a;
        self.procs[ia].priv_id = pid_a;
        self.procs[ia].p_sched.scheduler = sch_a;
        self.procs[ia].p_sched.cpu = cpu_a;
        self.procs[ia].p_sched.cpu_mask = mask_a;
        self.procs[ib].p_endpoint = ep_b;
        self.procs[ib].p_nr = nr_b;
        self.procs[ib].priv_id = pid_b;
        self.procs[ib].p_sched.scheduler = sch_b;
        self.procs[ib].p_sched.cpu = cpu_b;
        self.procs[ib].p_sched.cpu_mask = mask_b;
        proof {
            let x = with_identity(o[ib as int], o[ia as int]);
            let y = with_identity(o[ia as int], o[ib as int]);
            assert(self.procs@ =~= o.update(ia as int, x).update(ib as int, y));
            lemma_wf_update_unqueued(self.sched, o, qs, a, x);
            lemma_wf_update_unqueued(self.sched, o.update(ia as int, x), qs, b, y);
        }
    }

    /// Clear runtime flags `rts_bits` and miscellaneous flags `misc_bits`
    /// on a process that stays blocked, with no scheduler interaction.
    pub fn clear_flags_blocked(&mut self, nr: ProcNr, rts_bits: u32, misc_bits: u32)
        requires
            old(self).wf(),
            valid_nr(nr),
            old(self).slot(nr).p_rts_flags@ != 0,
            old(self).slot(nr).p_rts_flags@ & !rts_bits != 0,
        ensures
            final(self).wf(),
            final(self).slot(nr).p_rts_flags@ == old(self).slot(nr).p_rts_flags@ & !rts_bits,
            final(self).slot(nr).p_misc_flags@ == old(self).slot(nr).p_misc_flags@ & !misc_bits,
            final(self).slots() == old(self).slots().update(nr_index(nr), KProcess {
                p_rts_flags: final(self).slot(nr).p_rts_flags,
                p_misc_flags: final(self).slot(nr).p_misc_flags,
                ..old(self).slot(nr)
            }),
            final(self).queues() == old(self).queues(),
            final(self).clock_spec() == old(self).clock_spec(),
            final(self).pending_notices() == old(self).pending_notices(),
    {
        let idx = (nr.0 + 5) as usize;
        let ghost o = self.procs@;
        let ghost qs = self.queues@;
        proof {
            assert forall|q: int| 0 <= q < priority::NR_SCHED_QUEUES implies !(#[trigger] qs[q]).contains(nr) by {
                if qs[q].contains(nr) {
                    let i = qs[q].index_of(nr);
                    assert(o[nr_index(qs[q][i])].p_rts_flags@ == 0);
                }
            }
        }
        self.procs[idx].p_rts_flags.clear(rts_bits);
        self.procs[idx].p_misc_flags.unset(misc_bits);
        proof {
            assert(self.procs@ =~= o.update(idx as int, self.procs@[idx as int]));
            lemma_wf_update_unqueued(self.sched, o, qs, nr, self.procs@[idx as int]);
        }
    }

    /// Set up boot process `nr`: name it and give it runtime flags
    /// `(old | flags) & !SLOT_FREE`, where both the old and the new flags
    /// leave it blocked.
    pub fn init_boot_proc(&mut self, nr: ProcNr, name: &str, flags: u32)
        requires
            old(self).wf(),
            valid_nr(nr),
            old(self).slot(nr).p_rts_flags@ != 0,
            (old(self).slot(nr).p_rts_flags@ | flags) & !rts::SLOT_FREE != 0,
        ensures
            final(self).wf(),
            final(self).slot(nr).p_rts_flags@ == (old(self).slot(nr).p_rts_flags@ | flags) & !rts::SLOT_FREE,
            final(self).slot(nr).p_name@ == name_from_bytes(name.spec_bytes()),
            final(self).slot(nr) == (KProcess {
                p_rts_flags: final(self).slot(nr).p_rts_flags,
                p_name: final(self).slot(nr).p_name,
                ..old(self).slot(nr)
            }),
            forall|i: int| 0 <= i < PROC_TABLE_SIZE && i != nr_index(nr) ==> #[trigger] final(self).slots()[i] == old(self).slots()[i],
            final(self).slots().len() == old(self).slots().len(),
            final(self).queues() == old(self).queues(),
            final(self).clock_spec() == old(self).clock_spec(),
            final(self).pending_notices() == old(self).pending_notices(),
    {
        let idx = (nr.0 + 5) as usize;
        let ghost o = self.procs@;
        let ghost qs = self.queues@;
        proof {
            assert forall|q: int| 0 <= q < priority::NR_SCHED_QUEUES implies !(#[trigger] qs[q]).contains(nr) by {
                if qs[q].contains(nr) {
                    let i = qs[q].index_of(nr);
                    assert(o[nr_index(qs[q][i])].p_rts_flags@ == 0);
                }
            }
        }
        self.procs[idx].set_boot_name(name);
        self.procs[idx].p_rts_flags.set(flags);
        self.procs[idx].p_rts_flags.clear(rts::SLOT_FREE);
        proof {
            assert(self.procs@ =~= o.update(idx as int, self.procs@[idx as int]));
            lemma_wf_update_unqueued(self.sched, o, qs, nr, self.procs@[idx as int]);
        }
    }

    /// Hand out the queued scheduler notices.
    pub fn take_notices(&mut self) -> (r: Vec<NoQuantumNotice>)
        requires
            old(self).wf(),
        ensures
            final(self).wf(),
            r@ == old(self).pending_notices(),
            final(self).pending_notices().len() == 0,
            final(self).slots() == old(self).slots(),
            final(self).queues() == old(self).queues(),
            final(self).clock_spec() == old(self).clock_spec(),
    {
        let mut out: Vec<NoQuantumNotice> = Vec::new();
        core::mem::swap(&mut out, &mut self.notices);
        out
    }

    /// Exchange the slots of processes `a` and `b` (for a live update).
    /// The ready queues are not touched.
    pub fn swap_slots(&mut self, a: ProcNr, b: ProcNr) -> (r: Option<()>)
        requires
            old(self).slots().len() == PROC_TABLE_SIZE,
        ensures
            r.is_some() == (valid_nr(a) && valid_nr(b)),
            r.is_some() ==> final(self).slots() == old(self).slots().update(nr_index(a), old(self).slot(b)).update(nr_index(b), old(self).slot(a)),
            r.is_none() ==> final(self).slots() == old(self).slots(),
            final(self).queues() == old(self).queues(),
            final(self).sched_spec() == old(self).sched_spec(),
            final(self).clock_spec() == old(self).clock_spec(),
            final(self).pending_notices() == old(self).pending_notices(),
    {
        let ia = match nr_to_idx(a) {
            Some(i) => i,
            None => return None,
        };
        let ib = match nr_to_idx(b) {
            Some(i) => i,
            None => return None,
        };
        if ia == ib {
            assert(self.procs@ =~= self.procs@.update(ia as int, self.procs@[ib as int]).update(ib as int, self.procs@[ia as int]));
            return Some(());
        }
        let ghost o = self.procs@;
        let (lo, hi) = if ia < ib { (ia, ib) } else { (ib, ia) };
        let p_hi = self.procs.remove(hi);
        let p_lo = self.procs.remove(lo);
        self.procs.insert(lo, p_hi);
        self.procs.insert(hi, p_lo);
        assert(self.procs@ =~= o.update(ia as int, o[ib as int]).update(ib as int, o[ia as int]));
        Some(())
    }
}

/// The contents of slot `content` under the identity of slot `ident`:
/// endpoint, process number, privilege slot, sender queue, scheduler, CPU
/// and CPU mask.
pub open spec fn with_identity(content: KProcess, ident: KProcess) -> KProcess {
    KProcess {
        caller_q: ident.caller_q,
        p_endpoint: ident.p_endpoint,
        p_nr: ident.p_nr,
        priv_id: ident.priv_id,
        p_sched: SchedFields {
            scheduler: ident.p_sched.scheduler,
            cpu: ident.p_sched.cpu,
            cpu_mask: ident.p_sched.cpu_mask,
            ..content.p_sched
        },
        ..content
    }
}

/// Slot `p` is occupied and has endpoint `endpoint`.
pub open spec fn slot_matches(p: KProcess, endpoint: Endpoint) -> bool {
    p.p_endpoint == endpoint && p.p_rts_flags@ & rts::ALL != rts::SLOT_FREE
}

} // verus!
