//! The privilege table: one privilege slot per system process, the first
//! `NR_BOOT_PROCS` reserved for boot processes, the rest handed out at run
//! time.
use vstd::prelude::*;

verus! {

/// Number of privilege slots.
pub const NR_SYS_PROCS: usize = 64;

/// Number of boot processes, which own the static slots.
pub const NR_BOOT_PROCS: usize = 17;

/// Privilege slot shared by all user processes.
pub const USER_PRIV_ID: u8 = 0;

/// Process number of a free privilege slot.
pub const PROC_NR_NONE: i32 = -1;

/// Index of a privilege slot.
#[derive(Debug, Clone, Copy, PartialEq, Eq, Structural, Hash)]
pub struct SysId(pub u8);

impl SysId {
    /// Whether the slot is one of the static slots of boot processes.
    pub fn is_static(self) -> (r: bool)
        ensures
            r == (self.0 < NR_BOOT_PROCS),
    {
        (self.0 as usize) < NR_BOOT_PROCS
    }

    /// Whether the index names a slot of the table.
    pub fn is_valid(self) -> (r: bool)
        ensures
            r == (self.0 < NR_SYS_PROCS),
    {
        (self.0 as usize) < NR_SYS_PROCS
    }
}

/// Bit `i` of `bits` is set.
pub open spec fn bit_of(bits: u64, i: int) -> bool {
    0 <= i < 64 && (bits >> (i as u64)) & 1u64 == 1u64
}

/// A set of privilege slots, one bit per slot.
#[derive(Debug, Clone, Copy)]
pub struct Bitmap {
    /// Bit `i` stands for slot `i`.
    pub bits: u64,
}

impl View for Bitmap {
    type V = u64;

    open spec fn view(&self) -> u64 {
        self.bits
    }
}

impl Bitmap {
    /// The empty set.
    pub fn new() -> (r: Bitmap)
        ensures
            r@ == 0,
    {
        Bitmap { bits: 0 }
    }

    /// Whether slot `i` is in the set (`false` past the last slot).
    pub fn get(&self, i: usize) -> (r: bool)
        ensures
            r == bit_of(self@, i as int),
    {
        if i < 64 {
            (self.bits >> (i as u64)) & 1u64 == 1u64
        } else {
            false
        }
    }

    /// Put slot `i` in the set or take it out; an index past the last slot
    /// changes nothing.
    pub fn set(&mut self, i: usize, value: bool)
        ensures
            forall|j: int| 0 <= j < 64 && j != i ==> bit_of(final(self)@, j) == bit_of(old(self)@, j),
            i < 64 ==> bit_of(final(self)@, i as int) == value,
            i >= 64 ==> final(self)@ == old(self)@,
    {
        if i < 64 {
            let sh = i as u64;
            let old_bits = self.bits;
            if value {
                self.bits = old_bits | (1u64 << sh);
            } else {
                self.bits = old_bits & !(1u64 << sh);
            }
            proof {
                assert forall|j: u64| j < 64 && j != sh implies
                    ((old_bits | (1u64 << sh)) >> j) & 1u64 == (old_bits >> j) & 1u64
                    && ((old_bits & !(1u64 << sh)) >> j) & 1u64 == (old_bits >> j) & 1u64 by {
                    assert(sh < 64 && j < 64 && j != sh ==> ((old_bits | (1u64 << sh)) >> j) & 1u64 == (old_bits >> j) & 1u64
                        && ((old_bits & !(1u64 << sh)) >> j) & 1u64 == (old_bits >> j) & 1u64) by (bit_vector);
                }
                assert(sh < 64 ==> ((old_bits | (1u64 << sh)) >> sh) & 1u64 == 1u64
                    && ((old_bits & !(1u64 << sh)) >> sh) & 1u64 == 0u64) by (bit_vector);
                assert forall|j: int| 0 <= j < 64 && j != i implies bit_of(self@, j) == bit_of(old_bits, j) by {
                    let ju = j as u64;
                    assert(ju < 64 && ju != sh);
                }
            }
        }
    }

    /// Empty the set.
    pub fn clear(&mut self)
        ensures
            final(self)@ == 0,
    {
        self.bits = 0;
    }

    /// Whether the set is empty.
    pub fn is_empty(&self) -> (r: bool)
        ensures
            r == (self@ == 0),
    {
        self.bits == 0
    }
}

/// Privilege flags of a slot.
#[derive(Debug, Clone, Copy, Default)]
pub struct PrivFlags(pub u16);

impl PrivFlags {
    /// System process.
    pub const SYS_PROC: u16 = 0x001;
    /// Billable.
    pub const BILLABLE: u16 = 0x002;
    /// Preemptible.
    pub const PREEMPTIBLE: u16 = 0x004;
    /// The slot was handed out at run time.
    pub const DYN_PRIV_ID: u16 = 0x010;

    /// No flag set.
    pub fn empty() -> (r: PrivFlags)
        ensures
            r.0 == 0,
    {
        PrivFlags(0)
    }

    /// Whether any bit of `flag` is set.
    pub fn contains(self, flag: u16) -> (r: bool)
        ensures
            r == (self.0 & flag != 0),
    {
        (self.0 & flag) != 0
    }

    /// Set the bits of `flag`.
    pub fn insert(&mut self, flag: u16)
        ensures
            final(self).0 == old(self).0 | flag,
    {
        self.0 = self.0 | flag;
    }

    /// Clear the bits of `flag`.
    pub fn remove(&mut self, flag: u16)
        ensures
            final(self).0 == old(self).0 & !flag,
    {
        self.0 = self.0 & !flag;
    }
}

/// One privilege slot.
#[derive(Debug, Clone, Copy)]
pub struct Priv {
    /// The process that owns the slot, `PROC_NR_NONE` when free.
    pub s_proc_nr: i32,
    /// Index of the slot.
    pub s_id: SysId,
    /// Privilege flags.
    pub s_flags: PrivFlags,
    /// Slots this process may send to.
    pub s_ipc_to: Bitmap,
    /// Kernel calls this process may make.
    pub s_k_call_mask: Bitmap,
    /// Slots with asynchronous messages pending for this process.
    pub s_asyn_pending: u64,
    /// Slots with notifications pending for this process.
    pub s_notify_pending: u64,
    /// Pending hardware interrupts.
    pub s_int_pending: u64,
    /// Pending kernel signals.
    pub s_sig_pending: u64,
    /// Whether diagnostics output is pending for this process.
    pub s_diag_sig: bool,
}

/// Slot `p` is free and has index `id`, no flags and empty masks.
pub open spec fn is_blank(p: Priv, id: int) -> bool {
    &&& p.s_proc_nr == PROC_NR_NONE
    &&& p.s_id.0 == id
    &&& p.s_flags.0 == 0
    &&& p.s_ipc_to@ == 0
    &&& p.s_k_call_mask@ == 0
}

/// Nothing is pending for slot `p`: no asynchronous message,
/// notification, interrupt, signal or diagnostics.
pub open spec fn nothing_pending(p: Priv) -> bool {
    &&& p.s_asyn_pending == 0
    &&& p.s_notify_pending == 0
    &&& p.s_int_pending == 0
    &&& p.s_sig_pending == 0
    &&& !p.s_diag_sig
}

impl Priv {
    /// A free slot with index `id`.
    pub fn empty(id: SysId) -> (r: Priv)
        ensures
            is_blank(r, id.0 as int),
            nothing_pending(r),
    {
        Priv {
            s_proc_nr: PROC_NR_NONE,
            s_id: id,
            s_flags: PrivFlags::empty(),
            s_ipc_to: Bitmap::new(),
            s_k_call_mask: Bitmap::new(),
            s_asyn_pending: 0,
            s_notify_pending: 0,
            s_int_pending: 0,
            s_sig_pending: 0,
            s_diag_sig: false,
        }
    }

    /// Whether no process owns the slot.
    pub fn is_empty(&self) -> (r: bool)
        ensures
            r == (self.s_proc_nr == PROC_NR_NONE),
    {
        self.s_proc_nr == PROC_NR_NONE
    }

    /// Whether the owner is a system process.
    pub fn is_sys_proc(&self) -> (r: bool)
        ensures
            r == (self.s_flags.0 & PrivFlags::SYS_PROC != 0),
    {
        self.s_flags.contains(PrivFlags::SYS_PROC)
    }
}

/// The first free slot of `t` at or after `i`, or `t.len()`.
pub open spec fn first_free(t: Seq<Priv>, i: int) -> int
    decreases t.len() - i,
{
    if i < 0 || i >= t.len() {
        t.len() as int
    } else if t[i].s_proc_nr == PROC_NR_NONE {
        i
    } else {
        first_free(t, i + 1)
    }
}

/// The first slot of `t` at or after `i` owned by `nr`, or `t.len()`.
pub open spec fn find_owner(t: Seq<Priv>, nr: i32, i: int) -> int
    decreases t.len() - i,
{
    if i < 0 || i >= t.len() {
        t.len() as int
    } else if t[i].s_proc_nr == nr {
        i
    } else {
        find_owner(t, nr, i + 1)
    }
}

/// `t` with slot `i` owned by `nr`.
pub open spec fn with_owner(t: Seq<Priv>, i: int, nr: i32) -> Seq<Priv> {
    t.update(i, Priv { s_proc_nr: nr, ..t[i] })
}

/// The slots and the result after `alloc_dynamic(nr)`.
pub open spec fn alloc_dynamic_spec(t: Seq<Priv>, nr: i32) -> (Seq<Priv>, Result<SysId, i32>) {
    let k = first_free(t, NR_BOOT_PROCS as int);
    if k < t.len() {
        (with_owner(t, k, nr), Ok(SysId(k as u8)))
    } else {
        (t, Err(12))
    }
}

/// The slots and the result after `alloc_static(id, nr)`.
pub open spec fn alloc_static_spec(t: Seq<Priv>, id: SysId, nr: i32) -> (Seq<Priv>, Result<(), i32>) {
    if id.0 >= NR_BOOT_PROCS {
        (t, Err(22))
    } else if t[id.0 as int].s_proc_nr != PROC_NR_NONE {
        (t, Err(16))
    } else {
        (with_owner(t, id.0 as int, nr), Ok(()))
    }
}

/// The slots after `free(id)`.
pub open spec fn free_spec(t: Seq<Priv>, id: SysId) -> Seq<Priv> {
    if id.0 < NR_SYS_PROCS {
        t.update(id.0 as int, Priv {
            s_proc_nr: PROC_NR_NONE,
            s_flags: PrivFlags(0),
            s_ipc_to: Bitmap { bits: 0 },
            s_k_call_mask: Bitmap { bits: 0 },
            ..t[id.0 as int]
        })
    } else {
        t
    }
}

/// The owner of slot `id` of `t`, if `id` names a slot.
pub open spec fn id_to_nr_spec(t: Seq<Priv>, id: SysId) -> Option<i32> {
    if id.0 < NR_SYS_PROCS {
        Some(t[id.0 as int].s_proc_nr)
    } else {
        None
    }
}

/// The index of the first slot of `t` owned by `nr`, if any. A free slot
/// is owned by no process, so `PROC_NR_NONE` owns nothing.
pub open spec fn nr_to_id_spec(t: Seq<Priv>, nr: i32) -> Option<SysId> {
    let k = find_owner(t, nr, 0);
    if nr != PROC_NR_NONE && k < t.len() {
        Some(t[k].s_id)
    } else {
        None
    }
}

/// Whether a process with privileges `caller` may send to `nr`: `nr`
/// owns a slot of `t` and the first such slot is in `caller`'s send mask.
pub open spec fn may_send_spec(t: Seq<Priv>, caller: Priv, nr: i32) -> bool {
    match nr_to_id_spec(t, nr) {
        Some(id) => bit_of(caller.s_ipc_to@, id.0 as int),
        None => false,
    }
}

proof fn lemma_first_free(t: Seq<Priv>, k: int)
    requires
        0 <= k <= t.len(),
    ensures
        k <= first_free(t, k) <= t.len(),
        first_free(t, k) < t.len() ==> t[first_free(t, k)].s_proc_nr == PROC_NR_NONE,
        forall|j: int| k <= j < first_free(t, k) ==> #[trigger] t[j].s_proc_nr != PROC_NR_NONE,
    decreases t.len() - k,
{
    if k < t.len() && t[k].s_proc_nr != PROC_NR_NONE {
        lemma_first_free(t, k + 1);
    }
}

proof fn lemma_find_owner(t: Seq<Priv>, nr: i32, k: int)
    requires
        0 <= k <= t.len(),
    ensures
        k <= find_owner(t, nr, k) <= t.len(),
        find_owner(t, nr, k) < t.len() ==> t[find_owner(t, nr, k)].s_proc_nr == nr,
        forall|j: int| k <= j < find_owner(t, nr, k) ==> #[trigger] t[j].s_proc_nr != nr,
    decreases t.len() - k,
{
    if k < t.len() && t[k].s_proc_nr != nr {
        lemma_find_owner(t, nr, k + 1);
    }
}

/// The privilege table.
pub struct PrivTable {
    slots: Vec<Priv>,
}

impl PrivTable {
    /// The slots, in index order.
    pub closed spec fn slots_spec(&self) -> Seq<Priv> {
        self.slots@
    }

    /// The table has `NR_SYS_PROCS` slots, each holding its own index.
    pub open spec fn wf(&self) -> bool {
        &&& self.slots_spec().len() == NR_SYS_PROCS
        &&& forall|i: int| 0 <= i < NR_SYS_PROCS ==> (#[trigger] self.slots_spec()[i]).s_id.0 == i
    }

    /// A table of free slots.
    pub fn new() -> (r: PrivTable)
        ensures
            r.wf(),
            forall|i: int| 0 <= i < NR_SYS_PROCS ==> is_blank(#[trigger] r.slots_spec()[i], i) && nothing_pending(r.slots_spec()[i]),
    {
        let mut slots: Vec<Priv> = Vec::new();
        let mut i: u8 = 0;
        while i < 64
            invariant
                i <= 64,
                slots@.len() == i,
                forall|j: int| 0 <= j < i ==> is_blank(#[trigger] slots@[j], j) && nothing_pending(slots@[j]),
            decreases 64 - i,
        {
            slots.push(Priv::empty(SysId(i)));
            i = i + 1;
        }
        PrivTable { slots }
    }

    /// The slot `id`, or `None` when `id` names no slot.
    pub fn get(&self, id: SysId) -> (r: Option<&Priv>)
        requires
            self.wf(),
        ensures
            r.is_some() == (id.0 < NR_SYS_PROCS),
            r.is_some() ==> *r.unwrap() == self.slots_spec()[id.0 as int],
    {
        if id.is_valid() {
            Some(&self.slots[id.0 as usize])
        } else {
            None
        }
    }

    /// The slot `id` for update, or `None` when `id` names no slot.
    pub fn get_mut(&mut self, id: SysId) -> (r: Option<&mut Priv>)
        requires
            old(self).wf(),
        ensures
            r.is_some() == (id.0 < NR_SYS_PROCS),
            r.is_some() ==> *r.unwrap() == old(self).slots_spec()[id.0 as int],
            r.is_some() ==> final(self).slots_spec() == old(self).slots_spec().update(id.0 as int, *final(r.unwrap())),
            r.is_none() ==> final(self).slots_spec() == old(self).slots_spec(),
    {
        if id.is_valid() {
            Some(&mut self.slots[id.0 as usize])
        } else {
            None
        }
    }

    /// The static slots, those of boot processes.
    pub fn static_slots(&self) -> (r: &[Priv])
        requires
            self.wf(),
        ensures
            r@ == self.slots_spec().subrange(0, NR_BOOT_PROCS as int),
    {
        vstd::slice::slice_subrange(self.slots.as_slice(), 0, NR_BOOT_PROCS)
    }

    /// The dynamic slots, handed out at run time.
    pub fn dynamic_slots(&self) -> (r: &[Priv])
        requires
            self.wf(),
        ensures
            r@ == self.slots_spec().subrange(NR_BOOT_PROCS as int, NR_SYS_PROCS as int),
    {
        vstd::slice::slice_subrange(self.slots.as_slice(), NR_BOOT_PROCS, NR_SYS_PROCS)
    }

    /// Give the first free dynamic slot to `proc_nr` and return its index;
    /// `ENOSPC` (12) when every dynamic slot is taken.
    pub fn alloc_dynamic(&mut self, proc_nr: i32) -> (r: Result<SysId, i32>)
        requires
            old(self).wf(),
        ensures
            final(self).wf(),
            (final(self).slots_spec(), r) == alloc_dynamic_spec(old(self).slots_spec(), proc_nr),
    {
        let ghost t = self.slots@;
        let mut i: usize = NR_BOOT_PROCS;
        while i < NR_SYS_PROCS
            invariant
                NR_BOOT_PROCS <= i <= NR_SYS_PROCS,
                self.slots@ == t,
                t == old(self).slots_spec(),
                old(self).wf(),
                forall|j: int| NR_BOOT_PROCS <= j < i ==> #[trigger] t[j].s_proc_nr != PROC_NR_NONE,
            decreases NR_SYS_PROCS - i,
        {
            if self.slots[i].is_empty() {
                proof {
                    lemma_first_free(t, NR_BOOT_PROCS as int);
                    let k = first_free(t, NR_BOOT_PROCS as int);
                    if k < i {
                        assert(t[k].s_proc_nr != PROC_NR_NONE);
                    }
                    if k > i {
                        assert(t[i as int].s_proc_nr != PROC_NR_NONE);
                    }
                }
                self.slots[i].s_proc_nr = proc_nr;
                proof {
                    assert(self.slots@ =~= with_owner(t, i as int, proc_nr));
                }
                return Ok(SysId(i as u8));
            }
            i = i + 1;
        }
        proof {
            lemma_first_free(t, NR_BOOT_PROCS as int);
            let k = first_free(t, NR_BOOT_PROCS as int);
            if k < NR_SYS_PROCS {
                assert(t[k].s_proc_nr != PROC_NR_NONE);
            }
        }
        Err(12)
    }

    /// Give static slot `id` to `proc_nr`: `EINVAL` (22) when `id` is not a
    /// static slot, `EBUSY` (16) when the slot is taken.
    pub fn alloc_static(&mut self, id: SysId, proc_nr: i32) -> (r: Result<(), i32>)
        requires
            old(self).wf(),
        ensures
            final(self).wf(),
            (final(self).slots_spec(), r) == alloc_static_spec(old(self).slots_spec(), id, proc_nr),
    {
        if !id.is_static() {
            return Err(22);
        }
        let i = id.0 as usize;
        if !self.slots[i].is_empty() {
            return Err(16);
        }
        self.slots[i].s_proc_nr = proc_nr;
        assert(self.slots@ =~= with_owner(old(self).slots_spec(), i as int, proc_nr));
        Ok(())
    }

    /// The owner of slot `id`, or `None` when `id` names no slot.
    pub fn id_to_nr(&self, id: SysId) -> (r: Option<i32>)
        requires
            self.wf(),
        ensures
            r == id_to_nr_spec(self.slots_spec(), id),
    {
        match self.get(id) {
            Some(p) => Some(p.s_proc_nr),
            None => None,
        }
    }

    /// The index of the first slot owned by `nr`, if any; `None` for
    /// `PROC_NR_NONE`, which marks free slots.
    pub fn nr_to_id(&self, nr: i32) -> (r: Option<SysId>)
        requires
            self.wf(),
        ensures
            r == nr_to_id_spec(self.slots_spec(), nr),
    {
        if nr == PROC_NR_NONE {
            return None;
        }
        let ghost t = self.slots@;
        let mut i: usize = 0;
        while i < NR_SYS_PROCS
            invariant
                0 <= i <= NR_SYS_PROCS,
                self.slots@ == t,
                self.wf(),
                nr != PROC_NR_NONE,
                forall|j: int| 0 <= j < i ==> #[trigger] t[j].s_proc_nr != nr,
            decreases NR_SYS_PROCS - i,
        {
            if self.slots[i].s_proc_nr == nr {
                proof {
                    lemma_find_owner(t, nr, 0);
                    let k = find_owner(t, nr, 0);
                    if k < i {
                        assert(t[k].s_proc_nr != nr);
                    }
                    if k > i {
                        assert(t[i as int].s_proc_nr != nr);
                    }
                }
                return Some(self.slots[i].s_id);
            }
            i = i + 1;
        }
        proof {
            lemma_find_owner(t, nr, 0);
            let k = find_owner(t, nr, 0);
            if k < NR_SYS_PROCS {
                assert(t[k].s_proc_nr != nr);
            }
        }
        None
    }

    /// Whether a process with privileges `caller_priv` may send to
    /// `target_nr`: the target owns a slot and that slot is in the caller's
    /// send mask.
    pub fn may_send_to(&self, caller_priv: &Priv, target_nr: i32) -> (r: bool)
        requires
            self.wf(),
        ensures
            r == may_send_spec(self.slots_spec(), *caller_priv, target_nr),
    {
        let target_id = match self.nr_to_id(target_nr) {
            Some(id) => id,
            None => return false,
        };
        caller_priv.s_ipc_to.get(target_id.0 as usize)
    }

    /// Whether a process may send asynchronously to `target_nr`: as
    /// `may_send_to`, and a process may always send to itself.
    pub fn may_asynsend_to(&self, caller_priv: &Priv, caller_nr: i32, target_nr: i32) -> (r: bool)
        requires
            self.wf(),
        ensures
            r == (may_send_spec(self.slots_spec(), *caller_priv, target_nr) || caller_nr == target_nr),
    {
        self.may_send_to(caller_priv, target_nr) || caller_nr == target_nr
    }

    /// Release slot `id`: it becomes free, with no flags and empty masks.
    /// An `id` that names no slot changes nothing.
    pub fn free(&mut self, id: SysId)
        requires
            old(self).wf(),
        ensures
            final(self).wf(),
            final(self).slots_spec() == free_spec(old(self).slots_spec(), id),
    {
        if id.is_valid() {
            let i = id.0 as usize;
            self.slots[i].s_proc_nr = PROC_NR_NONE;
            self.slots[i].s_flags = PrivFlags::empty();
            self.slots[i].s_ipc_to.clear();
            self.slots[i].s_k_call_mask.clear();
            proof {
                assert(self.slots@[i as int].s_ipc_to == Bitmap { bits: 0 });
                assert(self.slots@[i as int].s_k_call_mask == Bitmap { bits: 0 });
                assert(self.slots@ =~= free_spec(old(self).slots_spec(), id));
            }
        }
    }
}

impl PrivTable {
    /// Give slot `dst` every send permission of slot `src` as well.
    pub fn inherit_ipc_to(&mut self, src: SysId, dst: SysId)
        requires
            old(self).wf(),
            src.0 < NR_SYS_PROCS,
            dst.0 < NR_SYS_PROCS,
        ensures
            final(self).wf(),
            final(self).slots_spec() == old(self).slots_spec().update(dst.0 as int, Priv {
                s_ipc_to: Bitmap { bits: old(self).slots_spec()[dst.0 as int].s_ipc_to@ | old(self).slots_spec()[src.0 as int].s_ipc_to@ },
                ..old(self).slots_spec()[dst.0 as int]
            }),
    {
        let bits = self.slots[src.0 as usize].s_ipc_to.bits;
        let d = dst.0 as usize;
        let nb = self.slots[d].s_ipc_to.bits | bits;
        self.slots[d].s_ipc_to.bits = nb;
        assert(self.slots@ =~= old(self).slots_spec().update(dst.0 as int, Priv {
            s_ipc_to: Bitmap { bits: old(self).slots_spec()[dst.0 as int].s_ipc_to@ | old(self).slots_spec()[src.0 as int].s_ipc_to@ },
            ..old(self).slots_spec()[dst.0 as int]
        }));
    }

    /// Exchange slots `a` and `b` for a live update: each takes the
    /// other's contents but keeps its index, and becomes owned by `nr_a`
    /// and `nr_b` respectively.
    pub fn swap_for_update(&mut self, a: SysId, b: SysId, nr_a: i32, nr_b: i32)
        requires
            old(self).wf(),
            a.0 < NR_SYS_PROCS,
            b.0 < NR_SYS_PROCS,
            a.0 != b.0,
        ensures
            final(self).wf(),
            final(self).slots_spec() == old(self).slots_spec()
                .update(a.0 as int, priv_with_identity(old(self).slots_spec()[b.0 as int], old(self).slots_spec()[a.0 as int], nr_a))
                .update(b.0 as int, priv_with_identity(old(self).slots_spec()[a.0 as int], old(self).slots_spec()[b.0 as int], nr_b)),
    {
        let ia = a.0 as usize;
        let ib = b.0 as usize;
        let pa = self.slots[ia];
        let pb = self.slots[ib];
        self.slots.set(ia, Priv {
            s_id: pa.s_id,
            s_proc_nr: nr_a,
            s_asyn_pending: pa.s_asyn_pending,
            s_notify_pending: pa.s_notify_pending,
            s_int_pending: pa.s_int_pending,
            s_sig_pending: pa.s_sig_pending,
            s_diag_sig: pa.s_diag_sig,
            ..pb
        });
        self.slots.set(ib, Priv {
            s_id: pb.s_id,
            s_proc_nr: nr_b,
            s_asyn_pending: pb.s_asyn_pending,
            s_notify_pending: pb.s_notify_pending,
            s_int_pending: pb.s_int_pending,
            s_sig_pending: pb.s_sig_pending,
            s_diag_sig: pb.s_diag_sig,
            ..pa
        });
        assert(self.slots@ =~= old(self).slots_spec()
            .update(a.0 as int, priv_with_identity(old(self).slots_spec()[b.0 as int], old(self).slots_spec()[a.0 as int], nr_a))
            .update(b.0 as int, priv_with_identity(old(self).slots_spec()[a.0 as int], old(self).slots_spec()[b.0 as int], nr_b)));
    }
}

impl Default for PrivTable {
    fn default() -> (r: PrivTable)
        ensures
            r.wf(),
            forall|i: int| 0 <= i < NR_SYS_PROCS ==> is_blank(#[trigger] r.slots_spec()[i], i) && nothing_pending(r.slots_spec()[i]),
    {
        PrivTable::new()
    }
}

/// The contents of slot `content` under the identity of slot `ident`,
/// owned by process `nr`: the index and the pending asynchronous
/// messages, notifications, interrupts, signals and diagnostics stay with
/// `ident`.
pub open spec fn priv_with_identity(content: Priv, ident: Priv, nr: i32) -> Priv {
    Priv {
        s_id: ident.s_id,
        s_proc_nr: nr,
        s_asyn_pending: ident.s_asyn_pending,
        s_notify_pending: ident.s_notify_pending,
        s_int_pending: ident.s_int_pending,
        s_sig_pending: ident.s_sig_pending,
        s_diag_sig: ident.s_diag_sig,
        ..content
    }
}

/// The slots of a well-formed table: `NR_SYS_PROCS` of them, each holding
/// its own index.
pub open spec fn slots_wf(t: Seq<Priv>) -> bool {
    &&& t.len() == NR_SYS_PROCS
    &&& forall|i: int| 0 <= i < NR_SYS_PROCS ==> (#[trigger] t[i]).s_id.0 == i
}

/// A slot given out is read back: after a successful `alloc_static(id,
/// nr)` or `alloc_dynamic(nr)`, `id_to_nr` of the slot is `nr`, and a
/// dynamic slot lies past the static ones.
pub proof fn law_alloc_then_id_to_nr(t: Seq<Priv>, id: SysId, nr: i32)
    requires
        slots_wf(t),
    ensures
        alloc_static_spec(t, id, nr).1 is Ok ==> id_to_nr_spec(alloc_static_spec(t, id, nr).0, id) == Some(nr),
        alloc_dynamic_spec(t, nr).1 is Ok ==> ({
            let got = alloc_dynamic_spec(t, nr).1->Ok_0;
            &&& NR_BOOT_PROCS <= got.0 < NR_SYS_PROCS
            &&& id_to_nr_spec(alloc_dynamic_spec(t, nr).0, got) == Some(nr)
        }),
{
    lemma_first_free(t, NR_BOOT_PROCS as int);
}

/// The send check follows the caller's send mask and nothing else: when
/// process `nr` owns slot `k` (its first slot), `may_send_to(caller, nr)`
/// is bit `k` of the caller's `s_ipc_to`, whether `k` is a static or a
/// dynamic slot; a process that owns no slot, and the "no process"
/// number, may not be sent to.
pub proof fn law_may_send_to_follows_mask(t: Seq<Priv>, caller: Priv, nr: i32, k: int)
    requires
        slots_wf(t),
    ensures
        0 <= k < NR_SYS_PROCS && nr != PROC_NR_NONE && t[k].s_proc_nr == nr
            && (forall|j: int| 0 <= j < k ==> #[trigger] t[j].s_proc_nr != nr)
            ==> may_send_spec(t, caller, nr) == ((caller.s_ipc_to@ >> (k as u64)) & 1u64 == 1u64),
        nr == PROC_NR_NONE || (forall|j: int| 0 <= j < NR_SYS_PROCS ==> #[trigger] t[j].s_proc_nr != nr)
            ==> !may_send_spec(t, caller, nr),
{
    lemma_find_owner(t, nr, 0);
    let f = find_owner(t, nr, 0);
    if 0 <= k < NR_SYS_PROCS && nr != PROC_NR_NONE && t[k].s_proc_nr == nr
        && (forall|j: int| 0 <= j < k ==> #[trigger] t[j].s_proc_nr != nr) {
        if f < k {
            assert(t[f].s_proc_nr != nr);
        }
        if f > k {
            assert(t[k].s_proc_nr != nr);
        }
        assert(f == k);
    }
    if f < t.len() {
        assert(t[f].s_proc_nr == nr);
    }
}

/// A process given a dynamic slot may be sent to exactly when the
/// caller's send mask has that slot's bit: after `alloc_dynamic(nr)`
/// gives slot `id` to a process that owned none, `may_send_to(caller,
/// nr)` is bit `id` of the caller's `s_ipc_to`.
pub proof fn law_may_send_to_dynamic_slot(t: Seq<Priv>, caller: Priv, nr: i32)
    requires
        slots_wf(t),
        nr != PROC_NR_NONE,
        forall|j: int| 0 <= j < NR_SYS_PROCS ==> #[trigger] t[j].s_proc_nr != nr,
        alloc_dynamic_spec(t, nr).1 is Ok,
    ensures
        ({
            let id = alloc_dynamic_spec(t, nr).1->Ok_0;
            may_send_spec(alloc_dynamic_spec(t, nr).0, caller, nr) == ((caller.s_ipc_to@ >> (id.0 as u64)) & 1u64 == 1u64)
        }),
{
    let b = NR_BOOT_PROCS as int;
    lemma_first_free(t, b);
    let k = first_free(t, b);
    let t2 = alloc_dynamic_spec(t, nr).0;
    assert(t2[k].s_proc_nr == nr);
    assert forall|j: int| 0 <= j < k implies #[trigger] t2[j].s_proc_nr != nr by {
        assert(t2[j] == t[j]);
    }
    assert(slots_wf(t2));
    law_may_send_to_follows_mask(t2, caller, nr, k);
}

/// A process that owned no slot is found in the slot it was given: after
/// a successful `alloc_static(id, nr)`, `nr_to_id(nr)` is `id`.
pub proof fn law_alloc_static_then_nr_to_id(t: Seq<Priv>, id: SysId, nr: i32)
    requires
        slots_wf(t),
        forall|j: int| 0 <= j < t.len() ==> #[trigger] t[j].s_proc_nr != nr,
        alloc_static_spec(t, id, nr).1 is Ok,
    ensures
        nr_to_id_spec(alloc_static_spec(t, id, nr).0, nr) == Some(id),
{
    let t2 = alloc_static_spec(t, id, nr).0;
    lemma_find_owner(t2, nr, 0);
    let k = find_owner(t2, nr, 0);
    assert(t2[id.0 as int].s_proc_nr == nr);
    if k > id.0 {
        assert(t2[id.0 as int].s_proc_nr != nr);
    }
    if k < id.0 {
        assert(t2[k].s_proc_nr == t[k].s_proc_nr);
    }
    assert(k == id.0);
}

/// Freeing empties a slot: after `free(id)` of a slot, the slot has no
/// owner, no flags and empty masks, and keeps its index.
pub proof fn law_free_then_empty(t: Seq<Priv>, id: SysId)
    requires
        slots_wf(t),
        id.0 < NR_SYS_PROCS,
    ensures
        is_blank(free_spec(t, id)[id.0 as int], id.0 as int),
        slots_wf(free_spec(t, id)),
{
}

/// A freed dynamic slot is handed out again: when `alloc_dynamic` gave
/// slot `id` and `id` is then freed, the next `alloc_dynamic` gives `id`.
pub proof fn law_free_then_realloc_reuses(t: Seq<Priv>, nr: i32, nr2: i32)
    requires
        slots_wf(t),
        alloc_dynamic_spec(t, nr).1 is Ok,
    ensures
        ({
            let id = alloc_dynamic_spec(t, nr).1->Ok_0;
            let t3 = free_spec(alloc_dynamic_spec(t, nr).0, id);
            alloc_dynamic_spec(t3, nr2).1 == Ok::<SysId, i32>(id)
        }),
{
    let b = NR_BOOT_PROCS as int;
    lemma_first_free(t, b);
    let k = first_free(t, b);
    let id = alloc_dynamic_spec(t, nr).1->Ok_0;
    let t3 = free_spec(alloc_dynamic_spec(t, nr).0, id);
    assert(id.0 == k);
    lemma_first_free(t3, b);
    let k3 = first_free(t3, b);
    assert(t3[k].s_proc_nr == PROC_NR_NONE);
    if k3 < k {
        assert(t3[k3].s_proc_nr == t[k3].s_proc_nr);
    }
    if k3 > k {
        assert(t3[k].s_proc_nr != PROC_NR_NONE);
    }
    assert(k3 == k);
}

} // verus!
