//! Kernel-wide state that outlives any one call: whether the kernel may
//! still allocate boot memory, whether the memory manager runs, which
//! process owns the loaded page tables, the boot page-table root and the
//! next free upper page-directory slot.
use vstd::prelude::*;
use crate::proc::ProcNr;
use crate::types::PhysBytes;

verus! {

/// Stored page-table process number meaning "none recorded yet".
pub const PTPROC_UNSET: i32 = i32::MIN;

/// Stored root address meaning "none recorded yet". It is not
/// page-aligned, so no real root can take it.
pub const ROOT_PHYS_UNSET: u64 = u64::MAX;

/// Kernel-wide state.
#[derive(Debug)]
pub struct KernelGlobals {
    kernel_may_alloc: bool,
    vm_running: bool,
    ptproc_nr: i32,
    root_phys: u64,
    free_upper_idx: usize,
}

/// The page-table process read back from stored value `v`.
pub open spec fn ptproc_of(v: i32) -> Option<ProcNr> {
    if v == PTPROC_UNSET { None } else { Some(ProcNr(v)) }
}

/// The boot root read back from stored value `v`.
pub open spec fn root_of(v: u64) -> Option<PhysBytes> {
    if v == ROOT_PHYS_UNSET { None } else { Some(PhysBytes(v)) }
}

impl KernelGlobals {
    /// Whether the kernel may allocate boot memory.
    pub closed spec fn may_alloc_spec(&self) -> bool {
        self.kernel_may_alloc
    }

    /// Whether the memory manager runs.
    pub closed spec fn vm_running_spec(&self) -> bool {
        self.vm_running
    }

    /// The stored page-table process number.
    pub closed spec fn ptproc_raw(&self) -> i32 {
        self.ptproc_nr
    }

    /// The stored boot root address.
    pub closed spec fn root_raw(&self) -> u64 {
        self.root_phys
    }

    /// The next free upper page-directory slot.
    pub closed spec fn free_upper_spec(&self) -> usize {
        self.free_upper_idx
    }

    /// State before boot: no allocation, no memory manager, nothing
    /// recorded, slot index zero.
    pub fn new() -> (r: KernelGlobals)
        ensures
            !r.may_alloc_spec(),
            !r.vm_running_spec(),
            r.ptproc_raw() == PTPROC_UNSET,
            r.root_raw() == ROOT_PHYS_UNSET,
            r.free_upper_spec() == 0,
    {
        KernelGlobals {
            kernel_may_alloc: false,
            vm_running: false,
            ptproc_nr: PTPROC_UNSET,
            root_phys: ROOT_PHYS_UNSET,
            free_upper_idx: 0,
        }
    }

    /// Whether the kernel may allocate boot memory.
    pub fn kernel_may_alloc(&self) -> (r: bool)
        ensures
            r == self.may_alloc_spec(),
    {
        self.kernel_may_alloc
    }

    /// Allow or forbid boot-memory allocation.
    pub fn set_kernel_may_alloc(&mut self, v: bool)
        ensures
            final(self).may_alloc_spec() == v,
            final(self).vm_running_spec() == old(self).vm_running_spec(),
            final(self).ptproc_raw() == old(self).ptproc_raw(),
            final(self).root_raw() == old(self).root_raw(),
            final(self).free_upper_spec() == old(self).free_upper_spec(),
    {
        self.kernel_may_alloc = v;
    }

    /// Whether the memory manager runs.
    pub fn vm_running(&self) -> (r: bool)
        ensures
            r == self.vm_running_spec(),
    {
        self.vm_running
    }

    /// Record whether the memory manager runs.
    pub fn set_vm_running(&mut self, v: bool)
        ensures
            final(self).vm_running_spec() == v,
            final(self).may_alloc_spec() == old(self).may_alloc_spec(),
            final(self).ptproc_raw() == old(self).ptproc_raw(),
            final(self).root_raw() == old(self).root_raw(),
            final(self).free_upper_spec() == old(self).free_upper_spec(),
    {
        self.vm_running = v;
    }

    /// The process whose page tables are loaded, `None` before one is
    /// recorded.
    pub fn current_ptproc_nr(&self) -> (r: Option<ProcNr>)
        ensures
            r == ptproc_of(self.ptproc_raw()),
    {
        if self.ptproc_nr == PTPROC_UNSET {
            None
        } else {
            Some(ProcNr(self.ptproc_nr))
        }
    }

    /// Record the process whose page tables are loaded.
    pub fn set_current_ptproc_nr(&mut self, nr: ProcNr)
        ensures
            final(self).ptproc_raw() == nr.0,
            final(self).may_alloc_spec() == old(self).may_alloc_spec(),
            final(self).vm_running_spec() == old(self).vm_running_spec(),
            final(self).root_raw() == old(self).root_raw(),
            final(self).free_upper_spec() == old(self).free_upper_spec(),
    {
        self.ptproc_nr = nr.0;
    }

    /// The boot page-table root, `None` before one is recorded.
    pub fn current_root_phys(&self) -> (r: Option<PhysBytes>)
        ensures
            r == root_of(self.root_raw()),
    {
        if self.root_phys == ROOT_PHYS_UNSET {
            None
        } else {
            Some(PhysBytes(self.root_phys))
        }
    }

    /// Record the boot page-table root.
    pub fn set_current_root_phys(&mut self, phys: PhysBytes)
        ensures
            final(self).root_raw() == phys.0,
            final(self).may_alloc_spec() == old(self).may_alloc_spec(),
            final(self).vm_running_spec() == old(self).vm_running_spec(),
            final(self).ptproc_raw() == old(self).ptproc_raw(),
            final(self).free_upper_spec() == old(self).free_upper_spec(),
    {
        self.root_phys = phys.0;
    }

    /// The next free upper page-directory slot.
    pub fn free_upper_idx(&self) -> (r: usize)
        ensures
            r == self.free_upper_spec(),
    {
        self.free_upper_idx
    }

    /// Set the next free upper page-directory slot.
    pub fn set_free_upper_idx(&mut self, idx: usize)
        ensures
            final(self).free_upper_spec() == idx,
            final(self).may_alloc_spec() == old(self).may_alloc_spec(),
            final(self).vm_running_spec() == old(self).vm_running_spec(),
            final(self).ptproc_raw() == old(self).ptproc_raw(),
            final(self).root_raw() == old(self).root_raw(),
    {
        self.free_upper_idx = idx;
    }

    /// Claim `n` upper page-directory slots: the index moves on by `n`
    /// (wrapping) and its previous value is returned.
    pub fn advance_free_upper_idx(&mut self, n: usize) -> (r: usize)
        ensures
            r == old(self).free_upper_spec(),
            final(self).free_upper_spec() == old(self).free_upper_spec().wrapping_add(n),
            final(self).may_alloc_spec() == old(self).may_alloc_spec(),
            final(self).vm_running_spec() == old(self).vm_running_spec(),
            final(self).ptproc_raw() == old(self).ptproc_raw(),
            final(self).root_raw() == old(self).root_raw(),
    {
        let prev = self.free_upper_idx;
        self.free_upper_idx = prev.wrapping_add(n);
        prev
    }
}

/// A recorded page-table process is read back, and a recorded boot root
/// is read back, except for the two sentinel values, which read as
/// "none".
pub proof fn law_record_then_read(nr: ProcNr, phys: PhysBytes)
    ensures
        nr.0 != PTPROC_UNSET ==> ptproc_of(nr.0) == Some(nr),
        phys.0 != ROOT_PHYS_UNSET ==> root_of(phys.0) == Some(phys),
{
}

} // verus!
