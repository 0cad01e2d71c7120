use minix_kernel::page_fault::{
    build_vm_pagefault_msg, clear_pagefault_pending, is_pagefault_pending, last_fault_addr, set_pagefault_pending,
    VM_PAGEFAULT,
};
use minix_kernel::proc::rts;
use minix_kernel::proc::ProcNr;
use minix_kernel::proc_table::ProcessTable;
use minix_kernel::pte_walk::{
    pte_to_page_flags, pte_to_phys, user_copy_chunks, vaddr_indices, PageFlags, UserChunk, PAGE_OFFSET_MASK,
    PTE_ADDR_MASK, PTE_SIZE, PT_ENTRIES,
};
use minix_kernel::types::{Endpoint, PhysBytes, VirBytes};

fn user_table() -> ProcessTable {
    let mut pt = ProcessTable::new();
    let proc = pt.get_mut(ProcNr(0)).unwrap();
    proc.p_endpoint = Endpoint(100);
    proc.p_rts_flags.clear(rts::SLOT_FREE);
    pt
}

#[test]
fn test_set_pagefault_pending_sets_flag_and_addr() {
    let mut pt = user_table();
    let proc = pt.get_mut(ProcNr(0)).unwrap();
    set_pagefault_pending(proc, 0xdead_beef);
    assert!(is_pagefault_pending(proc));
    assert_eq!(last_fault_addr(proc), Some(0xdead_beef));
}

#[test]
fn test_clear_pagefault_pending_clears_flag_and_addr() {
    let mut pt = user_table();
    let proc = pt.get_mut(ProcNr(0)).unwrap();
    set_pagefault_pending(proc, 0x1234_5678);
    assert!(clear_pagefault_pending(proc));
    assert!(!is_pagefault_pending(proc));
    assert_eq!(last_fault_addr(proc), None);
    assert!(!clear_pagefault_pending(proc));
}

#[test]
fn test_is_pagefault_pending_default_false() {
    let mut pt = user_table();
    let proc = pt.get_mut(ProcNr(0)).unwrap();
    assert!(!is_pagefault_pending(proc));
    assert_eq!(last_fault_addr(proc), None);
}

#[test]
fn test_build_vm_pagefault_msg_populates_fields() {
    let msg = build_vm_pagefault_msg(Endpoint(42), 0xcafe_f00d, 0x07);
    assert_eq!(msg.m_source, Endpoint(42));
    assert_eq!(msg.m_type, VM_PAGEFAULT);
    assert_eq!(msg.vpf_addr, 0xcafe_f00d);
    assert_eq!(msg.vpf_flags, 0x07);
}

#[test]
fn test_pagefault_pending_roundtrip_with_clear() {
    let mut pt = user_table();
    let proc = pt.get_mut(ProcNr(0)).unwrap();
    set_pagefault_pending(proc, 0x4000_0000);
    assert!(is_pagefault_pending(proc));
    clear_pagefault_pending(proc);
    assert!(!is_pagefault_pending(proc));
}

#[test]
fn test_pagefault_pending_idempotent_set() {
    let mut pt = user_table();
    let proc = pt.get_mut(ProcNr(0)).unwrap();
    set_pagefault_pending(proc, 0x1000);
    set_pagefault_pending(proc, 0x2000);
    assert_eq!(last_fault_addr(proc), Some(0x2000));
    assert!(is_pagefault_pending(proc));
    assert!(proc.p_rts_flags.is_set(rts::PAGEFAULT));
}

#[test]
fn test_pte_to_page_flags_present_writable_user() {
    let flags = pte_to_page_flags(0x7);
    assert!(flags.contains(PageFlags::PRESENT));
    assert!(flags.contains(PageFlags::WRITABLE));
    assert!(flags.contains(PageFlags::USER_ACCESSIBLE));
    assert!(!flags.contains(PageFlags::ACCESSED));
    assert!(!flags.contains(PageFlags::DIRTY));
}

#[test]
fn test_pte_to_page_flags_kernel_global() {
    let flags = pte_to_page_flags(0x101);
    assert!(flags.contains(PageFlags::PRESENT));
    assert!(!flags.contains(PageFlags::WRITABLE));
    assert!(!flags.contains(PageFlags::USER_ACCESSIBLE));
    assert!(flags.contains(PageFlags::GLOBAL));
}

#[test]
fn test_pte_to_page_flags_2mb_huge() {
    let flags = pte_to_page_flags(0x87);
    assert!(flags.contains(PageFlags::PRESENT));
    assert!(flags.contains(PageFlags::WRITABLE));
    assert!(flags.contains(PageFlags::USER_ACCESSIBLE));
    assert!(flags.contains(PageFlags::HUGE_PAGE));
}

#[test]
fn test_pte_to_page_flags_accessed_dirty() {
    let flags = pte_to_page_flags(0x61);
    assert!(flags.contains(PageFlags::ACCESSED));
    assert!(flags.contains(PageFlags::DIRTY));
    assert_eq!(flags.0, PageFlags::PRESENT | PageFlags::ACCESSED | PageFlags::DIRTY);
}

#[test]
fn test_pte_to_phys_present() {
    assert_eq!(pte_to_phys(0x1001), Some(PhysBytes(0x1000)));
}

#[test]
fn test_pte_to_phys_not_present() {
    assert_eq!(pte_to_phys(0x0), None);
}

#[test]
fn test_pte_to_phys_addr_mask_clears_flags() {
    assert_eq!(pte_to_phys(0x0000_FFFF_FFFF_F007), Some(PhysBytes(0x0000_FFFF_FFFF_F000)));
}

#[test]
fn test_vaddr_indices_layout() {
    assert_eq!(vaddr_indices(VirBytes(0xFFFF_8000_0000_0000)), [256, 0, 0, 0]);
}

#[test]
fn test_vaddr_indices_low_address() {
    assert_eq!(vaddr_indices(VirBytes(0x0000_0000_0000_1000)), [0, 0, 0, 1]);
}

#[test]
fn test_vaddr_indices_mid_address() {
    let idx = vaddr_indices(VirBytes(0x0000_0040_0000_1000));
    assert_eq!(idx[0], 0, "PML4 index for 0x4000001000");
    assert_eq!(idx[1], 256, "PDPT index for 0x4000001000");
    assert_eq!(idx[2], 0, "PD index for 0x4000001000");
    assert_eq!(idx[3], 1, "PT index for 0x4000001000");
}

#[test]
fn test_pte_constants_match_x86_64() {
    assert_eq!(PTE_SIZE, 8, "x86-64 PTE is 8 bytes");
    assert_eq!(PT_ENTRIES, 512, "4KB page / 8B PTE = 512 entries");
    assert_eq!(PAGE_OFFSET_MASK, 0xFFF, "12-bit page offset");
}

#[test]
fn test_walk_x86_64_requires_unsafe_memory() {
    let idx = vaddr_indices(VirBytes(0x0000_0040_0000_1000));
    assert_eq!(idx[0], 0);
    assert_eq!(idx[1], 256);
    assert_eq!(idx[2], 0);
    assert_eq!(idx[3], 1);
}

#[test]
fn test_pte_addr_mask_correctness() {
    let pte_with_only_addr: u64 = 0x0000_FFFF_FFFF_F000;
    assert_eq!(pte_with_only_addr & PTE_ADDR_MASK, 0x0000_FFFF_FFFF_F000);
    let pte_with_high_bits: u64 = 0xFFFF_FFFF_FFFF_F007;
    assert_eq!(pte_with_high_bits & PTE_ADDR_MASK, 0x000F_FFFF_FFFF_F000);
}

#[test]
fn test_user_copy_chunks_split_at_page_boundaries() {
    let chunks = user_copy_chunks(VirBytes(0x1FF0), 0x1020);
    assert_eq!(
        chunks,
        vec![
            UserChunk { user_addr: 0x1FF0, buf_offset: 0, len: 0x10 },
            UserChunk { user_addr: 0x2000, buf_offset: 0x10, len: 0x1000 },
            UserChunk { user_addr: 0x3000, buf_offset: 0x1010, len: 0x10 },
        ]
    );
    assert!(user_copy_chunks(VirBytes(0x5000), 0).is_empty());
}
