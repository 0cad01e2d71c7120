use minix_kernel::memmap::{add_memmap, cut_memmap, MemMapEntry, MemMapError, MAXMEMMAP};

fn empty_mmap() -> [MemMapEntry; MAXMEMMAP] {
    [MemMapEntry::default(); MAXMEMMAP]
}

fn entry(base: u64, length: u64) -> MemMapEntry {
    MemMapEntry { base, length }
}

#[test]
fn test_add_memmap_basic() {
    let mut mmap = empty_mmap();
    let idx = add_memmap(&mut mmap, 0x1000_0000, 0x1000_0000).unwrap();
    assert_eq!(idx, 0);
    assert_eq!(mmap[0].base, 0x1000_0000);
    assert_eq!(mmap[0].length, 0x1000_0000);
}

#[test]
fn test_add_memmap_alignment() {
    let mut mmap = empty_mmap();
    let idx = add_memmap(&mut mmap, 0x1000_0001, 0x1FFF).unwrap();
    assert_eq!(mmap[idx].base, 0x1000_1000);
    assert_eq!(mmap[idx].length, 0x1000);
}

#[test]
fn test_add_memmap_no_truncation() {
    let mut mmap = empty_mmap();
    let idx = add_memmap(&mut mmap, 0x1_0000_0000, 0x1000_0000).unwrap();
    assert_eq!(mmap[idx].base, 0x1_0000_0000);
    assert_eq!(mmap[idx].length, 0x1000_0000);
}

#[test]
fn test_add_memmap_zero_length() {
    let mut mmap = empty_mmap();
    let result = add_memmap(&mut mmap, 0x1001, 0x1);
    assert_eq!(result, Err(MemMapError::ZeroLength));
}

#[test]
fn test_add_memmap_no_slots() {
    let mut mmap = empty_mmap();
    for (i, slot) in mmap.iter_mut().enumerate().take(MAXMEMMAP) {
        *slot = entry((i as u64) * 0x1000, 0x1000);
    }
    let result = add_memmap(&mut mmap, 0x000F_F000_0000, 0x1000);
    assert_eq!(result, Err(MemMapError::NoSlots));
}

#[test]
fn test_add_memmap_finds_first_empty() {
    let mut mmap = empty_mmap();
    mmap[0] = entry(0x1000, 0x1000);
    mmap[2] = entry(0x3000, 0x1000);
    let idx = add_memmap(&mut mmap, 0x5000, 0x1000).unwrap();
    assert_eq!(idx, 1);
}

#[test]
fn test_cut_memmap_no_overlap() {
    let mut mmap = empty_mmap();
    mmap[0] = entry(0x1000, 0x1000);
    cut_memmap(&mut mmap, 0x10000, 0x1000).unwrap();
    assert_eq!(mmap[0].base, 0x1000);
    assert_eq!(mmap[0].length, 0x1000);
}

#[test]
fn test_cut_memmap_full_overlap() {
    let mut mmap = empty_mmap();
    mmap[0] = entry(0x1000, 0x1000);
    cut_memmap(&mut mmap, 0x1000, 0x1000).unwrap();
    assert!(mmap[0].is_empty());
}

#[test]
fn test_cut_memmap_prefix_split() {
    let mut mmap = empty_mmap();
    mmap[0] = entry(0x1000, 0x4000);
    cut_memmap(&mut mmap, 0x1000, 0x1000).unwrap();
    let suffix = mmap.iter().find(|e| !e.is_empty()).unwrap();
    assert_eq!(suffix.base, 0x2000);
    assert_eq!(suffix.length, 0x3000);
}

#[test]
fn test_cut_memmap_suffix_split() {
    let mut mmap = empty_mmap();
    mmap[0] = entry(0x1000, 0x4000);
    cut_memmap(&mut mmap, 0x4000, 0x1000).unwrap();
    let prefix = mmap.iter().find(|e| !e.is_empty()).unwrap();
    assert_eq!(prefix.base, 0x1000);
    assert_eq!(prefix.length, 0x3000);
}

#[test]
fn test_cut_memmap_middle_split() {
    let mut mmap = empty_mmap();
    mmap[0] = entry(0x1000, 0x8000);
    cut_memmap(&mut mmap, 0x3000, 0x2000).unwrap();
    let non_empty: Vec<&MemMapEntry> = mmap.iter().filter(|e| !e.is_empty()).collect();
    assert_eq!(non_empty.len(), 2, "should have prefix + suffix");
    let has_prefix = non_empty.iter().any(|e| e.base == 0x1000 && e.length == 0x2000);
    let has_suffix = non_empty.iter().any(|e| e.base == 0x5000 && e.length == 0x4000);
    assert!(has_prefix, "prefix [0x1000, 0x3000) must exist");
    assert!(has_suffix, "suffix [0x5000, 0x9000) must exist");
}

#[test]
fn test_cut_memmap_spans_multiple_entries() {
    let mut mmap = empty_mmap();
    mmap[0] = entry(0x1000, 0x2000);
    mmap[1] = entry(0x4000, 0x2000);
    cut_memmap(&mut mmap, 0x2000, 0x3000).unwrap();
    let non_empty: Vec<&MemMapEntry> = mmap.iter().filter(|e| !e.is_empty()).collect();
    assert_eq!(non_empty.len(), 2, "should have prefix of 0 + suffix of 1");
    let has_prefix0 = non_empty.iter().any(|e| e.base == 0x1000 && e.length == 0x1000);
    let has_suffix1 = non_empty.iter().any(|e| e.base == 0x5000 && e.length == 0x1000);
    assert!(has_prefix0, "prefix of entry 0 must survive");
    assert!(has_suffix1, "suffix of entry 1 must survive");
}

#[test]
fn test_cut_memmap_alignment_round_down_start() {
    let mut mmap = empty_mmap();
    mmap[0] = entry(0x1000, 0x4000);
    cut_memmap(&mut mmap, 0x2001, 0x1000).unwrap();
    let non_empty: Vec<&MemMapEntry> = mmap.iter().filter(|e| !e.is_empty()).collect();
    let has_prefix = non_empty.iter().any(|e| e.base == 0x1000 && e.length == 0x1000);
    let has_suffix = non_empty.iter().any(|e| e.base == 0x4000 && e.length == 0x1000);
    assert!(has_prefix, "prefix [0x1000, 0x2000) must exist");
    assert!(has_suffix, "suffix [0x4000, 0x5000) must exist (end rounds up)");
}

#[test]
fn test_cut_memmap_alignment_round_up_end() {
    let mut mmap = empty_mmap();
    mmap[0] = entry(0x1000, 0x4000);
    cut_memmap(&mut mmap, 0x1000, 0x1001).unwrap();
    let non_empty: Vec<&MemMapEntry> = mmap.iter().filter(|e| !e.is_empty()).collect();
    let has_suffix = non_empty.iter().any(|e| e.base == 0x3000 && e.length == 0x2000);
    assert!(has_suffix, "end must be rounded up to page boundary");
}

#[test]
fn test_cut_memmap_zero_length_no_op() {
    let mut mmap = empty_mmap();
    mmap[0] = entry(0x1000, 0x1000);
    cut_memmap(&mut mmap, 0x1001, 0).unwrap();
    assert_eq!(mmap[0].base, 0x1000, "zero-length cut should be no-op");
    assert_eq!(mmap[0].length, 0x1000);
}

#[test]
fn test_cut_memmap_preserves_total_free_memory() {
    let mut mmap = empty_mmap();
    mmap[0] = entry(0x1000, 0x10000);
    let total_before: u64 = mmap.iter().map(|e| e.length).sum();
    cut_memmap(&mut mmap, 0x4000, 0x2000).unwrap();
    let total_after: u64 = mmap.iter().map(|e| e.length).sum();
    assert_eq!(total_before - total_after, 0x2000, "total free memory must decrease by cut size");
}

#[test]
fn test_memmap_entry_zero_is_empty() {
    let e = MemMapEntry::zero();
    assert_eq!(e.base, 0);
    assert!(e.is_empty());
}

#[test]
fn test_cut_then_add_restores_coverage() {
    let mut mmap = empty_mmap();
    mmap[0] = entry(0x1000, 0x3000);
    cut_memmap(&mut mmap, 0x2000, 0x1000).unwrap();
    let covered = |m: &[MemMapEntry; MAXMEMMAP], a: u64| m.iter().any(|e| e.base <= a && a < e.base + e.length);
    assert!(!covered(&mmap, 0x2000));
    assert!(covered(&mmap, 0x1000));
    assert!(covered(&mmap, 0x3000));
    add_memmap(&mut mmap, 0x2000, 0x1000).unwrap();
    assert!(covered(&mmap, 0x2000));
}

#[test]
fn test_cut_with_one_free_slot_succeeds_and_shrinks() {
    let mut mmap = [entry(0x1000, 0x1000); MAXMEMMAP];
    for (i, e) in mmap.iter_mut().enumerate() {
        *e = entry(0x10_0000 + (i as u64) * 0x10_0000, 0x8000);
    }
    mmap[MAXMEMMAP - 1] = MemMapEntry::zero();
    let before: u64 = mmap.iter().map(|e| e.length).sum();
    assert_eq!(cut_memmap(&mut mmap, 0x10_2000, 0x1000), Ok(()));
    let after: u64 = mmap.iter().map(|e| e.length).sum();
    assert_eq!(before - after, 0x1000);
}

#[test]
fn test_add_memmap_near_top_without_whole_page_is_zero_length() {
    let mut mmap = empty_mmap();
    assert_eq!(add_memmap(&mut mmap, u64::MAX - 4095, 100), Err(MemMapError::ZeroLength));
    assert!(mmap.iter().all(|e| e.base == 0 && e.length == 0));
}

#[test]
fn test_fill_memmap_skips_empty_regions_and_keeps_the_rest() {
    let mut mmap = empty_mmap();
    mmap[3] = entry(0x9000, 0x1000);
    let regions = [(0x1000u64, 0x2000u64), (0x5000, 0), (0x8000, 0x1000)];
    minix_kernel::memmap::fill_memmap(&mut mmap, &regions);
    let got: Vec<(u64, u64)> = mmap[..5].iter().map(|e| (e.base, e.length)).collect();
    assert_eq!(got, vec![(0x1000, 0x2000), (0, 0), (0x8000, 0x1000), (0x9000, 0x1000), (0, 0)]);
}
