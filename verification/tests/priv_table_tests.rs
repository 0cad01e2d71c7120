use minix_kernel::priv_table::{Priv, PrivFlags, PrivTable, SysId, NR_BOOT_PROCS, NR_SYS_PROCS};

#[test]
fn test_sys_id_is_static() {
    assert!(SysId(0).is_static());
    assert!(SysId((NR_BOOT_PROCS - 1) as u8).is_static());
    assert!(!SysId(NR_BOOT_PROCS as u8).is_static());
    assert!(!SysId(63).is_static());
}

#[test]
fn test_sys_id_is_valid() {
    assert!(SysId(0).is_valid());
    assert!(SysId(63).is_valid());
}

#[test]
fn test_priv_table_new_all_empty() {
    let table = PrivTable::new();
    for i in 0..NR_SYS_PROCS {
        assert!(table.get(SysId(i as u8)).unwrap().is_empty());
    }
}

#[test]
fn test_priv_table_static_dynamic_split() {
    let table = PrivTable::new();
    assert_eq!(table.static_slots().len(), NR_BOOT_PROCS);
    assert_eq!(table.dynamic_slots().len(), NR_SYS_PROCS - NR_BOOT_PROCS);
}

#[test]
fn test_priv_table_get_by_id() {
    let table = PrivTable::new();
    assert!(table.get(SysId(0)).is_some());
    assert!(table.get(SysId(63)).is_some());
}

#[test]
fn test_alloc_static() {
    let mut table = PrivTable::new();
    let id = SysId(3);
    assert!(table.alloc_static(id, 100).is_ok());
    assert!(!table.get(id).unwrap().is_empty());
    assert_eq!(table.alloc_static(id, 101), Err(16));
}

#[test]
fn test_alloc_static_invalid() {
    let mut table = PrivTable::new();
    let id = SysId(NR_BOOT_PROCS as u8);
    assert_eq!(table.alloc_static(id, 100), Err(22));
}

#[test]
fn test_alloc_dynamic() {
    let mut table = PrivTable::new();
    let id = table.alloc_dynamic(200).unwrap();
    assert!(id.0 as usize >= NR_BOOT_PROCS);
    assert!(!table.get(id).unwrap().is_empty());
    assert_eq!(table.id_to_nr(id), Some(200));
}

#[test]
fn test_alloc_dynamic_exhausted() {
    let mut table = PrivTable::new();
    for i in 0..(NR_SYS_PROCS - NR_BOOT_PROCS) {
        let nr = (i + 100) as i32;
        table.alloc_dynamic(nr).unwrap();
    }
    assert_eq!(table.alloc_dynamic(999), Err(12));
}

#[test]
fn test_id_to_nr_and_nr_to_id() {
    let mut table = PrivTable::new();
    let id = SysId(5);
    table.alloc_static(id, -5).unwrap();
    assert_eq!(table.id_to_nr(id), Some(-5));
    assert_eq!(table.nr_to_id(-5), Some(id));
}

#[test]
fn test_may_send_to() {
    let mut table = PrivTable::new();
    let target_id = SysId(4);
    table.alloc_static(target_id, -4).unwrap();

    let caller_id = SysId(0);
    table.alloc_static(caller_id, 0).unwrap();
    let caller_priv = table.get_mut(caller_id).unwrap();
    caller_priv.s_ipc_to.set(target_id.0 as usize, true);
    caller_priv.s_flags.insert(PrivFlags::SYS_PROC);

    let caller_priv = table.get(caller_id).unwrap();
    assert!(table.may_send_to(caller_priv, -4));
    assert!(!table.may_send_to(caller_priv, -3));
    assert!(!table.may_send_to(caller_priv, -99));
}

#[test]
fn test_may_asynsend_to_self() {
    let mut table = PrivTable::new();
    let id = SysId(0);
    table.alloc_static(id, 0).unwrap();
    let caller_priv = table.get(id).unwrap();
    assert!(table.may_asynsend_to(caller_priv, 0, 0));
}

#[test]
fn test_may_asynsend_to_not_self() {
    let mut table = PrivTable::new();
    let caller_id = SysId(0);
    table.alloc_static(caller_id, 0).unwrap();
    let caller_priv = table.get(caller_id).unwrap();
    assert!(!table.may_asynsend_to(caller_priv, 0, 42));
}

#[test]
fn test_free_slot() {
    let mut table = PrivTable::new();
    let id = SysId(2);
    table.alloc_static(id, 42).unwrap();
    assert!(!table.get(id).unwrap().is_empty());

    table.free(id);
    assert!(table.get(id).unwrap().is_empty());
    assert!(table.get(id).unwrap().s_ipc_to.is_empty());
}

#[test]
fn test_free_and_realloc() {
    let mut table = PrivTable::new();
    let dyn_id = table.alloc_dynamic(300).unwrap();
    table.free(dyn_id);
    let dyn_id2 = table.alloc_dynamic(301).unwrap();
    assert_eq!(dyn_id, dyn_id2);
}

#[test]
fn test_compile_time_check() {
    assert!(NR_BOOT_PROCS <= NR_SYS_PROCS);
}

#[test]
fn test_priv_flags() {
    let mut flags = PrivFlags::default();
    assert!(!flags.contains(PrivFlags::SYS_PROC));

    flags.insert(PrivFlags::SYS_PROC);
    assert!(flags.contains(PrivFlags::SYS_PROC));

    flags.remove(PrivFlags::SYS_PROC);
    assert!(!flags.contains(PrivFlags::SYS_PROC));
}

#[test]
fn test_priv_is_sys_proc() {
    let mut p = Priv::empty(SysId(0));
    assert!(!p.is_sys_proc());

    p.s_flags.insert(PrivFlags::SYS_PROC);
    assert!(p.is_sys_proc());
}

#[test]
fn test_alloc_dynamic_takes_first_free_dynamic_slot() {
    let mut table = PrivTable::new();
    let first = table.alloc_dynamic(10).unwrap();
    assert_eq!(first, SysId(NR_BOOT_PROCS as u8));
    let second = table.alloc_dynamic(11).unwrap();
    assert_eq!(second, SysId(NR_BOOT_PROCS as u8 + 1));
    assert_eq!(table.nr_to_id(11), Some(second));
}

#[test]
fn test_free_then_slot_is_empty_and_owner_gone() {
    let mut table = PrivTable::new();
    let id = table.alloc_dynamic(77).unwrap();
    table.free(id);
    assert!(table.get(id).unwrap().is_empty());
    assert_eq!(table.nr_to_id(77), None);
    assert_eq!(table.id_to_nr(id), Some(-1));
}

#[test]
fn test_inherit_ipc_to_copies_mask() {
    let mut table = PrivTable::new();
    table.alloc_static(SysId(1), 1).unwrap();
    table.alloc_static(SysId(2), 2).unwrap();
    table.get_mut(SysId(1)).unwrap().s_ipc_to.set(9, true);
    table.inherit_ipc_to(SysId(1), SysId(2));
    assert!(table.get(SysId(2)).unwrap().s_ipc_to.get(9));
}

#[test]
fn test_may_send_to_free_slot_owner_is_refused() {
    let mut t = PrivTable::new();
    t.alloc_static(SysId(0), 0).unwrap();
    t.get_mut(SysId(0)).unwrap().s_ipc_to.set(1, true);
    let caller = t.get(SysId(0)).unwrap();
    assert!(!t.may_send_to(caller, -1));
    assert_eq!(t.nr_to_id(-1), None);
}
