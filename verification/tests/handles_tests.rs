use dap::handles::{HandleError, HandleTable};

#[test]
fn no_handles_before_the_first_stop() {
    let mut table = HandleTable::new();
    assert!(!table.is_live());
    assert_eq!(table.intern(1), Err(HandleError::StaleHandle));
    assert_eq!(table.resolve(0), Err(HandleError::StaleHandle));
}

#[test]
fn handles_resolve_within_their_generation() {
    let mut table = HandleTable::new();
    table.begin_generation();
    let a = table.intern(1000).unwrap();
    let b = table.intern(1001).unwrap();
    assert_eq!((a, b), (0, 1));
    assert_eq!(table.resolve(a), Ok(1000));
    assert_eq!(table.resolve(b), Ok(1001));
    assert_eq!(table.resolve(2), Err(HandleError::StaleHandle));
}

#[test]
fn same_identifier_keeps_its_handle() {
    let mut table = HandleTable::new();
    table.begin_generation();
    let a = table.intern(5).unwrap();
    let b = table.intern(6).unwrap();
    assert_eq!(table.intern(5), Ok(a));
    assert_eq!(table.intern(6), Ok(b));
    assert_ne!(a, b);
}

#[test]
fn handles_are_never_reused_across_generations() {
    let mut table = HandleTable::new();
    table.begin_generation();
    let first = table.intern(1).unwrap();
    let second = table.intern(2).unwrap();
    table.end_generation();
    assert_eq!(table.resolve(first), Err(HandleError::StaleHandle));
    table.begin_generation();
    let reused_id = table.intern(1).unwrap();
    assert_eq!(reused_id, 2);
    assert_eq!(table.resolve(first), Err(HandleError::StaleHandle));
    assert_eq!(table.resolve(second), Err(HandleError::StaleHandle));
    assert_eq!(table.resolve(reused_id), Ok(1));
}

#[test]
fn beginning_again_retires_the_live_generation() {
    let mut table = HandleTable::new();
    table.begin_generation();
    let old = table.intern(42).unwrap();
    table.begin_generation();
    assert!(table.is_live());
    assert_eq!(table.resolve(old), Err(HandleError::StaleHandle));
}

#[test]
fn a_table_gives_out_only_its_range() {
    let mut table = HandleTable::within(100, 103);
    table.begin_generation();
    assert_eq!(table.intern(7), Ok(100));
    assert_eq!(table.intern(8), Ok(101));
    table.begin_generation();
    assert_eq!(table.intern(7), Ok(102));
    assert_eq!(table.intern(7), Ok(102));
    assert_eq!(table.intern(8), Err(HandleError::Exhausted));
    assert_eq!(table.resolve(102), Ok(7));
    assert_eq!(table.resolve(103), Err(HandleError::StaleHandle));
    table.begin_generation();
    assert_eq!(table.intern(1), Err(HandleError::Exhausted));
}

#[test]
fn an_empty_range_gives_out_nothing() {
    let mut table = HandleTable::within(10, 10);
    table.begin_generation();
    assert_eq!(table.intern(1), Err(HandleError::Exhausted));
    let mut table = HandleTable::within(10, 3);
    table.begin_generation();
    assert_eq!(table.intern(1), Err(HandleError::Exhausted));
    assert_eq!(table.resolve(10), Err(HandleError::StaleHandle));
}

#[test]
fn tables_with_separate_ranges_share_no_handle() {
    let mut a = HandleTable::within(0, 1000);
    let mut b = HandleTable::within(1000, 2000);
    a.begin_generation();
    b.begin_generation();
    let ha = a.intern(1).unwrap();
    let hb = b.intern(1).unwrap();
    assert_eq!((ha, hb), (0, 1000));
    assert_eq!(a.resolve(hb), Err(HandleError::StaleHandle));
    assert_eq!(b.resolve(ha), Err(HandleError::StaleHandle));
}
