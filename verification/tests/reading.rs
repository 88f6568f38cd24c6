use plansight::reading::{progress_delta, progress_due, ByteLimits, EntryBudget, MAX_ENTRY_BYTES, MAX_LINE_BYTES};

#[test]
fn default_and_disabled_caps() {
    let d = ByteLimits::new();
    assert_eq!(d.max_line_bytes, 64 * 1024 * 1024);
    assert_eq!(d.max_entry_bytes, 256 * 1024 * 1024);
    assert_eq!((MAX_LINE_BYTES, MAX_ENTRY_BYTES), (d.max_line_bytes, d.max_entry_bytes));
    let off = ByteLimits::new().with_byte_limits(0, 0);
    assert_eq!(off.max_line_bytes, u64::MAX);
    assert_eq!(off.max_entry_bytes, u64::MAX);
    let set = ByteLimits::new().with_byte_limits(100, 1000);
    assert_eq!((set.max_line_bytes, set.max_entry_bytes), (100, 1000));
}

#[test]
fn long_line_detection() {
    let l = ByteLimits::new().with_byte_limits(10, 100);
    assert!(l.line_was_cut(10, false));
    assert!(!l.line_was_cut(10, true));
    assert!(!l.line_was_cut(9, false));
}

#[test]
fn oversized_entry_is_discarded() {
    let l = ByteLimits::new().with_byte_limits(10, 25);
    let mut b = EntryBudget::new();
    assert!(!b.account(false, 10, &l), "a line outside an entry only resets the count");
    assert_eq!(b.used, 0);
    assert!(!b.account(true, 10, &l));
    assert!(!b.account(true, 15, &l));
    assert_eq!(b.used, 25);
    assert!(b.account(true, 1, &l), "passing the cap discards the entry");
    assert_eq!(b.used, 0);
}

#[test]
fn progress_reporting() {
    assert_eq!(progress_delta(15, 10), 5);
    assert_eq!(progress_delta(3, 10), 0);
    assert!(progress_due(20_000));
    assert!(!progress_due(20_001));
}
