use plansight::analysis::unified_config::{DatabaseSize, OperationType, RowCountThresholds};
use plansight::analysis::Severity;

#[test]
fn test_row_count_thresholds() {
    let thresholds = RowCountThresholds::for_operation(OperationType::Scan, DatabaseSize::Medium);

    assert_eq!(thresholds.critical, 10_000_000);
    assert_eq!(thresholds.high, 1_000_000);
    assert_eq!(thresholds.medium, 100_000);
    assert_eq!(thresholds.low, 10_000);
}

#[test]
fn unified_config_test_severity_classification() {
    let thresholds = RowCountThresholds::for_operation(OperationType::Join, DatabaseSize::Small);

    assert_eq!(thresholds.classify_severity(1_000_000), Severity::Critical);
    assert_eq!(thresholds.classify_severity(100_000), Severity::High);
    assert_eq!(thresholds.classify_severity(10_000), Severity::Medium);
    assert_eq!(thresholds.classify_severity(1_000), Severity::Low);
}

#[test]
fn thresholds_scale_with_database_size() {
    let small = RowCountThresholds::for_operation(OperationType::Index, DatabaseSize::Small);
    let large = RowCountThresholds::for_operation(OperationType::Index, DatabaseSize::Large);
    let very_large = RowCountThresholds::for_operation(OperationType::Index, DatabaseSize::VeryLarge);
    assert_eq!(small.critical, 100_000);
    assert_eq!(large.critical, 5_000_000);
    assert_eq!(very_large.low, 10_000);
    let sort = RowCountThresholds::for_operation(OperationType::Sort, DatabaseSize::Medium);
    let hash = RowCountThresholds::for_operation(OperationType::Hash, DatabaseSize::Medium);
    assert_eq!(sort, hash);
    assert_eq!(sort.high, 200_000);
}

#[test]
fn classification_is_monotone_in_rows() {
    let t = RowCountThresholds::for_operation(OperationType::Scan, DatabaseSize::Large);
    let mut last = Severity::Low;
    for rows in [0u64, 10, 499_999, 500_000, 5_000_000, 49_999_999, 50_000_000, u64::MAX] {
        let s = t.classify_severity(rows);
        assert!(last <= s);
        last = s;
    }
}
