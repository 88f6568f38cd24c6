use plansight::analysis::analyzers::index_usage::IndexUsageAnalyzer;
use plansight::analysis::Severity;
use plansight::plan::{NodeKind, PlanNode};

#[test]
fn index_usage_test_missing_index_detection() {
    let analyzer = IndexUsageAnalyzer::new();
    let mut node = PlanNode::new(NodeKind::SeqScan, 50000, "Seq Scan on users".to_string());
    node.set_property("Filter", "(user_id = 123)");

    let v = analyzer.assess_node(&node);
    // Should detect potential for index
    assert!(v.missing_index.is_some());
    assert_eq!(v.missing_index, Some(Severity::Medium));
}

#[test]
fn test_function_in_filter_detection() {
    let analyzer = IndexUsageAnalyzer::new();
    let mut node = PlanNode::new(NodeKind::SeqScan, 10000, "Seq Scan on users".to_string());
    node.set_property("Filter", "LOWER(email) = 'test@example.com'");

    let v = analyzer.assess_node(&node);
    // Should detect function in filter
    assert!(v.function_in_filter);
}

#[test]
fn test_index_scan_no_issues() {
    let analyzer = IndexUsageAnalyzer::new();
    let node = PlanNode::new(NodeKind::IndexScan, 100, "Index Scan using idx_user_id".to_string());

    let v = analyzer.assess_node(&node);
    // Should not flag efficient index scan
    assert!(!v.seq_scan_with_filter);
    assert_eq!(v.missing_index, None);
    assert!(!v.function_in_filter);
    assert!(!v.leading_wildcard_like);
    assert!(!v.large_index_scan);
    assert!(!v.large_bitmap_scan);
}

#[test]
fn missing_index_needs_equality_without_or() {
    let a = IndexUsageAnalyzer::new();
    assert_eq!(a.assess(NodeKind::SeqScan, Some("(a = 1 OR b = 2)"), 5000).missing_index, None);
    assert_eq!(a.assess(NodeKind::SeqScan, Some("(a > 1)"), 5000).missing_index, None);
    assert_eq!(a.assess(NodeKind::SeqScan, Some("(a = 1)"), 1000).missing_index, None);
    assert_eq!(a.assess(NodeKind::SeqScan, Some("(a = 1)"), 1001).missing_index, Some(Severity::Low));
    assert_eq!(a.assess(NodeKind::SeqScan, Some("(a = 1)"), 100_001).missing_index, Some(Severity::High));
    assert_eq!(a.assess(NodeKind::SeqScan, Some("(a = 1)"), 1_000_000).missing_index, None);
}

#[test]
fn leading_wildcard_and_large_scans() {
    let a = IndexUsageAnalyzer::new();
    assert!(a.assess(NodeKind::SeqScan, Some("(name LIKE '%son')"), 10).leading_wildcard_like);
    assert!(!a.assess(NodeKind::SeqScan, Some("(name LIKE 'son%')"), 10).leading_wildcard_like);
    assert!(a.assess(NodeKind::IndexScan, None, 50_001).large_index_scan);
    assert!(!a.assess(NodeKind::IndexScan, None, 50_000).large_index_scan);
    assert!(a.assess(NodeKind::BitmapHeapScan, None, 100_001).large_bitmap_scan);
    // A filter on anything but a sequential scan is not examined.
    assert!(!a.assess(NodeKind::IndexScan, Some("lower(x) = 'a'"), 10).function_in_filter);
}
