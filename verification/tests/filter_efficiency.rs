use plansight::analysis::analyzers::filter_efficiency::{severity_for_removed, FilterEfficiencyAnalyzer};
use plansight::analysis::Severity;
use plansight::plan::{NodeKind, PlanNode};

fn scan_node() -> PlanNode {
    PlanNode::new(NodeKind::SeqScan, 1000, "Seq Scan on t".to_string())
}

fn with_actual_rows(mut node: PlanNode, rows: u64) -> PlanNode {
    node.set_actual_rows(rows);
    node
}

fn no_finding(v: &plansight::analysis::analyzers::filter_efficiency::FilterVerdict) -> bool {
    v.wasteful_filter.is_none() && !v.imprecise_recheck && !v.wasteful_join_filter
}

#[test]
fn test_low_selectivity_seq_scan_flagged() {
    let mut node = with_actual_rows(scan_node(), 2_000);
    node.set_property("Rows Removed by Filter", "998000");
    node.set_property("Filter", "(status = 'x')");

    let v = FilterEfficiencyAnalyzer::new().assess_node(&node);
    // 998000 removed -> High (>= 100k, < 1M)
    assert_eq!(v.wasteful_filter, Some(Severity::High));
    assert!(v.selectivity_known);
    let selectivity = 2_000.0 / (2_000.0 + 998_000.0);
    assert!(selectivity < 0.10);
    assert_eq!(node.get_property("Filter").map(|s| s.as_str()), Some("(status = 'x')"));
}

#[test]
fn test_critical_severity_boundary() {
    let mut node = with_actual_rows(scan_node(), 10_000);
    node.set_property("Rows Removed by Filter", "2000000");

    let v = FilterEfficiencyAnalyzer::new().assess_node(&node);
    assert_eq!(v.wasteful_filter, Some(Severity::Critical));
}

#[test]
fn test_unknown_selectivity_large_absolute_flagged() {
    // No actuals -> selectivity unknown, but absolute removed is large.
    let mut node = scan_node();
    node.set_property("Rows Removed by Filter", "500000");

    let v = FilterEfficiencyAnalyzer::new().assess_node(&node);
    assert!(v.wasteful_filter.is_some());
    assert!(!v.selectivity_known);
}

#[test]
fn test_index_recheck_flagged() {
    let mut node = scan_node();
    node.set_property("Rows Removed by Index Recheck", "50000");

    let v = FilterEfficiencyAnalyzer::new().assess_node(&node);
    assert!(v.imprecise_recheck);
}

#[test]
fn test_join_filter_flagged() {
    let mut node = scan_node();
    node.set_property("Rows Removed by Join Filter", "80000");

    let v = FilterEfficiencyAnalyzer::new().assess_node(&node);
    assert!(v.wasteful_join_filter);
}

#[test]
fn test_selective_filter_no_finding() {
    // Keeps 90% -> selectivity 0.9, not wasteful.
    let mut node = with_actual_rows(scan_node(), 9_000_000);
    node.set_property("Rows Removed by Filter", "1000000");

    let v = FilterEfficiencyAnalyzer::new().assess_node(&node);
    assert!(no_finding(&v));
}

#[test]
fn test_small_absolute_removed_no_finding() {
    let mut node = with_actual_rows(scan_node(), 100);
    node.set_property("Rows Removed by Filter", "500");

    let v = FilterEfficiencyAnalyzer::new().assess_node(&node);
    assert!(no_finding(&v));
}

#[test]
fn filter_efficiency_test_no_properties_no_finding() {
    let v = FilterEfficiencyAnalyzer::new().assess_node(&scan_node());
    assert!(no_finding(&v));
    assert_eq!(v.rows_removed, 0);
}

#[test]
fn test_zero_kept_and_removed_no_panic() {
    // actual_rows = 0 and removed below threshold -> no finding, no panic.
    let mut node = with_actual_rows(scan_node(), 0);
    node.set_property("Rows Removed by Filter", "0");

    let v = FilterEfficiencyAnalyzer::new().assess_node(&node);
    assert!(no_finding(&v));
}

#[test]
fn test_recheck_below_threshold_no_finding() {
    let mut node = scan_node();
    node.set_property("Rows Removed by Index Recheck", "100");

    let v = FilterEfficiencyAnalyzer::new().assess_node(&node);
    assert!(no_finding(&v));
}

#[test]
fn severity_scales_with_rows_removed() {
    assert_eq!(severity_for_removed(10_000), Severity::Medium);
    assert_eq!(severity_for_removed(99_999), Severity::Medium);
    assert_eq!(severity_for_removed(100_000), Severity::High);
    assert_eq!(severity_for_removed(1_000_000), Severity::Critical);
}

#[test]
fn rows_removed_sums_every_counted_source() {
    let v = FilterEfficiencyAnalyzer::new().assess(Some(20_000), None, Some(30_000), Some(500));
    // The join filter is below the threshold and not counted.
    assert_eq!(v.rows_removed, 50_000);
    let saturated = FilterEfficiencyAnalyzer::new().assess(Some(u64::MAX), None, Some(u64::MAX), None);
    assert_eq!(saturated.rows_removed, u64::MAX);
}

#[test]
fn ten_percent_selectivity_is_not_wasteful() {
    // kept 10000 of 100000 inspected: exactly ten percent.
    let v = FilterEfficiencyAnalyzer::new().assess(Some(90_000), Some(10_000), None, None);
    assert_eq!(v.wasteful_filter, None);
    // kept 10000 of 110000 inspected: below ten percent.
    let w = FilterEfficiencyAnalyzer::new().assess(Some(100_000), Some(10_000), None, None);
    assert_eq!(w.wasteful_filter, Some(Severity::High));
}
