use plansight::analysis::analyzers::index_efficiency::{IndexEfficiencyAnalyzer, IndexEfficiencyVerdict};
use plansight::analysis::Severity;
use plansight::plan::{NodeKind, PlanNode};

fn scan_node() -> PlanNode {
    PlanNode::new(NodeKind::IndexOnlyScan, 1000, "Index Only Scan using ix on t".to_string())
}

fn with_actual_rows(mut node: PlanNode, rows: u64) -> PlanNode {
    node.set_actual_rows(rows);
    node
}

fn assess(node: &PlanNode) -> IndexEfficiencyVerdict {
    IndexEfficiencyAnalyzer::new().assess_node(node)
}

fn no_finding(v: &IndexEfficiencyVerdict) -> bool {
    v.heap_fetches.is_none() && !v.lossy_bitmap
}

#[test]
fn test_index_only_scan_heap_fetches_flagged() {
    let mut node = with_actual_rows(scan_node(), 210_000);
    node.set_property("Heap Fetches", "200000");

    let v = assess(&node);
    assert_eq!(v.heap_fetches, Some(Severity::High));
    assert_eq!(node.properties.get_u64("Heap Fetches"), Some(200000));
}

#[test]
fn test_index_only_scan_few_fetches_no_finding() {
    let mut node = with_actual_rows(scan_node(), 210_000);
    node.set_property("Heap Fetches", "5");
    assert!(no_finding(&assess(&node)));
}

#[test]
fn test_heap_fetches_low_ratio_suppressed() {
    // 2000 fetches but 10M rows -> ratio 0.0002, below 0.10 -> not flagged.
    let mut node = with_actual_rows(scan_node(), 10_000_000);
    node.set_property("Heap Fetches", "2000");
    assert!(no_finding(&assess(&node)));
}

#[test]
fn test_heap_fetches_no_actuals_uses_absolute() {
    let mut node = scan_node();
    node.set_property("Heap Fetches", "5000");
    assert!(assess(&node).heap_fetches.is_some());
}

#[test]
fn test_lossy_bitmap_flagged() {
    let mut node = scan_node();
    node.set_property("Heap Blocks: lossy", "5000");
    node.set_property("Heap Blocks: exact", "1000");

    let v = assess(&node);
    assert!(v.lossy_bitmap);
    assert_eq!(node.properties.get_u64("Heap Blocks: lossy"), Some(5000));
}

#[test]
fn test_mostly_exact_bitmap_no_finding() {
    let mut node = scan_node();
    node.set_property("Heap Blocks: lossy", "2");
    node.set_property("Heap Blocks: exact", "100000");
    assert!(no_finding(&assess(&node)));
}

#[test]
fn test_lossy_below_absolute_guard_no_finding() {
    // High fraction but only 10 lossy blocks (< 64 absolute guard).
    let mut node = scan_node();
    node.set_property("Heap Blocks: lossy", "10");
    node.set_property("Heap Blocks: exact", "5");
    assert!(no_finding(&assess(&node)));
}

#[test]
fn index_efficiency_test_no_properties_no_finding() {
    assert!(no_finding(&assess(&scan_node())));
}

#[test]
fn heap_fetch_severity_boundaries() {
    let a = IndexEfficiencyAnalyzer::new();
    assert_eq!(a.assess(Some(999), None, None, None).heap_fetches, None);
    assert_eq!(a.assess(Some(1_000), None, None, None).heap_fetches, Some(Severity::Medium));
    assert_eq!(a.assess(Some(100_000), None, None, None).heap_fetches, Some(Severity::High));
    // Zero rows returned: the ratio guard does not apply.
    assert_eq!(a.assess(Some(1_000), Some(0), None, None).heap_fetches, Some(Severity::Medium));
    // Exactly a tenth of the rows is enough; just under a tenth is not.
    assert_eq!(a.assess(Some(1_000), Some(10_000), None, None).heap_fetches, Some(Severity::Medium));
    assert_eq!(a.assess(Some(1_000), Some(10_001), None, None).heap_fetches, None);
}

#[test]
fn lossy_fraction_boundary() {
    let a = IndexEfficiencyAnalyzer::new();
    // 64 lossy of 1280 blocks is exactly a twentieth: flagged.
    assert!(a.assess(None, None, Some(64), Some(1216)).lossy_bitmap);
    // 64 lossy of 1281 blocks is less than a twentieth.
    assert!(!a.assess(None, None, Some(64), Some(1217)).lossy_bitmap);
    // No exact count given: counts as zero exact blocks.
    assert!(a.assess(None, None, Some(64), None).lossy_bitmap);
}
