use plansight::analysis::analyzers::sort_memory::{parse_kb, KbAmount, SortMemoryAnalyzer, SortMemoryVerdict};

fn kb(whole: u64, thousandths: u64, finer: bool) -> KbAmount {
    KbAmount { whole, thousandths, finer }
}
use plansight::plan::ParsedPlan;
use plansight::analysis::Severity;
use plansight::plan::{NodeKind, PlanNode};

fn sort_node() -> PlanNode {
    // The analyser keys off properties, not the node kind.
    PlanNode::new(NodeKind::SeqScan, 1000, "Sort".to_string())
}

fn assess(node: &PlanNode) -> SortMemoryVerdict {
    SortMemoryAnalyzer::new().assess_node(node)
}

#[test]
fn test_external_sort_detected() {
    let mut node = sort_node();
    node.set_property("Sort Space Type", "Disk");
    node.set_property("Sort Method", "external merge");
    node.set_property("Sort Space Used", "120000 kB");

    let v = assess(&node);
    assert!(v.sort_spill);
    assert_eq!(v.sort_severity, Some(Severity::High));
    assert_eq!(v.space_used, kb(120000, 0, false));
    assert_eq!(v.hash_spill, None);
    assert_eq!(node.get_property("Sort Method").map(|s| s.as_str()), Some("external merge"));
    assert_eq!(node.get_property("Sort Space Type").map(|s| s.as_str()), Some("Disk"));
}

#[test]
fn test_external_sort_medium_severity() {
    let mut node = sort_node();
    node.set_property("Sort Space Type", "Disk");
    node.set_property("Sort Space Used", "5000 kB");
    let v = assess(&node);
    assert!(v.sort_spill);
    assert_eq!(v.sort_severity, Some(Severity::Medium));
}

#[test]
fn test_hash_batch_spill_detected() {
    let mut node = sort_node();
    node.set_property("Batches", "16");
    let v = assess(&node);
    assert_eq!(v.hash_spill, Some(Severity::High));
    assert!(!v.sort_spill);
}

#[test]
fn test_hash_batch_spill_medium() {
    let mut node = sort_node();
    node.set_property("Batches", "4");
    assert_eq!(assess(&node).hash_spill, Some(Severity::Medium));
}

#[test]
fn test_in_memory_quicksort_no_finding() {
    let mut node = sort_node();
    node.set_property("Sort Space Type", "Memory");
    node.set_property("Sort Method", "quicksort");
    node.set_property("Sort Space Used", "64");
    let v = assess(&node);
    assert!(!v.sort_spill);
    assert_eq!(v.hash_spill, None);
}

#[test]
fn test_single_batch_no_finding() {
    let mut node = sort_node();
    node.set_property("Batches", "1");
    assert_eq!(assess(&node).hash_spill, None);
}

#[test]
fn sort_memory_test_no_properties_no_finding() {
    let v = assess(&sort_node());
    assert!(!v.sort_spill);
    assert_eq!(v.hash_spill, None);
}

#[test]
fn test_large_in_memory_quicksort_no_finding() {
    // A big in-memory quicksort is not flagged: only actual spills count.
    let mut node = sort_node();
    node.set_property("Sort Space Type", "Memory");
    node.set_property("Sort Method", "quicksort");
    node.set_property("Sort Space Used", "950");
    let v = assess(&node);
    assert!(!v.sort_spill);
    assert_eq!(v.hash_spill, None);
}

#[test]
fn test_unparseable_space_still_flags_disk() {
    let mut node = sort_node();
    node.set_property("Sort Space Type", "Disk");
    node.set_property("Sort Space Used", "unknown");
    let v = assess(&node);
    assert!(v.sort_spill);
    assert_eq!(v.sort_severity, Some(Severity::Medium));
    assert_eq!(v.space_used, kb(0, 0, false));
}

#[test]
fn external_method_is_matched_case_insensitively() {
    let a = SortMemoryAnalyzer::new();
    assert!(a.assess(None, Some("External Merge"), None, None).sort_spill);
    assert!(a.assess(None, Some("EXTERNAL sort"), None, None).sort_spill);
    assert!(!a.assess(Some("disk"), Some("top-N heapsort"), None, None).sort_spill);
    assert_eq!(a.assess(None, None, None, Some(8)).hash_spill, Some(Severity::Medium));
    assert_eq!(a.assess(None, None, None, Some(9)).hash_spill, Some(Severity::High));
}

#[test]
fn test_kb_parsing() {
    assert_eq!(parse_kb("524288 kB"), Some(kb(524288, 0, false)));
    assert_eq!(parse_kb("524288"), Some(kb(524288, 0, false)));
    assert_eq!(parse_kb("not-a-number"), None);
    assert_eq!(parse_kb(""), None);
}

#[test]
fn sort_spill_severity_boundary_and_peak() {
    let a = SortMemoryAnalyzer::new();
    // Exactly 100,000 kB is still medium; one more is high.
    assert_eq!(a.assess(Some("Disk"), None, Some(kb(100_000, 0, false)), None).sort_severity, Some(Severity::Medium));
    assert_eq!(a.assess(Some("Disk"), None, Some(kb(100_001, 0, false)), None).sort_severity, Some(Severity::High));
    // No spill, no severity, whatever the space used.
    assert_eq!(a.assess(Some("Memory"), Some("quicksort"), Some(kb(500_000, 0, false)), None).sort_severity, None);
    // The tally keeps the largest sort space of the plan.
    let mut root = sort_node();
    root.set_property("Sort Space Used", "  950 kB");
    let mut child = sort_node();
    child.set_property("Sort Space Used", "120000 kB");
    root.add_child(child);
    let t = a.tally(&ParsedPlan::new(root));
    assert_eq!(t.max_sort_space_used_thousandths, 120_000_000);
}

#[test]
fn fractional_kb_values() {
    // A decimal fraction is read, so 150000.5 kB is a large spill.
    assert_eq!(parse_kb("150000.5 kB"), Some(kb(150000, 500, false)));
    assert_eq!(parse_kb("  +12.0625"), Some(kb(12, 62, true)));
    assert_eq!(parse_kb("7."), Some(kb(7, 0, false)));
    assert_eq!(parse_kb(".5 kB"), Some(kb(0, 500, false)));
    assert_eq!(parse_kb("1.2300"), Some(kb(1, 230, false)));
    assert_eq!(parse_kb(". kB"), None);
    assert_eq!(parse_kb("1.2.3"), None);
    assert_eq!(parse_kb("12kB"), None);

    let mut node = sort_node();
    node.set_property("Sort Space Type", "Disk");
    node.set_property("Sort Space Used", "150000.5 kB");
    assert_eq!(assess(&node).sort_severity, Some(Severity::High));

    // Just above the limit, however far down the fraction: high; exactly at it: medium.
    let a = SortMemoryAnalyzer::new();
    assert_eq!(a.assess(Some("Disk"), None, parse_kb("100000.0001"), None).sort_severity, Some(Severity::High));
    assert_eq!(a.assess(Some("Disk"), None, parse_kb("100000.5"), None).sort_severity, Some(Severity::High));
    assert_eq!(a.assess(Some("Disk"), None, parse_kb("100000.000"), None).sort_severity, Some(Severity::Medium));
}
