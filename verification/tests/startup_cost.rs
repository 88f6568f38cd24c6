use plansight::analysis::analyzers::startup_cost::StartupCostAnalyzer;
use plansight::analysis::Severity;
use plansight::plan::{NodeKind, ParsedPlan, PlanNode};

/// Costs below are in hundredths of a cost unit.
fn node(kind: NodeKind, startup: u64, total: u64, text: &str) -> PlanNode {
    let mut n = PlanNode::new(kind, 1000, text.to_string());
    n.set_costs(startup, total);
    n
}

#[test]
fn test_high_startup_cost_detection() {
    let analyzer = StartupCostAnalyzer::new();
    let mut n = node(NodeKind::Sort, 50_000_00, 55_000_00, "Sort");
    n.set_property("Sort Method", "external merge");
    let v = analyzer.assess_node(&n);
    // Should detect high startup cost
    assert!(v.high_startup.is_some());
    assert_eq!(v.high_startup, Some(Severity::Medium));
    assert!(v.startup_dominant);
    assert!(v.external_sort);
}

#[test]
fn test_external_sort_detection() {
    let analyzer = StartupCostAnalyzer::new();
    let mut n = node(NodeKind::Sort, 10_000_00, 12_000_00, "Sort");
    n.set_property("Sort Method", "external merge");
    // Should detect external sort
    assert!(analyzer.assess_node(&n).external_sort);
}

#[test]
fn test_low_startup_cost_no_findings() {
    let analyzer = StartupCostAnalyzer::new();
    let n = node(NodeKind::SeqScan, 0, 1000_00, "Seq Scan on test_table");
    let v = analyzer.assess_node(&n);
    // Should not flag low startup cost operations
    assert_eq!(v.high_startup, None);
    assert!(!v.startup_dominant);
    assert!(!v.external_sort);
    assert!(!v.expensive_materialization);
}

#[test]
fn startup_severity_steps() {
    let a = StartupCostAnalyzer::new();
    assert_eq!(a.assess(NodeKind::Other, 10_000_00, 0, None).high_startup, None);
    assert_eq!(a.assess(NodeKind::Other, 10_000_01, 0, None).high_startup, Some(Severity::Medium));
    assert_eq!(a.assess(NodeKind::Other, 50_000_01, 0, None).high_startup, Some(Severity::High));
    assert_eq!(a.assess(NodeKind::Other, 100_000_01, 0, None).high_startup, Some(Severity::Critical));
    // Exactly nine tenths is not dominant.
    assert!(!a.assess(NodeKind::Other, 9_000_00, 10_000_00, None).startup_dominant);
    assert!(a.assess(NodeKind::Other, 9_000_01, 10_000_00, None).startup_dominant);
    assert!(a.assess(NodeKind::Materialize, 5_000_01, 6_000_00, None).expensive_materialization);
    assert!(!a.assess(NodeKind::Sort, 5_000_01, 6_000_00, Some("quicksort")).external_sort);
}

#[test]
fn startup_tally_over_a_plan() {
    let mut root = node(NodeKind::HashJoin, 20_000_00, 30_000_00, "Hash Join");
    root.add_child(node(NodeKind::Sort, 15_000_00, 16_000_00, "Sort"));
    root.add_child(node(NodeKind::SeqScan, 0, 100_00, "Seq Scan on t"));
    let t = StartupCostAnalyzer::new().tally(&ParsedPlan::new(root));
    assert_eq!(t.nodes_analyzed, 3);
    assert_eq!(t.high_startup_nodes, 2);
    assert_eq!(t.max_startup_cost, 20_000_00);
}
