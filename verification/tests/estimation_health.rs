use plansight::analysis::analyzers::estimation_health::{estimate_skew, misestimated_by, EstimateSkew, EstimationHealthAnalyzer};
use plansight::analysis::Severity;
use plansight::plan::{NodeKind, ParsedPlan, PlanNode};

fn node(estimated: u64, actual: Option<u64>) -> PlanNode {
    let mut n = PlanNode::new(NodeKind::SeqScan, estimated, "Seq Scan on t".to_string());
    if let Some(a) = actual {
        n.set_actual_rows(a);
    }
    n
}

fn chain(nodes: Vec<PlanNode>) -> ParsedPlan {
    // Build a linear chain root -> child -> ... from the given nodes.
    let mut iter = nodes.into_iter().rev();
    let mut current = iter.next().expect("at least one node");
    for mut parent in iter {
        parent.add_child(current);
        current = parent;
    }
    ParsedPlan::new(current)
}

#[test]
fn test_systematic_underestimation_flagged() {
    // 5 nodes, all actual (10000) >> estimated (100): all "under".
    let plan = chain((0..5).map(|_| node(100, Some(10_000))).collect());
    let a = EstimationHealthAnalyzer::new();
    let t = a.tally(&plan);
    assert_eq!(t.nodes_with_actuals, 5);
    assert_eq!(t.nodes_underestimated, 5);
    assert_eq!(t.nodes_overestimated, 0);
    assert!(a.systematic_candidate(&t));
    // Average misestimate 100x: the systematic finding is raised, high.
    assert_eq!(a.systematic_severity(&plan), Some(Severity::High));
}

#[test]
fn test_single_outlier_flagged() {
    // 4 accurate nodes + 1 wildly off.
    let mut nodes: Vec<PlanNode> = (0..4).map(|_| node(1000, Some(1000))).collect();
    nodes.push(node(100, Some(10_000)));
    let a = EstimationHealthAnalyzer::new();
    let plan = chain(nodes);
    let t = a.tally(&plan);
    assert!(a.single_outlier_candidate(&t));
    assert_eq!(a.severe_outlier(&plan), Some(4));
    // It must NOT also be flagged as systematic (single significant node).
    assert!(!a.systematic_candidate(&t));
    assert_eq!(a.systematic_severity(&plan), None);
}

#[test]
fn test_accurate_plan_no_finding() {
    // All within band [0.5, 2.0].
    let plan = chain((0..5).map(|_| node(1000, Some(1200))).collect());
    let a = EstimationHealthAnalyzer::new();
    let t = a.tally(&plan);
    assert_eq!(t.nodes_with_actuals, 5);
    assert!(!a.systematic_candidate(&t));
    assert!(!a.single_outlier_candidate(&t));
    assert_eq!(a.systematic_severity(&plan), None);
    assert_eq!(a.severe_outlier(&plan), None);
}

#[test]
fn test_no_actuals_metrics_only() {
    let plan = chain((0..5).map(|_| node(1000, None)).collect());
    let a = EstimationHealthAnalyzer::new();
    let t = a.tally(&plan);
    assert_eq!(t.nodes_with_actuals, 0);
    assert!(!a.systematic_candidate(&t));
    assert!(!a.single_outlier_candidate(&t));
}

#[test]
fn skew_band_edges() {
    // Twice the estimate is already an underestimate; half of it an overestimate.
    assert_eq!(estimate_skew(100, 200), EstimateSkew::Under);
    assert_eq!(estimate_skew(100, 199), EstimateSkew::Accurate);
    assert_eq!(estimate_skew(200, 100), EstimateSkew::Over);
    assert_eq!(estimate_skew(199, 100), EstimateSkew::Accurate);
}

#[test]
fn severe_outlier_needs_one_significant_node_off_fifty_times() {
    let a = EstimationHealthAnalyzer::new();
    // Four accurate nodes and one off by a hundred times: the last node.
    let mut nodes: Vec<PlanNode> = (0..4).map(|_| node(1000, Some(1000))).collect();
    nodes.push(node(100, Some(10_000)));
    assert_eq!(a.severe_outlier(&chain(nodes)), Some(4));
    // Off by exactly fifty still counts; by forty-nine it does not.
    let mut nodes: Vec<PlanNode> = (0..4).map(|_| node(1000, Some(1000))).collect();
    nodes.insert(1, node(5000, Some(100)));
    assert_eq!(a.severe_outlier(&chain(nodes)), Some(1));
    let mut nodes: Vec<PlanNode> = (0..4).map(|_| node(1000, Some(1000))).collect();
    nodes.insert(1, node(4900, Some(100)));
    assert_eq!(a.severe_outlier(&chain(nodes)), None);
    // Two significant nodes: no outlier, however large.
    let nodes = vec![node(1, Some(1000)), node(1000, Some(1000)), node(10, Some(100))];
    assert_eq!(a.severe_outlier(&chain(nodes)), None);
    // No actuals at all.
    assert_eq!(a.severe_outlier(&chain((0..3).map(|_| node(10, None)).collect())), None);
}

#[test]
fn misestimate_factor_counts_zero_as_one() {
    assert!(misestimated_by(0, 50, 50));
    assert!(!misestimated_by(0, 49, 50));
    assert!(misestimated_by(100, 2, 50));
    assert!(!misestimated_by(100, 3, 50));
    assert!(misestimated_by(u64::MAX, 1, u64::MAX));
}

#[test]
fn systematic_average_thresholds_are_exact() {
    let a = EstimationHealthAnalyzer::new();
    // Four nodes off by exactly 3x: average 3, raised at medium severity.
    let plan = chain((0..4).map(|_| node(100, Some(300))).collect());
    assert_eq!(a.systematic_severity(&plan), Some(Severity::Medium));
    // Off by 2x and 3x (twice each): average 2.5, not raised.
    let plan = chain(vec![node(100, Some(200)), node(100, Some(300)), node(100, Some(200)), node(100, Some(300))]);
    assert!(a.systematic_candidate(&a.tally(&plan)));
    assert_eq!(a.systematic_severity(&plan), None);
    // Off by 2x and 18x: average exactly 10, high.
    let plan = chain(vec![node(100, Some(200)), node(100, Some(1800)), node(50, Some(100)), node(10, Some(180))]);
    assert_eq!(a.systematic_severity(&plan), Some(Severity::High));
    // Over-estimates count the same way: 1/7 of the estimate each time.
    let plan = chain((0..4).map(|_| node(700, Some(100))).collect());
    assert_eq!(a.systematic_severity(&plan), Some(Severity::Medium));
    // Ratios 7/3 (not whole): four of them average 2.33, not raised.
    let plan = chain((0..4).map(|_| node(300, Some(700))).collect());
    assert_eq!(a.systematic_severity(&plan), None);
}
