use plansight::analysis::analyzers::plan_shape::PlanShapeAnalyzer;
use plansight::analysis::traversal::PlanTraversal;
use plansight::plan::{NodeKind, ParsedPlan, PlanNode};

fn scan() -> PlanNode {
    PlanNode::new(NodeKind::SeqScan, 1000, "Seq Scan on t".to_string())
}

#[test]
fn test_metrics_counts() {
    // root Join -> [ scan, Sort -> [ scan ] ]
    let mut sort = PlanNode::new(NodeKind::Sort, 1000, "Sort".to_string());
    sort.add_child(scan());

    let mut root = PlanNode::new(NodeKind::HashJoin, 1000, "Hash Join".to_string());
    root.add_child(scan());
    root.add_child(sort);

    let m = PlanShapeAnalyzer::new().metrics(&ParsedPlan::new(root));
    assert_eq!(m.node_count, 4);
    assert_eq!(m.max_depth, 2);
    assert_eq!(m.scan_count, 2);
    assert_eq!(m.join_count, 1);
    assert_eq!(m.sort_count, 1);
    assert_eq!(m.aggregate_count, 0);
}

#[test]
fn test_deep_plan_flagged() {
    // 15-deep chain of scans.
    let mut node = scan();
    for _ in 0..15 {
        let mut parent = scan();
        parent.add_child(node);
        node = parent;
    }
    let a = PlanShapeAnalyzer::new();
    let m = a.metrics(&ParsedPlan::new(node));
    assert_eq!(m.max_depth, 15);
    assert!(a.is_complex(&m));
}

#[test]
fn test_simple_plan_no_shape_finding() {
    // root 300 over two scans of 100 each: self costs 100/100/100, total
    // below 1000 -> no findings.
    let mut root = scan_cost(300);
    root.add_child(scan_cost(100));
    root.add_child(scan_cost(100));

    let a = PlanShapeAnalyzer::new();
    let plan = ParsedPlan::new(root);
    let m = a.metrics(&plan);
    assert_eq!(m.node_count, 3);
    assert_eq!(m.max_depth, 1);
    assert!(!a.is_complex(&m));
    assert!(!a.dominance(&plan).flagged);
}

#[test]
fn wide_plan_is_complex() {
    let mut root = scan();
    for _ in 0..39 {
        root.add_child(scan());
    }
    let a = PlanShapeAnalyzer::new();
    let m = a.metrics(&ParsedPlan::new(root));
    assert_eq!(m.node_count, 40);
    assert_eq!(m.max_depth, 1);
    assert!(a.is_complex(&m));
}

fn scan_cost(total_units: u64) -> PlanNode {
    let mut n = scan();
    n.set_costs(0, total_units * 100);
    n
}

#[test]
fn test_dominant_node_flagged() {
    // root total 10000 with a single child scan total 9500: the child's self
    // cost 9500 dominates (0.95).
    let mut root = scan_cost(10_000);
    root.add_child(scan_cost(9_500));
    let d = PlanShapeAnalyzer::new().dominance(&ParsedPlan::new(root));
    assert!(d.flagged);
    // The child is the first node the walk visits.
    assert_eq!(d.dominant_index, Some(0));
    let frac = d.max_self_cost as f64 / (10_000.0 * 100.0);
    assert!((0.94..=0.96).contains(&frac), "fraction was {frac}");
}

#[test]
fn test_dominant_fraction_below_threshold_no_finding() {
    // root 3000 over two children of 1000 each: self costs 1000/1000/1000.
    let mut root = scan_cost(3_000);
    root.add_child(scan_cost(1_000));
    root.add_child(scan_cost(1_000));
    let plan = ParsedPlan::new(root);
    let d = PlanShapeAnalyzer::new().dominance(&plan);
    assert!(!d.flagged);
    // The first node visited with the largest self cost is named: the walk
    // visits children before their parent, so that is the first child.
    assert_eq!(d.dominant_index, Some(0));
    assert_eq!(PlanTraversal::post_order_visits(&plan)[0].1.path, vec![0usize]);
    assert_eq!(d.max_self_cost, 1_000 * 100);
}

#[test]
fn cheap_or_single_node_plans_are_not_dominated() {
    let mut root = scan_cost(300);
    root.add_child(scan_cost(100));
    root.add_child(scan_cost(100));
    assert!(!PlanShapeAnalyzer::new().dominance(&ParsedPlan::new(root)).flagged);
    assert!(!PlanShapeAnalyzer::new().dominance(&ParsedPlan::new(scan_cost(50_000))).flagged);
    // Children costing more than their parent give the parent no self cost.
    let mut odd = scan_cost(10);
    odd.add_child(scan_cost(20));
    let d = PlanShapeAnalyzer::new().dominance(&ParsedPlan::new(odd));
    assert_eq!(d.max_self_cost, 2_000);
    assert_eq!(d.dominant_index, Some(0));
}

fn chain_of(levels: usize) -> PlanNode {
    let mut node = scan();
    for _ in 0..levels {
        let mut parent = scan();
        parent.add_child(node);
        node = parent;
    }
    node
}

#[test]
fn depth_twelve_is_not_deeper_than_the_limit() {
    // A chain of 13 scans has depth 12: not deeper than 12, so not complex;
    // one more level makes it complex.
    let a = PlanShapeAnalyzer::new();
    let m = a.metrics(&ParsedPlan::new(chain_of(12)));
    assert_eq!(m.max_depth, 12);
    assert_eq!(m.node_count, 13);
    assert!(!a.is_complex(&m));
    let m = a.metrics(&ParsedPlan::new(chain_of(13)));
    assert_eq!(m.max_depth, 13);
    assert!(a.is_complex(&m));
}
