use plansight::analysis::analyzers::join_analysis::{estimate_hash_join_memory_kb, hash_join_pressure, JoinAnalyzer};
use plansight::analysis::analyzers::parallelization::ParallelizationAnalyzer;
use plansight::analysis::analyzers::query_pattern_analysis::QueryPatternAnalyzer;
use plansight::analysis::analyzers::row_estimation::RowEstimationAnalyzer;
use plansight::analysis::consolidated_config::{
    cost_levels, row_count_levels, DatabaseSize, PerformanceTarget, WorkloadContext, WorkloadType,
};
use plansight::analysis::Severity;
use plansight::plan::{NodeKind, ParsedPlan, PlanNode};

fn default_levels() -> plansight::analysis::consolidated_config::ThresholdLevels<u64> {
    row_count_levels(&WorkloadContext::default())
}

#[test]
fn test_simple_query_low_complexity() {
    let analyzer = QueryPatternAnalyzer::new();
    let mut node = PlanNode::new(NodeKind::SeqScan, 1000, "Seq Scan on test_table".to_string());
    node.set_estimated_width(50);
    let m = analyzer.metrics(&ParsedPlan::new(node));
    // Simple query should have low complexity
    assert!(analyzer.complexity(&m) < 50);
}

#[test]
fn test_complex_query_high_complexity() {
    let analyzer = QueryPatternAnalyzer::new();
    let mut join1 = PlanNode::new(NodeKind::NestedLoop, 1000, "Join 1".to_string());
    join1.add_child(PlanNode::new(NodeKind::SeqScan, 1000, "Scan t1".to_string()));
    join1.add_child(PlanNode::new(NodeKind::SeqScan, 1000, "Scan t2".to_string()));
    let mut join2 = PlanNode::new(NodeKind::NestedLoop, 1000, "Join 2".to_string());
    join2.add_child(join1);
    join2.add_child(PlanNode::new(NodeKind::SeqScan, 1000, "Scan t3".to_string()));

    let m = analyzer.metrics(&ParsedPlan::new(join2));
    // Complex query should have higher complexity
    assert!(analyzer.complexity(&m) > 20);
    assert_eq!(m.join_count, 2);
    assert_eq!(analyzer.complexity(&m), 10 * 2 + 3 * 2 * 2);
}

#[test]
fn test_wide_row_detection() {
    let analyzer = QueryPatternAnalyzer::new();
    let mut node = PlanNode::new(NodeKind::SeqScan, 10000, "Seq Scan on wide_table".to_string());
    node.set_estimated_width(1000); // Very wide rows
    assert!(analyzer.assess_node(&node).wide_rows);
}

#[test]
fn query_pattern_node_rules() {
    let a = QueryPatternAnalyzer::new();
    let mut n = PlanNode::new(NodeKind::Other, 10, "Unique".to_string());
    n.set_property("Operation", "Unique");
    n.set_property("Index Cond", "(id = 42)");
    n.set_property("Filter", "(UPPER(name) = 'X')");
    let v = a.assess_node(&n);
    assert!(v.unnecessary_distinct);
    assert!(v.function_on_indexed_column);
    assert!(!v.wide_rows);
    n.set_property("Index Cond", "((a = 1) AND (b = 2))");
    assert!(!a.assess_node(&n).unnecessary_distinct);
}

#[test]
fn query_pattern_depth_and_subplans() {
    let a = QueryPatternAnalyzer::new();
    let mut node = PlanNode::new(NodeKind::Aggregate, 1, "Leaf".to_string());
    node.set_property("Subplan Name", "SubPlan 1");
    for _ in 0..6 {
        let mut parent = PlanNode::new(NodeKind::HashJoin, 1, "Hash Join".to_string());
        parent.add_child(node);
        node = parent;
    }
    let m = a.metrics(&ParsedPlan::new(node));
    assert_eq!(m.nodes_analyzed, 7);
    assert_eq!(m.join_count, 6);
    assert_eq!(m.subquery_count, 1);
    assert_eq!(m.aggregate_count, 1);
    assert_eq!(m.max_depth, 6);
    assert!(a.too_deep(&m));
    assert_eq!(a.complexity(&m), 60 + 15 + 5 + 108);
}

#[test]
fn test_excessive_row_detection() {
    let analyzer = RowEstimationAnalyzer::with_levels(default_levels());
    let node = PlanNode::new(NodeKind::SeqScan, 1_000_000, "Seq Scan on large_table".to_string());
    let v = analyzer.assess_node(&node);
    // Should detect excessive row processing
    assert!(v.excessive.is_some());
    assert!(!v.cartesian_product);
}

#[test]
fn test_cartesian_product_detection() {
    let analyzer = RowEstimationAnalyzer::with_levels(default_levels());
    let mut join_node = PlanNode::new(NodeKind::NestedLoop, 450000, "Nested Loop".to_string());
    join_node.add_child(PlanNode::new(NodeKind::SeqScan, 1000, "Seq Scan on table1".to_string()));
    join_node.add_child(PlanNode::new(NodeKind::SeqScan, 500, "Seq Scan on table2".to_string()));
    // Close to 1000 * 500 = 500000
    assert!(analyzer.assess_node(&join_node).cartesian_product);
}

#[test]
fn cross_product_rule_edges() {
    let a = RowEstimationAnalyzer::with_levels(default_levels());
    // Exactly four fifths is not enough.
    assert!(!a.cross_product(false, 400_000, 1000, 500));
    assert!(a.cross_product(false, 400_001, 1000, 500));
    // A join filter rules it out, as do small outputs.
    assert!(!a.cross_product(true, 450_000, 1000, 500));
    assert!(!a.cross_product(false, 10_000, 1, 1));
    // Huge inputs do not overflow.
    assert!(!a.cross_product(false, u64::MAX, u64::MAX, u64::MAX));
    // A nested loop with a join filter is not a cross product.
    let mut n = PlanNode::new(NodeKind::NestedLoop, 450000, "Nested Loop".to_string());
    n.set_property("Join Filter", "(a.x = b.y)");
    assert!(!a.assess_node(&n).cartesian_product);
}

fn default_costs() -> plansight::analysis::consolidated_config::ThresholdLevels<u64> {
    cost_levels(&WorkloadContext::default())
}

#[test]
fn join_rules() {
    let j = JoinAnalyzer::with_levels(default_levels(), default_costs());
    // 1,000,000 rows is high by the default levels; a small cost keeps it high.
    assert_eq!(j.nested_loop(1_000_000, 100), Some(Severity::High));
    // The worse of row and cost severity decides: 1,000,000 units is critical.
    assert_eq!(j.nested_loop(10, 100_000_000), Some(Severity::Critical));
    assert_eq!(j.nested_loop(10, 1_000_000), None);
    assert!(j.hash_join_candidate(10_000_000, 0));
    assert!(j.hash_join_candidate(1_000_001, 10_000_000));
    assert!(!j.hash_join_candidate(1_000_000, 10_000_000));
    assert!(!j.hash_join_candidate(5_000, 0));
    assert_eq!(j.merge_join(10_000_000), Some(Severity::High));
    assert_eq!(j.merge_join(9_999_999), None);

    let mut nl = PlanNode::new(NodeKind::NestedLoop, 2_000_000, "Nested Loop".to_string());
    nl.set_costs(0, 500_00);
    let v = j.assess_node(&nl);
    assert_eq!(v.large_nested_loop, Some(Severity::High));
    assert_eq!(v.costly_merge_join, None);
    assert!(!v.hash_spill_candidate);
}

fn create_test_hash_join_node(left_rows: u64, left_width: u32, right_rows: u64, right_width: u32) -> PlanNode {
    let mut left = PlanNode::new(NodeKind::SeqScan, left_rows, "Left scan".to_string());
    left.set_estimated_width(left_width);
    left.set_costs(0, 100_00);
    let mut right = PlanNode::new(NodeKind::SeqScan, right_rows, "Right scan".to_string());
    right.set_estimated_width(right_width);
    right.set_costs(0, 100_00);
    let mut join = PlanNode::new(NodeKind::HashJoin, left_rows.max(right_rows), "Hash Join".to_string());
    join.set_estimated_width(left_width + right_width);
    join.set_costs(0, 1000_00);
    join.add_child(left);
    join.add_child(right);
    join
}

#[test]
fn test_no_false_positives_for_small_joins() {
    let j = JoinAnalyzer::with_levels(default_levels(), default_costs());
    let hj = create_test_hash_join_node(1000, 50, 500, 75);
    assert!(!j.assess_node(&hj).hash_spill_candidate, "Small joins should not trigger memory warnings");
    // Even examined, its table fits comfortably in 4 MB of work_mem.
    assert_eq!(j.hash_join_memory_pressure(&hj, 4096), None, "Small joins should not trigger memory warnings");
}

#[test]
fn test_hash_join_memory_estimation_realistic() {
    // Test small join: 1000 rows x 50 bytes should be manageable
    let small_memory = estimate_hash_join_memory_kb(1000, 50, 100);
    assert!(small_memory > 50); // Should be more than just row data
    assert!(small_memory < 500); // But not excessively large

    // Test large join: 1M rows x 200 bytes should be significant
    let large_memory = estimate_hash_join_memory_kb(1_000_000, 200, 150);
    assert!(large_memory > 200_000); // Should be substantial
    assert!(large_memory < 500_000); // But with reasonable overhead

    // Large join should be significantly more than small join
    assert!(large_memory > small_memory * 1500);
}

#[test]
fn hash_join_memory_estimate_exact_values() {
    // 1000 rows of 50 bytes: 104.57 kB, rounded down.
    assert_eq!(estimate_hash_join_memory_kb(1000, 50, 100), 104);
    // 1M rows of 150 bytes: 223,891.25 kB.
    assert_eq!(estimate_hash_join_memory_kb(1_000_000, 200, 150), 223_891);
    // No rows still pays for 1024 buckets and one batch: 10.96 kB.
    assert_eq!(estimate_hash_join_memory_kb(0, 100, 100), 10);
}

#[test]
fn test_memory_pressure_ratio_classification() {
    let j = JoinAnalyzer::with_levels(default_levels(), default_costs());
    let join_node = create_test_hash_join_node(100_000, 100, 50_000, 150);
    let pressure = j.hash_join_memory_pressure(&join_node, 4096);
    // Either a finding or none is valid for the analyser as a whole...
    assert!(pressure.is_some() || pressure.is_none());
    // ...and the estimate (about 8.2 MB against 4 MB, just under twice) is low.
    assert_eq!(pressure, Some(Severity::Low));
}

#[test]
fn hash_join_pressure_ladder() {
    // 50,000 rows of 100 bytes need about 8,187 kB.
    assert_eq!(hash_join_pressure(50_000, 100, 150, 4096), Some(Severity::Low));
    assert_eq!(hash_join_pressure(50_000, 100, 150, 4093), Some(Severity::Medium));
    assert_eq!(hash_join_pressure(50_000, 100, 150, 1637), Some(Severity::High));
    assert_eq!(hash_join_pressure(50_000, 100, 150, 409), Some(Severity::Critical));
    assert_eq!(hash_join_pressure(50_000, 100, 150, 6823), None);
    assert_eq!(hash_join_pressure(50_000, 100, 150, 6822), Some(Severity::Low));
    // No work_mem at all: any table is critical.
    assert_eq!(hash_join_pressure(0, 100, 100, 0), Some(Severity::Critical));
    // The narrower input width is the one used.
    assert_eq!(hash_join_pressure(50_000, 150, 100, 4096), Some(Severity::Low));
}

#[test]
fn hash_join_pressure_eases_with_more_work_mem() {
    let rank = |s: Option<Severity>| s.map(|v| v.rank() as i32 + 1).unwrap_or(0);
    let mut last = rank(hash_join_pressure(2_000_000, 120, 80, 1));
    for wm in [10u64, 100, 1_000, 10_000, 100_000, 1_000_000] {
        let now = rank(hash_join_pressure(2_000_000, 120, 80, wm));
        assert!(now <= last);
        last = now;
    }
    assert_eq!(last, 0);
}

#[test]
fn missing_join_inputs_count_as_empty() {
    let j = JoinAnalyzer::with_levels(default_levels(), default_costs());
    let lone = PlanNode::new(NodeKind::HashJoin, 10, "Hash Join".to_string());
    // Both inputs missing: no rows of a hundred bytes, 10.96 kB.
    assert_eq!(j.hash_join_memory_pressure(&lone, 9), Some(Severity::Low));
    assert_eq!(j.hash_join_memory_pressure(&lone, 10), None);
}

#[test]
fn default_cost_levels() {
    let c = default_costs();
    // Mixed workload, medium database, balanced target: 10,000 units.
    assert_eq!((c.low, c.medium, c.high, c.critical), (100_000, 1_000_000, 10_000_000, 100_000_000));
    let oltp = WorkloadContext {
        workload_type: WorkloadType::OLTP,
        database_size: DatabaseSize::Small,
        performance_target: PerformanceTarget::Latency,
        postgres_version: "15.0".to_string(),
    };
    let o = cost_levels(&oltp);
    assert_eq!((o.low, o.medium), (100, 1_000));
}

#[test]
fn parallelization_rules() {
    let p = ParallelizationAnalyzer::with_levels(default_levels(), default_costs());
    let seq = PlanNode::new(NodeKind::SeqScan, 2_000_000, "Seq Scan on big".to_string());
    let v = p.assess_node(&seq);
    assert!(!v.parallel);
    assert_eq!(v.missed, Some(Severity::High));

    let sort = PlanNode::new(NodeKind::Sort, 2_000_000, "Sort".to_string());
    assert_eq!(p.assess_node(&sort).missed, None);

    let mut costly = PlanNode::new(NodeKind::HashJoin, 10, "Hash Join".to_string());
    costly.set_costs(0, 100_000_000);
    assert_eq!(p.assess_node(&costly).missed, Some(Severity::Critical));

    let mut gather = PlanNode::new(NodeKind::Other, 10, "Gather".to_string());
    gather.set_property("Workers Planned", "4");
    gather.set_property("Workers Launched", "1");
    let g = p.assess_node(&gather);
    assert!(g.parallel);
    assert!(g.inefficient);
    gather.set_property("Workers Launched", "2");
    assert!(!p.assess_node(&gather).inefficient);
    let named = PlanNode::new(NodeKind::SeqScan, 5, "Parallel Seq Scan on t".to_string());
    assert!(p.is_parallel(&named));
}

#[test]
fn complexity_severity_thresholds() {
    let a = QueryPatternAnalyzer::new();
    assert_eq!(a.complexity_severity(0), None);
    assert_eq!(a.complexity_severity(100), None);
    assert_eq!(a.complexity_severity(101), Some(Severity::Medium));
    assert_eq!(a.complexity_severity(200), Some(Severity::Medium));
    assert_eq!(a.complexity_severity(201), Some(Severity::High));
    // A chain of seven joins nested seven deep: 10 * 7 + 3 * 49 = 217.
    let mut node = PlanNode::new(NodeKind::SeqScan, 10, "Seq Scan on t".to_string());
    for i in 0..7 {
        let mut join = PlanNode::new(NodeKind::HashJoin, 10, format!("Join {}", i));
        join.add_child(node);
        node = join;
    }
    let m = a.metrics(&ParsedPlan::new(node));
    assert_eq!(a.complexity(&m), 217);
    assert_eq!(a.complexity_severity(a.complexity(&m)), Some(Severity::High));
}
