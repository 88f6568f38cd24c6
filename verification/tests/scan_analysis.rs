use plansight::analysis::analyzers::scan_analysis::{seq_scan_verdict, ScanAnalyzer};
use plansight::analysis::unified_config::{
    CostThresholds, DatabaseSize, OperationType, PerformanceTarget, RowCountThresholds, UnifiedAnalysisContext,
    UnifiedThresholds, WorkloadType,
};
use plansight::analysis::{FindingType, Severity};
use plansight::plan::{NodeKind, ParsedPlan, PlanNode};

#[test]
fn sequential_scan_judged_by_measured_rows() {
    let t = RowCountThresholds::for_operation(OperationType::Scan, DatabaseSize::Medium);
    // Estimated small, measured large: the measurement decides.
    let v = seq_scan_verdict(&t, 10, Some(2_000_000));
    assert_eq!(v.row_count, 2_000_000);
    assert_eq!(v.severity, Severity::High);
    assert!(v.reported);
    // No measurement: the estimate decides.
    let w = seq_scan_verdict(&t, 150_000, None);
    assert_eq!(w.severity, Severity::Medium);
    assert!(w.reported);
    let x = seq_scan_verdict(&t, 99_999, None);
    assert_eq!(x.severity, Severity::Low);
    assert!(!x.reported);
}

#[test]
fn scan_tally_over_a_plan() {
    let mut root = PlanNode::new(NodeKind::HashJoin, 10, "Hash Join".to_string());
    root.add_child(PlanNode::new(NodeKind::SeqScan, 20_000_000, "Seq Scan on big".to_string()));
    let mut small = PlanNode::new(NodeKind::SeqScan, 5_000_000, "Seq Scan on small".to_string());
    small.set_actual_rows(50);
    root.add_child(small);
    root.add_child(PlanNode::new(NodeKind::IndexScan, 30_000_000, "Index Scan on idx".to_string()));
    let a = ScanAnalyzer::new();
    let tally = a.tally(&ParsedPlan::new(root));
    assert_eq!(tally.nodes_analyzed, 3);
    assert_eq!(tally.sequential_scans, 2);
    assert_eq!(tally.large_scans, 1);
    assert_eq!(tally.max_scan_rows, 20_000_000);
    assert_eq!(tally.index_scans, 1);
    // 30M rows against the index thresholds (critical from 1M) is inefficient.
    assert_eq!(tally.inefficient_scans, 1);
    assert_eq!(tally.bitmap_scans, 0);
    assert_eq!(a.judge(20_000_000, None).severity, Severity::Critical);
}

#[test]
fn index_and_bitmap_scan_rules() {
    let a = ScanAnalyzer::new();
    // Index thresholds, medium database and fast target: rows 1M/100k/10k/1k,
    // costs 50,000/5,000/500/50 units.
    let mut idx = PlanNode::new(NodeKind::IndexScan, 500, "Index Scan using ix on t".to_string());
    idx.set_costs(0, 4_999_00);
    assert_eq!(a.assess_node(&idx).inefficient_index_scan, None);
    idx.set_costs(0, 5_000_00);
    assert_eq!(a.assess_node(&idx).inefficient_index_scan, Some(Severity::High));
    idx.set_costs(0, 50_000_00);
    assert_eq!(a.assess_node(&idx).inefficient_index_scan, Some(Severity::Critical));
    // Rows alone can make it inefficient too; an index-only scan is an index scan.
    let only = PlanNode::new(NodeKind::IndexOnlyScan, 100_000, "Index Only Scan using ix on t".to_string());
    assert_eq!(a.assess_node(&only).inefficient_index_scan, Some(Severity::High));
    assert_eq!(a.assess_node(&only).seq_scan, None);
    let bitmap = PlanNode::new(NodeKind::BitmapHeapScan, 99_999, "Bitmap Heap Scan on t".to_string());
    assert_eq!(a.assess_node(&bitmap).large_bitmap_scan, None);
    let bitmap = PlanNode::new(NodeKind::BitmapIndexScan, 1_000_000, "Bitmap Index Scan on ix".to_string());
    assert_eq!(a.assess_node(&bitmap).large_bitmap_scan, Some(Severity::Critical));
}

#[test]
fn scan_thresholds_follow_the_context() {
    let ctx = UnifiedAnalysisContext {
        database_size: DatabaseSize::Small,
        workload_type: WorkloadType::OLTP,
        performance_target: PerformanceTarget::Interactive,
    };
    let a = ScanAnalyzer::for_context(&ctx);
    // Small database: scan thresholds a tenth (medium from 10,000 rows).
    assert_eq!(a.judge(10_000, None).severity, Severity::Medium);
    assert_eq!(a.judge(9_999, None).severity, Severity::Low);
    // Interactive target: index costs a tenth (high from 500 units).
    let mut idx = PlanNode::new(NodeKind::IndexScan, 1, "Index Scan using ix on t".to_string());
    idx.set_costs(0, 500_00);
    assert_eq!(a.assess_node(&idx).inefficient_index_scan, Some(Severity::High));
}

#[test]
fn cost_thresholds_scale_with_the_target() {
    let fast = CostThresholds::for_operation(OperationType::Index, PerformanceTarget::Fast);
    assert_eq!((fast.extreme, fast.high, fast.medium, fast.low), (5_000_000, 500_000, 50_000, 5_000));
    let batch = CostThresholds::for_operation(OperationType::Scan, PerformanceTarget::Batch);
    assert_eq!(batch.extreme, 1_000_000_000);
    let bg = CostThresholds::for_operation(OperationType::Join, PerformanceTarget::Background);
    assert_eq!(bg.low, 500 * 100 * 100);
    assert_eq!(fast.classify_severity(5_000_000), Severity::Critical);
    assert_eq!(fast.classify_severity(4_999_999), Severity::High);
    assert_eq!(fast.classify_severity(0), Severity::Low);
    let u = UnifiedThresholds::for_operation(OperationType::Index, &UnifiedAnalysisContext::default());
    assert_eq!(u.cost, fast);
    assert_eq!(u.row_count, RowCountThresholds::for_operation(OperationType::Index, DatabaseSize::Medium));
}

#[test]
fn disabled_scan_kinds_change_nothing() {
    let mut root = PlanNode::new(NodeKind::HashJoin, 10, "Hash Join".to_string());
    root.add_child(PlanNode::new(NodeKind::SeqScan, 20_000_000, "Seq Scan on big".to_string()));
    root.add_child(PlanNode::new(NodeKind::IndexScan, 30_000_000, "Index Scan on idx".to_string()));
    let plan = ParsedPlan::new(root);
    let context = UnifiedAnalysisContext::default();

    // Only index findings enabled: sequential scans are neither judged nor counted.
    let a = ScanAnalyzer::with_config(&context, &[FindingType::InefficiientScan, FindingType::MissingIndex]);
    let t = a.tally(&plan);
    assert_eq!(t.nodes_analyzed, 2);
    assert_eq!(t.sequential_scans, 0);
    assert_eq!(t.large_scans, 0);
    assert_eq!(t.max_scan_rows, 0);
    assert_eq!(t.index_scans, 1);
    assert_eq!(t.inefficient_scans, 1);
    let seq = PlanNode::new(NodeKind::SeqScan, 20_000_000, "Seq Scan on big".to_string());
    assert_eq!(a.assess_node(&seq).seq_scan, None);

    // Only sequential-scan findings enabled: index scans are left alone.
    let b = ScanAnalyzer::with_config(&context, &[FindingType::LargeSequentialScan]);
    let t = b.tally(&plan);
    assert_eq!(t.sequential_scans, 1);
    assert_eq!(t.large_scans, 1);
    assert_eq!(t.max_scan_rows, 20_000_000);
    assert_eq!(t.index_scans, 0);
    assert_eq!(t.inefficient_scans, 0);
    let idx = PlanNode::new(NodeKind::IndexScan, 30_000_000, "Index Scan on idx".to_string());
    assert_eq!(b.assess_node(&idx).inefficient_index_scan, None);
    assert!(b.assess_node(&seq).seq_scan.unwrap().reported);
}
