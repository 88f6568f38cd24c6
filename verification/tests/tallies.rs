use plansight::analysis::analyzers::buffer_analysis::BufferWalAnalyzer;
use plansight::analysis::analyzers::filter_efficiency::FilterEfficiencyAnalyzer;
use plansight::analysis::analyzers::index_efficiency::IndexEfficiencyAnalyzer;
use plansight::analysis::analyzers::index_usage::IndexUsageAnalyzer;
use plansight::analysis::analyzers::join_analysis::JoinAnalyzer;
use plansight::analysis::analyzers::parallelization::ParallelizationAnalyzer;
use plansight::analysis::analyzers::row_estimation::RowEstimationAnalyzer;
use plansight::analysis::analyzers::sort_memory::SortMemoryAnalyzer;
use plansight::analysis::consolidated_config::{cost_levels, row_count_levels, WorkloadContext};
use plansight::plan::{NodeKind, ParsedPlan, PlanNode};
use plansight::text::word_after;

fn node(kind: NodeKind, rows: u64, text: &str) -> PlanNode {
    PlanNode::new(kind, rows, text.to_string())
}

fn with_cost(mut n: PlanNode, units: u64) -> PlanNode {
    n.set_costs(0, units * 100);
    n
}

#[test]
fn default_analysers_use_the_default_workload_levels() {
    let w = WorkloadContext::default();
    let (rows, costs) = (row_count_levels(&w), cost_levels(&w));
    let j = JoinAnalyzer::new();
    let k = JoinAnalyzer::with_levels(rows, costs);
    assert_eq!(j.nested_loop(5_000_000, 0), k.nested_loop(5_000_000, 0));
    assert_eq!(j.nested_loop(1_000_000, 0), Some(plansight::analysis::Severity::High));
    assert_eq!(RowEstimationAnalyzer::new().excessive_rows(100_000), Some(plansight::analysis::Severity::Medium));
    let p = ParallelizationAnalyzer::new();
    let big = with_cost(node(NodeKind::SeqScan, 2_000_000, "Seq Scan on t"), 1);
    assert_eq!(p.assess_node(&big).missed, Some(plansight::analysis::Severity::High));
}

#[test]
fn join_tally_counts_by_algorithm() {
    let mut root = with_cost(node(NodeKind::HashJoin, 20_000_000, "Hash Join"), 10);
    let mut nl = with_cost(node(NodeKind::NestedLoop, 2_000_000, "Nested Loop"), 10);
    nl.add_child(node(NodeKind::SeqScan, 10, "Seq Scan on a"));
    nl.add_child(node(NodeKind::SeqScan, 10, "Seq Scan on b"));
    root.add_child(nl);
    root.add_child(with_cost(node(NodeKind::MergeJoin, 10, "Merge Join"), 200_000));
    root.add_child(with_cost(node(NodeKind::NestedLoop, 300, "Nested Loop"), 1));
    let t = JoinAnalyzer::new().tally(&ParsedPlan::new(root));
    assert_eq!(t.nodes_analyzed, 4);
    assert_eq!((t.nested_loops, t.hash_joins, t.merge_joins), (2, 1, 1));
    // The 2M-row nested loop is large; the hash join (critical rows) and the
    // costly merge join are ineffective.
    assert_eq!(t.large_joins, 1);
    assert_eq!(t.ineffective_joins, 2);
    assert_eq!(t.max_join_rows, 2_000_000);
}

#[test]
fn row_tally_counts_excessive_rows_and_cross_products() {
    let mut nl = node(NodeKind::NestedLoop, 50_000, "Nested Loop");
    nl.add_child(node(NodeKind::SeqScan, 250, "Seq Scan on a"));
    nl.add_child(node(NodeKind::SeqScan, 200, "Seq Scan on b"));
    let mut root = node(NodeKind::Aggregate, 1, "Aggregate");
    root.add_child(nl);
    let t = RowEstimationAnalyzer::new().tally(&ParsedPlan::new(root));
    assert_eq!(t.nodes_analyzed, 4);
    assert_eq!(t.excessive_row_operations, 0);
    assert_eq!(t.cartesian_products, 1);
    assert_eq!(t.max_processed_rows, 50_000);
}

#[test]
fn parallel_tally_splits_parallel_and_sequential() {
    let mut gather = node(NodeKind::Other, 10, "Gather");
    gather.set_property("Workers Planned", "4");
    gather.set_property("Workers Launched", "1");
    gather.add_child(node(NodeKind::SeqScan, 10, "Parallel Seq Scan on t"));
    let mut root = node(NodeKind::Aggregate, 2_000_000, "Aggregate");
    root.add_child(gather);
    let t = ParallelizationAnalyzer::new().tally(&ParsedPlan::new(root));
    assert_eq!(t.nodes_analyzed, 3);
    assert_eq!((t.parallel_operations, t.sequential_operations), (2, 1));
    assert_eq!(t.missed_opportunities, 1);
    assert_eq!(t.inefficient_parallelism, 1);
}

#[test]
fn filter_tally_sums_removed_rows() {
    let mut a = node(NodeKind::SeqScan, 10, "Seq Scan on a");
    a.set_property("Rows Removed by Filter", "50000");
    a.set_actual_rows(10);
    let mut b = node(NodeKind::SeqScan, 10, "Seq Scan on b");
    b.set_property("Rows Removed by Filter", "500");
    b.set_property("Rows Removed by Join Filter", "20000");
    let mut root = node(NodeKind::HashJoin, 10, "Hash Join");
    root.add_child(a);
    root.add_child(b);
    let t = FilterEfficiencyAnalyzer::new().tally(&ParsedPlan::new(root));
    assert_eq!(t.nodes_analyzed, 3);
    assert_eq!(t.total_rows_removed, 70_500);
    assert_eq!(t.nodes_with_wasteful_filter, 1);
    let huge = || {
        let mut n = node(NodeKind::SeqScan, 10, "Seq Scan on c");
        n.set_property("Rows Removed by Filter", "18446744073709551615");
        n
    };
    let mut top = node(NodeKind::Other, 1, "Append");
    top.add_child(huge());
    top.add_child(huge());
    assert_eq!(FilterEfficiencyAnalyzer::new().tally(&ParsedPlan::new(top)).total_rows_removed, u64::MAX);
}

#[test]
fn index_usage_and_efficiency_tallies() {
    let mut seq = node(NodeKind::SeqScan, 10, "Seq Scan on a");
    seq.set_property("Filter", "(id = 1)");
    let mut only = node(NodeKind::IndexOnlyScan, 10, "Index Only Scan using ix on b");
    only.set_property("Heap Fetches", "1200");
    let mut bitmap = node(NodeKind::BitmapHeapScan, 10, "Bitmap Heap Scan on c");
    bitmap.set_property("Heap Blocks: lossy", "70");
    let mut root = node(NodeKind::Other, 10, "Append");
    root.add_child(seq);
    root.add_child(only);
    root.add_child(node(NodeKind::IndexScan, 10, "Index Scan using iy on d"));
    root.add_child(bitmap);
    let plan = ParsedPlan::new(root);
    let u = IndexUsageAnalyzer::new().tally(&plan);
    assert_eq!((u.nodes_analyzed, u.seq_scans, u.index_scans, u.seq_scans_with_filters), (5, 1, 2, 1));
    let e = IndexEfficiencyAnalyzer::new().tally(&plan);
    assert_eq!((e.nodes_analyzed, e.total_heap_fetches, e.total_lossy_blocks), (5, 1200, 70));
}

#[test]
fn sort_and_buffer_tallies() {
    let mut sort = node(NodeKind::Sort, 10, "Sort");
    sort.set_property("Sort Method", "external merge");
    sort.set_property("Buffers", "shared hit=3 read=350, temp read=100 written=25");
    let mut hash = node(NodeKind::Other, 10, "Hash");
    hash.set_property("Batches", "4");
    hash.set_property("WAL", "records=2 bytes=1000");
    let mut root = node(NodeKind::HashJoin, 10, "Hash Join");
    root.set_property("Buffers", "shared read=50");
    root.set_property("WAL", "bytes=24");
    root.add_child(sort);
    root.add_child(hash);
    let plan = ParsedPlan::new(root);
    let s = SortMemoryAnalyzer::new().tally(&plan);
    assert_eq!((s.nodes_analyzed, s.nodes_with_sort_spill, s.nodes_with_hash_spill), (3, 1, 1));
    let b = BufferWalAnalyzer::new().tally(&plan);
    assert_eq!((b.nodes_analyzed, b.temp_blocks, b.shared_read_blocks, b.wal_bytes), (3, 125, 400, 1024));
}

#[test]
fn word_after_a_marker() {
    assert_eq!(word_after("Seq Scan on users u  (cost=0.00..1.00 rows=1 width=4)", " on "), Some("users".to_string()));
    assert_eq!(word_after("Index Scan using users_pkey on users", " using "), Some("users_pkey".to_string()));
    assert_eq!(word_after("Hash Join  (cost=1.00..2.00 rows=1 width=8)", " on "), None);
    assert_eq!(word_after("Seq Scan on ", " on "), Some(String::new()));
}
