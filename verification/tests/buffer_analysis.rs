use plansight::analysis::analyzers::buffer_analysis::{parse_buffers, parse_wal_bytes, BufferWalAnalyzer};
use plansight::analysis::Severity;
use plansight::plan::{NodeKind, PlanNode};

#[test]
fn parses_shared_and_temp_buffers() {
    let b = parse_buffers("shared hit=3 read=350 dirtied=2, temp read=483 written=525");
    assert_eq!(b.shared_hit, 3);
    assert_eq!(b.shared_read, 350);
    assert_eq!(b.temp_read, 483);
    assert_eq!(b.temp_written, 525);
}

#[test]
fn parses_wal_bytes() {
    assert_eq!(parse_wal_bytes("records=525 fpi=3 bytes=98765"), 98765);
    assert_eq!(parse_wal_bytes("records=0"), 0);
}

#[test]
fn flags_temp_spill() {
    let mut node = PlanNode::new(NodeKind::Sort, 1, "Sort  (cost=1.0..2.0 rows=1 width=1)".to_string());
    // ~8 MB of temp spill.
    node.set_property("Buffers", "shared hit=1, temp read=512 written=512");
    let v = BufferWalAnalyzer::new().assess_node(&node);
    assert!(v.spill.is_some(), "expected a spill verdict from temp buffers");
    assert_eq!(v.temp_blocks, 1024);
    assert_eq!(v.spill, Some(Severity::Medium));
}

#[test]
fn spill_severity_steps_with_size() {
    let a = BufferWalAnalyzer::new();
    // 100 blocks = 819,200 bytes: below 1 MB.
    assert_eq!(a.assess(Some("temp written=100"), None).spill, Some(Severity::Low));
    // 2000 blocks = 16.4 MB.
    assert_eq!(a.assess(Some("temp read=1000 written=1000"), None).spill, Some(Severity::High));
    // 20000 blocks = 163.8 MB.
    assert_eq!(a.assess(Some("temp read=20000"), None).spill, Some(Severity::Critical));
    // No temp blocks: nothing to flag.
    assert_eq!(a.assess(Some("shared hit=5"), None).spill, None);
}

#[test]
fn heavy_reads_and_wal_are_flagged() {
    let a = BufferWalAnalyzer::new();
    let v = a.assess(Some("shared read=70000"), Some("records=10 bytes=9000000"));
    // 70000 blocks = 573 MB read.
    assert_eq!(v.heavy_reads, Some(Severity::High));
    assert_eq!(v.wal_bytes, Some(9_000_000));
    assert_eq!(v.high_wal, Some(Severity::Medium));

    let quiet = a.assess(Some("shared read=10"), Some("records=1 bytes=100"));
    assert_eq!(quiet.heavy_reads, None);
    assert_eq!(quiet.high_wal, None);
}

#[test]
fn node_without_buffers_has_no_verdict() {
    let node = PlanNode::new(NodeKind::SeqScan, 1, "Seq Scan on t".to_string());
    let v = BufferWalAnalyzer::new().assess_node(&node);
    assert_eq!(v.buffers, None);
    assert_eq!(v.spill, None);
    assert_eq!(v.heavy_reads, None);
    assert_eq!(v.high_wal, None);
}
