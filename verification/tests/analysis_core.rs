use plansight::analysis::{
    assess_performance, max_severity, severity_counts, top_issue_indices, AnalyzerStats, NodePath,
    PerformanceAssessment, Severity, SeverityCounts,
};

#[test]
fn test_node_path() {
    let root = NodePath::root();
    let child = root.child_of(0, "Index Scan".to_string());
    let grandchild = child.child_of(1, "Sort".to_string());

    assert_eq!(root.path, Vec::<usize>::new());
    assert_eq!(child.path, vec![0usize]);
    assert_eq!(grandchild.path, vec![0usize, 1usize]);
    assert_eq!(grandchild.description, "Root node -> Index Scan -> Sort");
}

#[test]
fn severity_order_and_rank() {
    assert!(Severity::Low < Severity::Medium);
    assert!(Severity::High < Severity::Critical);
    assert_eq!(Severity::Low.rank(), 0);
    assert_eq!(Severity::Critical.rank(), 3);
}

#[test]
fn counts_and_maximum() {
    let s = [Severity::High, Severity::Low, Severity::High, Severity::Critical];
    let c = severity_counts(&s);
    assert_eq!(c, SeverityCounts { low: 1, medium: 0, high: 2, critical: 1 });
    assert_eq!(max_severity(&s), Some(Severity::Critical));
    assert_eq!(max_severity(&[]), None);
}

#[test]
fn assessment_thresholds() {
    let mk = |critical, high, medium| SeverityCounts { low: 0, medium, high, critical };
    assert_eq!(assess_performance(&mk(0, 0, 0)), PerformanceAssessment::Excellent);
    assert_eq!(assess_performance(&mk(0, 0, 1)), PerformanceAssessment::Excellent);
    assert_eq!(assess_performance(&mk(0, 0, 2)), PerformanceAssessment::Good);
    assert_eq!(assess_performance(&mk(0, 1, 0)), PerformanceAssessment::Good);
    assert_eq!(assess_performance(&mk(0, 2, 0)), PerformanceAssessment::Fair);
    assert_eq!(assess_performance(&mk(0, 0, 5)), PerformanceAssessment::Fair);
    assert_eq!(assess_performance(&mk(0, 5, 0)), PerformanceAssessment::Poor);
    assert_eq!(assess_performance(&mk(1, 0, 0)), PerformanceAssessment::Poor);
    assert_eq!(assess_performance(&mk(3, 0, 0)), PerformanceAssessment::Critical);
}

#[test]
fn more_findings_never_improve_the_assessment() {
    let rank = |a: PerformanceAssessment| match a {
        PerformanceAssessment::Excellent => 0,
        PerformanceAssessment::Good => 1,
        PerformanceAssessment::Fair => 2,
        PerformanceAssessment::Poor => 3,
        PerformanceAssessment::Critical => 4,
    };
    let base = SeverityCounts { low: 0, medium: 1, high: 1, critical: 0 };
    let worse = SeverityCounts { low: 0, medium: 4, high: 1, critical: 1 };
    assert!(rank(assess_performance(&base)) <= rank(assess_performance(&worse)));
}

#[test]
fn top_issues_most_severe_first_stable() {
    let s = [
        Severity::Low,
        Severity::High,
        Severity::Critical,
        Severity::Medium,
        Severity::High,
        Severity::Critical,
        Severity::Low,
    ];
    assert_eq!(top_issue_indices(&s), vec![2, 5, 1, 4, 3]);
    assert_eq!(top_issue_indices(&[Severity::Low, Severity::Medium]), vec![1, 0]);
}

#[test]
fn analyzer_stats_counts_records() {
    let mut stats = AnalyzerStats::new();
    stats.record("BufferWalAnalyzer".to_string(), "1.0.0".to_string());
    stats.record("PlanShapeAnalyzer".to_string(), "1.0.0".to_string());
    assert_eq!(stats.total_count, 2);
    assert_eq!(stats.analyzer_versions.get("PlanShapeAnalyzer").map(|s| s.as_str()), Some("1.0.0"));
}
