use plansight::analysis::consolidated_config::{
    regression_window, row_count_levels, ConfigurationBuilder, DatabaseSize, GlobalSettings, NormalizationConfig,
    PerformanceTarget, WorkloadContext, WorkloadType,
};
use plansight::analysis::Severity;

#[test]
fn test_threshold_classification() {
    let workload = WorkloadContext::default();
    let row_counts = row_count_levels(&workload);

    assert_eq!(row_counts.classify(&row_counts.low), Severity::Low);
    assert_eq!(row_counts.classify(&row_counts.critical), Severity::Critical);
}

#[test]
fn test_configuration_builders() {
    let oltp_config = ConfigurationBuilder::high_performance_oltp();
    let analytics_config = ConfigurationBuilder::analytics_warehouse();
    let dev_config = ConfigurationBuilder::development_environment();

    // OLTP should be more sensitive (lower min severity)
    assert_eq!(oltp_config.global.min_severity, Severity::Low);
    assert_eq!(analytics_config.global.min_severity, Severity::Medium);
    assert_eq!(dev_config.global.min_severity, Severity::Low);

    // Different workload types
    assert_eq!(oltp_config.workload.workload_type, WorkloadType::OLTP);
    assert_eq!(analytics_config.workload.workload_type, WorkloadType::OLAP);
    assert_eq!(dev_config.workload.workload_type, WorkloadType::Mixed);
}

#[test]
fn default_settings_and_workload() {
    let g = GlobalSettings::default();
    assert_eq!(g.min_severity, Severity::Low);
    assert_eq!(g.max_findings_per_analyzer, 50);
    let w = WorkloadContext::default();
    assert_eq!(w.workload_type, WorkloadType::Mixed);
    assert_eq!(w.database_size, DatabaseSize::Medium);
    assert_eq!(w.performance_target, PerformanceTarget::Balanced);
    assert_eq!(w.postgres_version, "14.0");
}

#[test]
fn oltp_row_levels_are_stricter_than_olap() {
    let oltp = WorkloadContext {
        workload_type: WorkloadType::OLTP,
        database_size: DatabaseSize::Small,
        performance_target: PerformanceTarget::Latency,
        postgres_version: "15.0".to_string(),
    };
    let olap = WorkloadContext {
        workload_type: WorkloadType::OLAP,
        database_size: DatabaseSize::Large,
        performance_target: PerformanceTarget::Throughput,
        postgres_version: "15.0".to_string(),
    };
    assert!(row_count_levels(&oltp).high < row_count_levels(&olap).high);
}

#[test]
fn normalization_parameter_limits() {
    let mut w = WorkloadContext::default();
    assert_eq!(NormalizationConfig::for_workload(&w).max_parameters, 1500);
    w.workload_type = WorkloadType::OLTP;
    assert_eq!(NormalizationConfig::for_workload(&w).max_parameters, 1000);
    w.database_size = DatabaseSize::Small;
    assert_eq!(NormalizationConfig::for_workload(&w).max_parameters, 500);
    w.database_size = DatabaseSize::VeryLarge;
    let n = NormalizationConfig::for_workload(&w);
    assert_eq!(n.max_parameters, 5000);
    assert!(n.normalize_literals && n.enable_fingerprint_caching);
}

#[test]
fn regression_window_by_workload() {
    assert_eq!(regression_window(WorkloadType::OLTP), (20, 6));
    assert_eq!(regression_window(WorkloadType::OLAP), (50, 16));
    assert_eq!(regression_window(WorkloadType::Analytics), (50, 16));
    assert_eq!(regression_window(WorkloadType::Mixed), (30, 10));
}
