//! The consolidated configuration: global settings, the workload context
//! that thresholds are chosen from, threshold levels and the normalisation
//! settings.
use vstd::prelude::*;
use vstd::string::StringExecFns;
use super::Severity;

verus! {

/// Type of workload (affects performance expectations).
#[derive(Debug, Clone, Copy, PartialEq, Eq, Structural)]
pub enum WorkloadType {
    OLTP,
    OLAP,
    Analytics,
    Mixed,
}

/// Approximate database size category.
#[derive(Debug, Clone, Copy, PartialEq, Eq, Structural)]
pub enum DatabaseSize {
    Small,
    Medium,
    Large,
    VeryLarge,
}

/// Performance requirements.
#[derive(Debug, Clone, Copy, PartialEq, Eq, Structural)]
pub enum PerformanceTarget {
    Latency,
    Throughput,
    Balanced,
    Efficiency,
}

/// Global settings that affect all analyzers.
#[derive(Debug, Clone, Copy, PartialEq, Eq, Structural)]
pub struct GlobalSettings {
    /// Minimum severity level to report.
    pub min_severity: Severity,
    /// Maximum number of findings per analyzer.
    pub max_findings_per_analyzer: usize,
    /// Whether to include detailed evidence in findings.
    pub include_evidence: bool,
    /// Whether to generate performance suggestions.
    pub generate_suggestions: bool,
}

impl Default for GlobalSettings {
    fn default() -> (r: Self)
        ensures
            r == (GlobalSettings {
                min_severity: Severity::Low,
                max_findings_per_analyzer: 50,
                include_evidence: true,
                generate_suggestions: true,
            }),
    {
        GlobalSettings {
            min_severity: Severity::Low,
            max_findings_per_analyzer: 50,
            include_evidence: true,
            generate_suggestions: true,
        }
    }
}

/// Workload context for threshold selection.
#[derive(Debug)]
pub struct WorkloadContext {
    pub workload_type: WorkloadType,
    pub database_size: DatabaseSize,
    pub performance_target: PerformanceTarget,
    /// PostgreSQL version (affects available features).
    pub postgres_version: String,
}

impl Clone for WorkloadContext {
    fn clone(&self) -> (r: Self)
        ensures
            r.workload_type == self.workload_type,
            r.database_size == self.database_size,
            r.performance_target == self.performance_target,
            r.postgres_version@ == self.postgres_version@,
    {
        WorkloadContext {
            workload_type: self.workload_type,
            database_size: self.database_size,
            performance_target: self.performance_target,
            postgres_version: self.postgres_version.clone(),
        }
    }
}

impl Default for WorkloadContext {
    fn default() -> (r: Self)
        ensures
            r.workload_type == WorkloadType::Mixed,
            r.database_size == DatabaseSize::Medium,
            r.performance_target == PerformanceTarget::Balanced,
            r.postgres_version@ == "14.0"@,
    {
        WorkloadContext {
            workload_type: WorkloadType::Mixed,
            database_size: DatabaseSize::Medium,
            performance_target: PerformanceTarget::Balanced,
            postgres_version: String::from_str("14.0"),
        }
    }
}

/// Thresholds for the four severity levels.
#[derive(Debug, Clone, Copy, PartialEq, Eq)]
pub struct ThresholdLevels<T> {
    pub low: T,
    pub medium: T,
    pub high: T,
    pub critical: T,
}

/// The severity that `value` earns: the highest level whose threshold it
/// reaches, and low below every threshold.
pub open spec fn level_of(t: ThresholdLevels<u64>, value: u64) -> Severity {
    if value >= t.critical {
        Severity::Critical
    } else if value >= t.high {
        Severity::High
    } else if value >= t.medium {
        Severity::Medium
    } else {
        Severity::Low
    }
}

impl ThresholdLevels<u64> {
    pub fn classify(&self, value: &u64) -> (r: Severity)
        ensures
            r == level_of(*self, *value),
    {
        if *value >= self.critical {
            Severity::Critical
        } else if *value >= self.high {
            Severity::High
        } else if *value >= self.medium {
            Severity::Medium
        } else if *value >= self.low {
            Severity::Low
        } else {
            Severity::Low
        }
    }
}

/// With ordered levels, a larger value never earns a lower severity.
pub proof fn lemma_level_of_monotone(t: ThresholdLevels<u64>, a: u64, b: u64)
    requires
        t.critical >= t.high >= t.medium,
        a <= b,
    ensures
        level_of(t, a).spec_rank() <= level_of(t, b).spec_rank(),
{
}

/// Base row count of a workload type, for a medium-sized database.
pub open spec fn workload_row_base(w: WorkloadType) -> nat {
    match w {
        WorkloadType::OLTP => 10_000,
        WorkloadType::OLAP => 1_000_000,
        WorkloadType::Analytics => 500_000,
        WorkloadType::Mixed => 100_000,
    }
}

/// The base row count scaled by the database size: a tenth for small, ten
/// times for large, a hundred times for very large databases.
pub open spec fn row_base(w: WorkloadType, size: DatabaseSize) -> nat {
    let b = workload_row_base(w);
    match size {
        DatabaseSize::Small => b / 10,
        DatabaseSize::Medium => b,
        DatabaseSize::Large => b * 10,
        DatabaseSize::VeryLarge => b * 100,
    }
}

/// The data-point window of regression detection for a workload: (minimum
/// data points, change-point window size), the window being a third of the
/// minimum. OLTP detects fastest (20 points), OLAP and analytics ask for the
/// most (50), a mixed workload sits between (30).
pub fn regression_window(t: WorkloadType) -> (r: (usize, usize))
    ensures
        r == match t {
            WorkloadType::OLTP => (20usize, 6usize),
            WorkloadType::OLAP | WorkloadType::Analytics => (50usize, 16usize),
            WorkloadType::Mixed => (30usize, 10usize),
        },
        r.1 == r.0 / 3,
{
    let min_data_points: usize = match t {
        WorkloadType::OLTP => 20,
        WorkloadType::OLAP => 50,
        WorkloadType::Analytics => 50,
        WorkloadType::Mixed => 30,
    };
    (min_data_points, min_data_points / 3)
}

/// The row-count levels of a workload's thresholds: a tenth of the base row
/// count, the base, ten and a hundred times the base.
pub fn row_count_levels(workload: &WorkloadContext) -> (r: ThresholdLevels<u64>)
    ensures
        r.low == row_base(workload.workload_type, workload.database_size) / 10,
        r.medium == row_base(workload.workload_type, workload.database_size),
        r.high == row_base(workload.workload_type, workload.database_size) * 10,
        r.critical == row_base(workload.workload_type, workload.database_size) * 100,
{
    let b: u64 = match workload.workload_type {
        WorkloadType::OLTP => 10_000,
        WorkloadType::OLAP => 1_000_000,
        WorkloadType::Analytics => 500_000,
        WorkloadType::Mixed => 100_000,
    };
    let base: u64 = match workload.database_size {
        DatabaseSize::Small => b / 10,
        DatabaseSize::Medium => b,
        DatabaseSize::Large => b * 10,
        DatabaseSize::VeryLarge => b * 100,
    };
    ThresholdLevels { low: base / 10, medium: base, high: base * 10, critical: base * 100 }
}

/// Base cost of a workload type for a medium database and a balanced target,
/// in hundredths of a cost unit.
pub open spec fn workload_cost_base(w: WorkloadType) -> nat {
    match w {
        WorkloadType::OLTP => 100_000,
        WorkloadType::OLAP => 10_000_000,
        WorkloadType::Analytics => 5_000_000,
        WorkloadType::Mixed => 1_000_000,
    }
}

/// The base cost scaled by the database size (a tenth, one, ten or a hundred
/// times) and by the performance target (a tenth for latency, twice for
/// throughput, five times for efficiency).
pub open spec fn cost_base(w: WorkloadType, size: DatabaseSize, target: PerformanceTarget) -> nat {
    let sized: nat = match size {
        DatabaseSize::Small => workload_cost_base(w) / 10,
        DatabaseSize::Medium => workload_cost_base(w),
        DatabaseSize::Large => workload_cost_base(w) * 10,
        DatabaseSize::VeryLarge => workload_cost_base(w) * 100,
    };
    match target {
        PerformanceTarget::Latency => sized / 10,
        PerformanceTarget::Throughput => sized * 2,
        PerformanceTarget::Balanced => sized,
        PerformanceTarget::Efficiency => sized * 5,
    }
}

/// The cost levels of a workload's thresholds, in hundredths of a cost unit:
/// a tenth of the base cost, the base, ten and a hundred times the base.
pub fn cost_levels(workload: &WorkloadContext) -> (r: ThresholdLevels<u64>)
    ensures
        r.low == cost_base(workload.workload_type, workload.database_size, workload.performance_target) / 10,
        r.medium == cost_base(workload.workload_type, workload.database_size, workload.performance_target),
        r.high == cost_base(workload.workload_type, workload.database_size, workload.performance_target) * 10,
        r.critical == cost_base(workload.workload_type, workload.database_size, workload.performance_target)
            * 100,
{
    let b: u64 = match workload.workload_type {
        WorkloadType::OLTP => 100_000,
        WorkloadType::OLAP => 10_000_000,
        WorkloadType::Analytics => 5_000_000,
        WorkloadType::Mixed => 1_000_000,
    };
    let sized: u64 = match workload.database_size {
        DatabaseSize::Small => b / 10,
        DatabaseSize::Medium => b,
        DatabaseSize::Large => b * 10,
        DatabaseSize::VeryLarge => b * 100,
    };
    let base: u64 = match workload.performance_target {
        PerformanceTarget::Latency => sized / 10,
        PerformanceTarget::Throughput => sized * 2,
        PerformanceTarget::Balanced => sized,
        PerformanceTarget::Efficiency => sized * 5,
    };
    ThresholdLevels { low: base / 10, medium: base, high: base * 10, critical: base * 100 }
}

/// Configuration for query normalization.
#[derive(Debug, Clone, Copy, PartialEq, Eq, Structural)]
pub struct NormalizationConfig {
    pub normalize_literals: bool,
    pub normalize_arrays: bool,
    pub normalize_temporal: bool,
    /// Maximum number of parameters to generate.
    pub max_parameters: usize,
    pub preserve_structure: bool,
    pub enable_fingerprint_caching: bool,
}

/// The parameter budget for a database size and workload type.
pub open spec fn max_parameters_for(size: DatabaseSize, w: WorkloadType) -> usize {
    match size {
        DatabaseSize::Small => 500,
        DatabaseSize::Medium => if w == WorkloadType::OLTP {
            1000
        } else {
            1500
        },
        DatabaseSize::Large => if w == WorkloadType::OLTP {
            2000
        } else {
            3000
        },
        DatabaseSize::VeryLarge => 5000,
    }
}

impl NormalizationConfig {
    /// Normalisation settings for a workload: everything enabled, with a
    /// parameter budget chosen by database size and workload type.
    pub fn for_workload(workload: &WorkloadContext) -> (r: Self)
        ensures
            r == (NormalizationConfig {
                normalize_literals: true,
                normalize_arrays: true,
                normalize_temporal: true,
                max_parameters: max_parameters_for(workload.database_size, workload.workload_type),
                preserve_structure: true,
                enable_fingerprint_caching: true,
            }),
    {
        let max_parameters = match (workload.database_size, workload.workload_type) {
            (DatabaseSize::Small, _) => 500,
            (DatabaseSize::Medium, WorkloadType::OLTP) => 1000,
            (DatabaseSize::Medium, _) => 1500,
            (DatabaseSize::Large, WorkloadType::OLTP) => 2000,
            (DatabaseSize::Large, _) => 3000,
            (DatabaseSize::VeryLarge, _) => 5000,
        };
        NormalizationConfig {
            normalize_literals: true,
            normalize_arrays: true,
            normalize_temporal: true,
            max_parameters,
            preserve_structure: true,
            enable_fingerprint_caching: true,
        }
    }
}

/// The global settings and workload of a ready-made configuration.
#[derive(Debug, Clone)]
pub struct AnalysisProfile {
    pub global: GlobalSettings,
    pub workload: WorkloadContext,
}

/// Ready-made configurations for common scenarios.
#[derive(Debug, Clone, Copy)]
pub struct ConfigurationBuilder;

impl ConfigurationBuilder {
    /// High-performance OLTP: large database, latency target, every severity
    /// reported, up to 100 findings per analyzer.
    pub fn high_performance_oltp() -> (r: AnalysisProfile)
        ensures
            r.global == (GlobalSettings {
                min_severity: Severity::Low,
                max_findings_per_analyzer: 100,
                include_evidence: true,
                generate_suggestions: true,
            }),
            r.workload.workload_type == WorkloadType::OLTP,
            r.workload.database_size == DatabaseSize::Large,
            r.workload.performance_target == PerformanceTarget::Latency,
            r.workload.postgres_version@ == "15.0"@,
    {
        AnalysisProfile {
            global: GlobalSettings {
                min_severity: Severity::Low,
                max_findings_per_analyzer: 100,
                include_evidence: true,
                generate_suggestions: true,
            },
            workload: WorkloadContext {
                workload_type: WorkloadType::OLTP,
                database_size: DatabaseSize::Large,
                performance_target: PerformanceTarget::Latency,
                postgres_version: String::from_str("15.0"),
            },
        }
    }

    /// Large-scale analytics: very large OLAP database, throughput target,
    /// medium severity and above, up to 25 findings per analyzer.
    pub fn analytics_warehouse() -> (r: AnalysisProfile)
        ensures
            r.global == (GlobalSettings {
                min_severity: Severity::Medium,
                max_findings_per_analyzer: 25,
                include_evidence: true,
                generate_suggestions: true,
            }),
            r.workload.workload_type == WorkloadType::OLAP,
            r.workload.database_size == DatabaseSize::VeryLarge,
            r.workload.performance_target == PerformanceTarget::Throughput,
            r.workload.postgres_version@ == "15.0"@,
    {
        AnalysisProfile {
            global: GlobalSettings {
                min_severity: Severity::Medium,
                max_findings_per_analyzer: 25,
                include_evidence: true,
                generate_suggestions: true,
            },
            workload: WorkloadContext {
                workload_type: WorkloadType::OLAP,
                database_size: DatabaseSize::VeryLarge,
                performance_target: PerformanceTarget::Throughput,
                postgres_version: String::from_str("15.0"),
            },
        }
    }

    /// Development: small mixed database, balanced target, every severity
    /// reported, up to 200 findings per analyzer.
    pub fn development_environment() -> (r: AnalysisProfile)
        ensures
            r.global == (GlobalSettings {
                min_severity: Severity::Low,
                max_findings_per_analyzer: 200,
                include_evidence: true,
                generate_suggestions: true,
            }),
            r.workload.workload_type == WorkloadType::Mixed,
            r.workload.database_size == DatabaseSize::Small,
            r.workload.performance_target == PerformanceTarget::Balanced,
            r.workload.postgres_version@ == "14.0"@,
    {
        AnalysisProfile {
            global: GlobalSettings {
                min_severity: Severity::Low,
                max_findings_per_analyzer: 200,
                include_evidence: true,
                generate_suggestions: true,
            },
            workload: WorkloadContext {
                workload_type: WorkloadType::Mixed,
                database_size: DatabaseSize::Small,
                performance_target: PerformanceTarget::Balanced,
                postgres_version: String::from_str("14.0"),
            },
        }
    }
}

/// The level a value earns, stated from the thresholds: critical from the
/// critical threshold, high from the high one below that, medium from the
/// medium one below that, and low under the medium threshold.
pub proof fn lemma_level_of_thresholds(t: ThresholdLevels<u64>, v: u64)
    ensures
        level_of(t, v) == Severity::Critical <==> v >= t.critical,
        level_of(t, v) == Severity::High <==> t.high <= v < t.critical,
        level_of(t, v) == Severity::Medium <==> t.medium <= v && v < t.high && v < t.critical,
        level_of(t, v) == Severity::Low <==> v < t.medium && v < t.high && v < t.critical,
{
}

} // verus!
