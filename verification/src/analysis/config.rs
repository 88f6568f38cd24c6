//! Global defaults and row thresholds of the analysis configuration.
use vstd::prelude::*;
use super::Severity;

verus! {

/// Global configuration settings.
#[derive(Debug, Clone, Copy, PartialEq, Eq, Structural)]
pub struct GlobalConfig {
    /// Minimum severity level to report findings.
    pub min_severity: Severity,
    /// Whether to include suggestions in findings.
    pub include_suggestions: bool,
    /// Whether to include detailed evidence in findings.
    pub include_evidence: bool,
    /// Maximum number of findings per analyzer (`None`: no limit).
    pub max_findings_per_analyzer: Option<usize>,
    /// Default work_mem size in KB (used when not provided in context).
    pub default_work_mem_kb: usize,
    /// Default max parallel workers (used when not provided in context).
    pub default_max_parallel_workers: usize,
}

impl Default for GlobalConfig {
    fn default() -> (r: Self)
        ensures
            r == (GlobalConfig {
                min_severity: Severity::Low,
                include_suggestions: true,
                include_evidence: true,
                max_findings_per_analyzer: Some(50),
                default_work_mem_kb: 4096,
                default_max_parallel_workers: 2,
            }),
    {
        GlobalConfig {
            min_severity: Severity::Low,
            include_suggestions: true,
            include_evidence: true,
            max_findings_per_analyzer: Some(50),
            default_work_mem_kb: 4096,
            default_max_parallel_workers: 2,
        }
    }
}

/// Row count thresholds of the row-estimation analysis.
#[derive(Debug, Clone, Copy, PartialEq, Eq, Structural)]
pub struct RowThresholds {
    pub critical_row_count: u64,
    pub high_row_count: u64,
    pub medium_row_count: u64,
}

impl Default for RowThresholds {
    fn default() -> (r: Self)
        ensures
            r == (RowThresholds {
                critical_row_count: 1_000_000,
                high_row_count: 100_000,
                medium_row_count: 50_000,
            }),
    {
        RowThresholds { critical_row_count: 1_000_000, high_row_count: 100_000, medium_row_count: 50_000 }
    }
}

/// Ready-made configurations and their serialised forms.
pub struct ConfigUtils;

} // verus!
