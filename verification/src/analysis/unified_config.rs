//! Row-count and cost thresholds that scale with the kind of operation, the
//! size of the database and the performance target, so that every analyser
//! assigns severities the same way. Costs are in hundredths of a cost unit.
use vstd::prelude::*;
use super::Severity;

verus! {

/// Operation types that have different natural scales.
#[derive(Debug, Clone, Copy, PartialEq, Eq, Structural, Hash)]
pub enum OperationType {
    Scan,
    Join,
    Sort,
    Hash,
    Aggregate,
    Index,
    Memory,
}

/// Database size categories for context-aware thresholds.
#[derive(Debug, Clone, Copy, PartialEq, Eq, Structural)]
pub enum DatabaseSize {
    Small,
    Medium,
    Large,
    VeryLarge,
}

/// Workload type affects what is considered normal.
#[derive(Debug, Clone, Copy, PartialEq, Eq, Structural)]
pub enum WorkloadType {
    OLTP,
    OLAP,
    Mixed,
    Reporting,
}

/// Performance targets affect severity thresholds.
#[derive(Debug, Clone, Copy, PartialEq, Eq, Structural)]
pub enum PerformanceTarget {
    Interactive,
    Fast,
    Batch,
    Background,
}

/// Row count thresholds for the four severity levels.
#[derive(Debug, Clone, Copy, PartialEq, Eq, Structural)]
pub struct RowCountThresholds {
    pub critical: u64,
    pub high: u64,
    pub medium: u64,
    pub low: u64,
}

/// Base thresholds (critical, high, medium, low) of an operation type, for a
/// medium-sized database.
pub open spec fn base_row_thresholds(op: OperationType) -> (u64, u64, u64, u64) {
    match op {
        OperationType::Scan => (10_000_000, 1_000_000, 100_000, 10_000),
        OperationType::Join => (5_000_000, 500_000, 50_000, 5_000),
        OperationType::Sort | OperationType::Hash => (2_000_000, 200_000, 20_000, 2_000),
        OperationType::Aggregate => (10_000_000, 1_000_000, 100_000, 10_000),
        OperationType::Index => (1_000_000, 100_000, 10_000, 1_000),
        OperationType::Memory => (5_000_000, 500_000, 50_000, 5_000),
    }
}

/// A base threshold scaled to the database size: a tenth for small, five
/// times for large, ten times for very large databases.
pub open spec fn scale_for_size(base: u64, size: DatabaseSize) -> u64 {
    match size {
        DatabaseSize::Small => (base / 10) as u64,
        DatabaseSize::Medium => base,
        DatabaseSize::Large => (base * 5) as u64,
        DatabaseSize::VeryLarge => (base * 10) as u64,
    }
}

/// The severity that `row_count` earns against thresholds `t`.
pub open spec fn row_severity(t: RowCountThresholds, row_count: u64) -> Severity {
    if row_count >= t.critical {
        Severity::Critical
    } else if row_count >= t.high {
        Severity::High
    } else if row_count >= t.medium {
        Severity::Medium
    } else {
        Severity::Low
    }
}

fn scale(base: u64, size: DatabaseSize) -> (r: u64)
    requires
        base <= 10_000_000,
    ensures
        r == scale_for_size(base, size),
{
    match size {
        DatabaseSize::Small => base / 10,
        DatabaseSize::Medium => base,
        DatabaseSize::Large => base * 5,
        DatabaseSize::VeryLarge => base * 10,
    }
}

impl RowCountThresholds {
    /// Thresholds of an operation type scaled to the database size.
    pub fn for_operation(op_type: OperationType, db_size: DatabaseSize) -> (r: Self)
        ensures
            r.critical == scale_for_size(base_row_thresholds(op_type).0, db_size),
            r.high == scale_for_size(base_row_thresholds(op_type).1, db_size),
            r.medium == scale_for_size(base_row_thresholds(op_type).2, db_size),
            r.low == scale_for_size(base_row_thresholds(op_type).3, db_size),
    {
        let (c, h, m, l): (u64, u64, u64, u64) = match op_type {
            OperationType::Scan => (10_000_000, 1_000_000, 100_000, 10_000),
            OperationType::Join => (5_000_000, 500_000, 50_000, 5_000),
            OperationType::Sort | OperationType::Hash => (2_000_000, 200_000, 20_000, 2_000),
            OperationType::Aggregate => (10_000_000, 1_000_000, 100_000, 10_000),
            OperationType::Index => (1_000_000, 100_000, 10_000, 1_000),
            OperationType::Memory => (5_000_000, 500_000, 50_000, 5_000),
        };
        RowCountThresholds {
            critical: scale(c, db_size),
            high: scale(h, db_size),
            medium: scale(m, db_size),
            low: scale(l, db_size),
        }
    }

    /// Severity of `row_count` rows: the highest level whose threshold it
    /// reaches, and low below every threshold.
    pub fn classify_severity(&self, row_count: u64) -> (r: Severity)
        ensures
            r == row_severity(*self, row_count),
    {
        if row_count >= self.critical {
            Severity::Critical
        } else if row_count >= self.high {
            Severity::High
        } else if row_count >= self.medium {
            Severity::Medium
        } else if row_count >= self.low {
            Severity::Low
        } else {
            Severity::Low
        }
    }
}

/// The thresholds of every operation type and database size are ordered
/// critical >= high >= medium >= low.
pub proof fn lemma_row_thresholds_ordered(op: OperationType, size: DatabaseSize)
    ensures
        ({
            let b = base_row_thresholds(op);
            scale_for_size(b.0, size) >= scale_for_size(b.1, size) >= scale_for_size(b.2, size)
                >= scale_for_size(b.3, size)
        }),
{
}

/// With ordered thresholds, more rows never earn a lower severity.
pub proof fn lemma_row_severity_monotone(t: RowCountThresholds, a: u64, b: u64)
    requires
        t.critical >= t.high >= t.medium,
        a <= b,
    ensures
        row_severity(t, a).spec_rank() <= row_severity(t, b).spec_rank(),
{
}

/// Cost thresholds for the four severity levels, in hundredths of a cost
/// unit.
#[derive(Debug, Clone, Copy, PartialEq, Eq, Structural)]
pub struct CostThresholds {
    pub extreme: u64,
    pub high: u64,
    pub medium: u64,
    pub low: u64,
}

/// Base cost thresholds (extreme, high, medium, low) of an operation type,
/// in whole cost units, for the fast target.
pub open spec fn base_cost_thresholds(op: OperationType) -> (u64, u64, u64, u64) {
    match op {
        OperationType::Scan => (1_000_000, 100_000, 10_000, 1_000),
        OperationType::Join => (500_000, 50_000, 5_000, 500),
        OperationType::Sort | OperationType::Hash => (200_000, 20_000, 2_000, 200),
        OperationType::Aggregate => (1_000_000, 100_000, 10_000, 1_000),
        OperationType::Index => (50_000, 5_000, 500, 50),
        OperationType::Memory => (200_000, 20_000, 2_000, 200),
    }
}

/// A base cost in whole units scaled to the target, in hundredths: a tenth
/// for interactive work, as is for fast, ten times for batch and a hundred
/// times for background work.
pub open spec fn scale_for_target(base: u64, target: PerformanceTarget) -> int {
    match target {
        PerformanceTarget::Interactive => base * 10,
        PerformanceTarget::Fast => base * 100,
        PerformanceTarget::Batch => base * 1000,
        PerformanceTarget::Background => base * 10000,
    }
}

/// The severity that a cost earns against thresholds `t`.
pub open spec fn cost_severity(t: CostThresholds, cost: u64) -> Severity {
    if cost >= t.extreme {
        Severity::Critical
    } else if cost >= t.high {
        Severity::High
    } else if cost >= t.medium {
        Severity::Medium
    } else {
        Severity::Low
    }
}

fn scale_cost(base: u64, target: PerformanceTarget) -> (r: u64)
    requires
        base <= 1_000_000,
    ensures
        r == scale_for_target(base, target),
{
    match target {
        PerformanceTarget::Interactive => base * 10,
        PerformanceTarget::Fast => base * 100,
        PerformanceTarget::Batch => base * 1000,
        PerformanceTarget::Background => base * 10000,
    }
}

impl CostThresholds {
    /// Cost thresholds of an operation type scaled to the performance target.
    pub fn for_operation(op_type: OperationType, target: PerformanceTarget) -> (r: Self)
        ensures
            r.extreme == scale_for_target(base_cost_thresholds(op_type).0, target),
            r.high == scale_for_target(base_cost_thresholds(op_type).1, target),
            r.medium == scale_for_target(base_cost_thresholds(op_type).2, target),
            r.low == scale_for_target(base_cost_thresholds(op_type).3, target),
    {
        let (e, h, m, l): (u64, u64, u64, u64) = match op_type {
            OperationType::Scan => (1_000_000, 100_000, 10_000, 1_000),
            OperationType::Join => (500_000, 50_000, 5_000, 500),
            OperationType::Sort | OperationType::Hash => (200_000, 20_000, 2_000, 200),
            OperationType::Aggregate => (1_000_000, 100_000, 10_000, 1_000),
            OperationType::Index => (50_000, 5_000, 500, 50),
            OperationType::Memory => (200_000, 20_000, 2_000, 200),
        };
        CostThresholds {
            extreme: scale_cost(e, target),
            high: scale_cost(h, target),
            medium: scale_cost(m, target),
            low: scale_cost(l, target),
        }
    }

    /// Severity of a cost: the highest level whose threshold it reaches, and
    /// low below every threshold.
    pub fn classify_severity(&self, cost: u64) -> (r: Severity)
        ensures
            r == cost_severity(*self, cost),
    {
        if cost >= self.extreme {
            Severity::Critical
        } else if cost >= self.high {
            Severity::High
        } else if cost >= self.medium {
            Severity::Medium
        } else if cost >= self.low {
            Severity::Low
        } else {
            Severity::Low
        }
    }
}

/// With ordered thresholds, a higher cost never earns a lower severity.
pub proof fn lemma_cost_severity_monotone(t: CostThresholds, a: u64, b: u64)
    requires
        t.extreme >= t.high >= t.medium,
        a <= b,
    ensures
        cost_severity(t, a).spec_rank() <= cost_severity(t, b).spec_rank(),
{
}

/// The cost thresholds of every operation type and target are ordered
/// extreme >= high >= medium >= low.
pub proof fn lemma_cost_thresholds_ordered(op: OperationType, target: PerformanceTarget)
    ensures
        ({
            let b = base_cost_thresholds(op);
            scale_for_target(b.0, target) >= scale_for_target(b.1, target) >= scale_for_target(
                b.2,
                target,
            ) >= scale_for_target(b.3, target)
        }),
{
}

/// Unified analysis context for all analyzers.
#[derive(Debug, Clone, Copy, PartialEq, Eq, Structural)]
pub struct UnifiedAnalysisContext {
    pub database_size: DatabaseSize,
    pub workload_type: WorkloadType,
    pub performance_target: PerformanceTarget,
}

/// The default context: a medium database, a mixed workload, the fast
/// target.
pub open spec fn default_context() -> UnifiedAnalysisContext {
    UnifiedAnalysisContext {
        database_size: DatabaseSize::Medium,
        workload_type: WorkloadType::Mixed,
        performance_target: PerformanceTarget::Fast,
    }
}

impl Default for UnifiedAnalysisContext {
    fn default() -> (r: Self)
        ensures
            r == default_context(),
    {
        UnifiedAnalysisContext {
            database_size: DatabaseSize::Medium,
            workload_type: WorkloadType::Mixed,
            performance_target: PerformanceTarget::Fast,
        }
    }
}

/// The row and cost thresholds of one operation type in one context.
#[derive(Debug, Clone, Copy, PartialEq, Eq, Structural)]
pub struct UnifiedThresholds {
    pub row_count: RowCountThresholds,
    pub cost: CostThresholds,
}

/// The thresholds of operation type `op` in context `c`.
pub open spec fn unified_thresholds(op: OperationType, c: UnifiedAnalysisContext) -> UnifiedThresholds {
    UnifiedThresholds {
        row_count: RowCountThresholds {
            critical: scale_for_size(base_row_thresholds(op).0, c.database_size),
            high: scale_for_size(base_row_thresholds(op).1, c.database_size),
            medium: scale_for_size(base_row_thresholds(op).2, c.database_size),
            low: scale_for_size(base_row_thresholds(op).3, c.database_size),
        },
        cost: CostThresholds {
            extreme: scale_for_target(base_cost_thresholds(op).0, c.performance_target) as u64,
            high: scale_for_target(base_cost_thresholds(op).1, c.performance_target) as u64,
            medium: scale_for_target(base_cost_thresholds(op).2, c.performance_target) as u64,
            low: scale_for_target(base_cost_thresholds(op).3, c.performance_target) as u64,
        },
    }
}

impl UnifiedThresholds {
    /// The row thresholds scaled to the database size and the cost
    /// thresholds scaled to the performance target.
    pub fn for_operation(op_type: OperationType, context: &UnifiedAnalysisContext) -> (r: Self)
        ensures
            r == unified_thresholds(op_type, *context),
    {
        UnifiedThresholds {
            row_count: RowCountThresholds::for_operation(op_type, context.database_size),
            cost: CostThresholds::for_operation(op_type, context.performance_target),
        }
    }
}

} // verus!
