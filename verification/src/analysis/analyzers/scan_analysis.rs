//! The scan rules. A sequential scan is judged by its measured row count (or
//! its estimate when none was measured) against the scan row thresholds, and
//! reported from medium severity up; an index scan by the worse of its cost
//! and row severities against the index thresholds, and a bitmap scan by its
//! rows against them, both reported when high or critical. The sequential
//! and index rules apply only while their finding kind (`LargeSequentialScan`,
//! `InefficiientScan`) is enabled. Costs are in hundredths of a cost unit.
use vstd::prelude::*;
use crate::analysis::{FindingType, Severity};
use crate::analysis::traversal::{PlanTraversal, Visit, entry_visits, plan_preorder};
use crate::analysis::analyzers::join_analysis::{serious, worse, worse_of};
use crate::analysis::unified_config::{
    OperationType, RowCountThresholds, UnifiedAnalysisContext, UnifiedThresholds, cost_severity,
    default_context, row_severity, unified_thresholds,
};
use crate::plan::{NodeKind, ParsedPlan, PlanNode};

verus! {

/// The row count a scan is judged by: the measured rows when present,
/// otherwise the planner's estimate.
pub open spec fn scan_rows(estimated_rows: u64, actual_rows: Option<u64>) -> u64 {
    match actual_rows {
        Some(a) => a,
        None => estimated_rows,
    }
}

/// The outcome of the sequential-scan rule for one node.
#[derive(Debug, Clone, Copy, PartialEq, Eq)]
pub struct SeqScanVerdict {
    /// Rows the scan is judged by.
    pub row_count: u64,
    pub severity: Severity,
    /// Whether a finding is raised (medium severity and above).
    pub reported: bool,
}

/// Judge one sequential scan against the scan row thresholds.
pub fn seq_scan_verdict(
    thresholds: &RowCountThresholds,
    estimated_rows: u64,
    actual_rows: Option<u64>,
) -> (r: SeqScanVerdict)
    ensures
        r.row_count == scan_rows(estimated_rows, actual_rows),
        r.severity == row_severity(*thresholds, r.row_count),
        r.reported == (r.severity != Severity::Low),
{
    let row_count = match actual_rows {
        Some(a) => a,
        None => estimated_rows,
    };
    let severity = thresholds.classify_severity(row_count);
    let reported = match severity {
        Severity::Low => false,
        _ => true,
    };
    SeqScanVerdict { row_count, severity, reported }
}

/// The inefficient-index-scan rule: the worse of the scan's cost and row
/// severities against the index thresholds, when high or critical.
pub open spec fn index_scan_severity(t: UnifiedThresholds, rows: u64, cost: u64) -> Option<Severity> {
    serious(worse(cost_severity(t.cost, cost), row_severity(t.row_count, rows)))
}

/// The large-bitmap-scan rule: the row severity against the bitmap
/// thresholds, when high or critical.
pub open spec fn bitmap_scan_severity(t: UnifiedThresholds, rows: u64) -> Option<Severity> {
    serious(row_severity(t.row_count, rows))
}

/// Whether a node kind is an index scan.
pub open spec fn is_index_scan(k: NodeKind) -> bool {
    k == NodeKind::IndexScan || k == NodeKind::IndexOnlyScan
}

/// Whether a node kind is a bitmap scan.
pub open spec fn is_bitmap_scan(k: NodeKind) -> bool {
    k == NodeKind::BitmapHeapScan || k == NodeKind::BitmapIndexScan
}

/// What the scan rules make of one node.
#[derive(Debug, Clone, Copy, PartialEq, Eq)]
pub struct ScanVerdict {
    /// The sequential-scan rule, for a sequential scan.
    pub seq_scan: Option<SeqScanVerdict>,
    /// Severity of an inefficient index scan, when reported.
    pub inefficient_index_scan: Option<Severity>,
    /// Severity of a large bitmap scan, when reported.
    pub large_bitmap_scan: Option<Severity>,
}

/// Counts over the scans of a plan.
#[derive(Debug, Clone, Copy, PartialEq, Eq)]
pub struct ScanTally {
    /// Scan nodes of any kind.
    pub nodes_analyzed: usize,
    pub sequential_scans: usize,
    pub index_scans: usize,
    pub bitmap_scans: usize,
    /// Sequential scans reported (medium severity and up).
    pub large_scans: usize,
    /// Index scans reported as inefficient.
    pub inefficient_scans: usize,
    /// Largest row count a sequential scan was judged by.
    pub max_scan_rows: u64,
}

/// The scan counts of some visits: (scans, sequential, index, bitmap, large
/// sequential, inefficient index, largest sequential row count).
///
/// A sequential scan is counted only while `seq_on` (its finding kind is
/// enabled), an index scan only while `index_on`; a disabled kind leaves
/// every count but the scan count unchanged.
pub open spec fn scan_tally(
    seq: UnifiedThresholds,
    index: UnifiedThresholds,
    seq_on: bool,
    index_on: bool,
    s: Seq<Visit>,
) -> (nat, nat, nat, nat, nat, nat, u64)
    decreases s.len(),
{
    if s.len() == 0 {
        (0, 0, 0, 0, 0, 0, 0)
    } else {
        let p = scan_tally(seq, index, seq_on, index_on, s.drop_last());
        let n = s.last().0;
        let counted = if n.kind.spec_is_scan() {
            1nat
        } else {
            0nat
        };
        if n.kind == NodeKind::SeqScan && seq_on {
            let rows = scan_rows(n.estimated_rows, n.actual_rows);
            (
                p.0 + counted,
                p.1 + 1,
                p.2,
                p.3,
                p.4 + if row_severity(seq.row_count, rows) != Severity::Low {
                    1nat
                } else {
                    0nat
                },
                p.5,
                if rows > p.6 {
                    rows
                } else {
                    p.6
                },
            )
        } else if is_index_scan(n.kind) && index_on {
            (p.0 + counted, p.1, p.2 + 1, p.3, p.4, p.5 + if index_scan_severity(
                index,
                n.estimated_rows,
                n.total_cost,
            ) is Some {
                1nat
            } else {
                0nat
            }, p.6)
        } else if is_bitmap_scan(n.kind) {
            (p.0 + counted, p.1, p.2, p.3 + 1, p.4, p.5, p.6)
        } else {
            (p.0 + counted, p.1, p.2, p.3, p.4, p.5, p.6)
        }
    }
}

proof fn lemma_scan_tally_bounded(
    seq: UnifiedThresholds,
    index: UnifiedThresholds,
    seq_on: bool,
    index_on: bool,
    s: Seq<Visit>,
)
    ensures
        scan_tally(seq, index, seq_on, index_on, s).0 <= s.len(),
        scan_tally(seq, index, seq_on, index_on, s).1 + scan_tally(seq, index, seq_on, index_on, s).2
            + scan_tally(seq, index, seq_on, index_on, s).3 <= scan_tally(seq, index, seq_on, index_on, s).0,
        scan_tally(seq, index, seq_on, index_on, s).4 <= scan_tally(seq, index, seq_on, index_on, s).1,
        scan_tally(seq, index, seq_on, index_on, s).5 <= scan_tally(seq, index, seq_on, index_on, s).2,
    decreases s.len(),
{
    if s.len() > 0 {
        lemma_scan_tally_bounded(seq, index, seq_on, index_on, s.drop_last());
    }
}

/// With `LargeSequentialScan` disabled no sequential scan is counted, reported
/// or measured; with `InefficiientScan` disabled no index scan is counted or
/// reported. The scans themselves are still counted.
pub proof fn lemma_disabled_kinds_leave_counts(
    seq: UnifiedThresholds,
    index: UnifiedThresholds,
    seq_on: bool,
    index_on: bool,
    s: Seq<Visit>,
)
    ensures
        !seq_on ==> scan_tally(seq, index, seq_on, index_on, s).1 == 0 && scan_tally(
            seq,
            index,
            seq_on,
            index_on,
            s,
        ).4 == 0 && scan_tally(seq, index, seq_on, index_on, s).6 == 0,
        !index_on ==> scan_tally(seq, index, seq_on, index_on, s).2 == 0 && scan_tally(
            seq,
            index,
            seq_on,
            index_on,
            s,
        ).5 == 0,
        scan_tally(seq, index, seq_on, index_on, s).0 == scan_tally(seq, index, true, true, s).0,
    decreases s.len(),
{
    if s.len() > 0 {
        lemma_disabled_kinds_leave_counts(seq, index, seq_on, index_on, s.drop_last());
    }
}

/// Whether `LargeSequentialScan` is among `enabled`.
fn lists_large_sequential_scan(enabled: &[FindingType]) -> (r: bool)
    ensures
        r == enabled@.contains(FindingType::LargeSequentialScan),
{
    let mut i: usize = 0;
    while i < enabled.len()
        invariant
            i <= enabled@.len(),
            forall|j: int| 0 <= j < i ==> enabled@[j] != FindingType::LargeSequentialScan,
        decreases enabled@.len() - i,
    {
        match &enabled[i] {
            FindingType::LargeSequentialScan => {
                assert(enabled@[i as int] == FindingType::LargeSequentialScan);
                return true;
            },
            _ => {},
        }
        i = i + 1;
    }
    false
}

/// Whether `InefficiientScan` is among `enabled`.
fn lists_inefficient_scan(enabled: &[FindingType]) -> (r: bool)
    ensures
        r == enabled@.contains(FindingType::InefficiientScan),
{
    let mut i: usize = 0;
    while i < enabled.len()
        invariant
            i <= enabled@.len(),
            forall|j: int| 0 <= j < i ==> enabled@[j] != FindingType::InefficiientScan,
        decreases enabled@.len() - i,
    {
        match &enabled[i] {
            FindingType::InefficiientScan => {
                assert(enabled@[i as int] == FindingType::InefficiientScan);
                return true;
            },
            _ => {},
        }
        i = i + 1;
    }
    false
}

/// Applies the scan rules: sequential scans against the scan thresholds,
/// index and bitmap scans against the index thresholds.
#[derive(Debug, Clone, Copy)]
pub struct ScanAnalyzer {
    seq: UnifiedThresholds,
    index: UnifiedThresholds,
    bitmap: UnifiedThresholds,
    /// `LargeSequentialScan` is enabled.
    seq_on: bool,
    /// `InefficiientScan` is enabled.
    index_on: bool,
}

impl ScanAnalyzer {
    pub closed spec fn seq_thresholds(self) -> UnifiedThresholds {
        self.seq
    }

    pub closed spec fn index_thresholds(self) -> UnifiedThresholds {
        self.index
    }

    pub closed spec fn bitmap_thresholds(self) -> UnifiedThresholds {
        self.bitmap
    }

    /// Whether sequential scans are judged (`LargeSequentialScan` enabled).
    pub closed spec fn judges_sequential_scans(self) -> bool {
        self.seq_on
    }

    /// Whether index scans are judged (`InefficiientScan` enabled).
    pub closed spec fn judges_index_scans(self) -> bool {
        self.index_on
    }

    /// The analyser for a context with the given enabled finding kinds:
    /// scan thresholds for sequential scans, index thresholds for index and
    /// bitmap scans; sequential scans are judged only when `enabled_findings`
    /// lists `LargeSequentialScan`, index scans only when it lists
    /// `InefficiientScan`.
    pub fn with_config(context: &UnifiedAnalysisContext, enabled_findings: &[FindingType]) -> (r: Self)
        ensures
            r.seq_thresholds() == unified_thresholds(OperationType::Scan, *context),
            r.index_thresholds() == unified_thresholds(OperationType::Index, *context),
            r.bitmap_thresholds() == unified_thresholds(OperationType::Index, *context),
            r.judges_sequential_scans() == enabled_findings@.contains(FindingType::LargeSequentialScan),
            r.judges_index_scans() == enabled_findings@.contains(FindingType::InefficiientScan),
    {
        ScanAnalyzer {
            seq: UnifiedThresholds::for_operation(OperationType::Scan, context),
            index: UnifiedThresholds::for_operation(OperationType::Index, context),
            bitmap: UnifiedThresholds::for_operation(OperationType::Index, context),
            seq_on: lists_large_sequential_scan(enabled_findings),
            index_on: lists_inefficient_scan(enabled_findings),
        }
    }

    /// The analyser for a context, every scan finding kind enabled: scan
    /// thresholds for sequential scans, index thresholds for index and
    /// bitmap scans.
    pub fn for_context(context: &UnifiedAnalysisContext) -> (r: Self)
        ensures
            r.seq_thresholds() == unified_thresholds(OperationType::Scan, *context),
            r.index_thresholds() == unified_thresholds(OperationType::Index, *context),
            r.bitmap_thresholds() == unified_thresholds(OperationType::Index, *context),
            r.judges_sequential_scans(),
            r.judges_index_scans(),
    {
        ScanAnalyzer {
            seq: UnifiedThresholds::for_operation(OperationType::Scan, context),
            index: UnifiedThresholds::for_operation(OperationType::Index, context),
            bitmap: UnifiedThresholds::for_operation(OperationType::Index, context),
            seq_on: true,
            index_on: true,
        }
    }

    /// The analyser for the default context (medium database, fast target).
    pub fn new() -> (r: Self)
        ensures
            r.seq_thresholds() == unified_thresholds(OperationType::Scan, default_context()),
            r.index_thresholds() == unified_thresholds(OperationType::Index, default_context()),
            r.bitmap_thresholds() == unified_thresholds(OperationType::Index, default_context()),
            r.judges_sequential_scans(),
            r.judges_index_scans(),
    {
        let context = UnifiedAnalysisContext::default();
        Self::for_context(&context)
    }

    /// Judge one sequential scan.
    pub fn judge(&self, estimated_rows: u64, actual_rows: Option<u64>) -> (r: SeqScanVerdict)
        ensures
            r.row_count == scan_rows(estimated_rows, actual_rows),
            r.severity == row_severity(self.seq_thresholds().row_count, r.row_count),
            r.reported == (r.severity != Severity::Low),
    {
        seq_scan_verdict(&self.seq.row_count, estimated_rows, actual_rows)
    }

    /// The rule for the node's scan kind; none for a kind that is disabled.
    pub fn assess_node(&self, node: &PlanNode) -> (r: ScanVerdict)
        ensures
            r.seq_scan == if node.kind == NodeKind::SeqScan && self.judges_sequential_scans() {
                Some(
                    SeqScanVerdict {
                        row_count: scan_rows(node.estimated_rows, node.actual_rows),
                        severity: row_severity(
                            self.seq_thresholds().row_count,
                            scan_rows(node.estimated_rows, node.actual_rows),
                        ),
                        reported: row_severity(
                            self.seq_thresholds().row_count,
                            scan_rows(node.estimated_rows, node.actual_rows),
                        ) != Severity::Low,
                    },
                )
            } else {
                None
            },
            r.inefficient_index_scan == if is_index_scan(node.kind) && self.judges_index_scans() {
                index_scan_severity(self.index_thresholds(), node.estimated_rows, node.total_cost)
            } else {
                None
            },
            r.large_bitmap_scan == if is_bitmap_scan(node.kind) {
                bitmap_scan_severity(self.bitmap_thresholds(), node.estimated_rows)
            } else {
                None
            },
    {
        let mut v = ScanVerdict { seq_scan: None, inefficient_index_scan: None, large_bitmap_scan: None };
        match node.kind {
            NodeKind::SeqScan => {
                if self.seq_on {
                    v.seq_scan = Some(self.judge(node.estimated_rows, node.actual_rows));
                }
            },
            NodeKind::IndexScan | NodeKind::IndexOnlyScan => {
                if !self.index_on {
                    return v;
                }
                let s = worse_of(
                    self.index.cost.classify_severity(node.total_cost),
                    self.index.row_count.classify_severity(node.estimated_rows),
                );
                v.inefficient_index_scan = match s {
                    Severity::High | Severity::Critical => Some(s),
                    _ => None,
                };
            },
            NodeKind::BitmapHeapScan | NodeKind::BitmapIndexScan => {
                let s = self.bitmap.row_count.classify_severity(node.estimated_rows);
                v.large_bitmap_scan = match s {
                    Severity::High | Severity::Critical => Some(s),
                    _ => None,
                };
            },
            _ => {},
        }
        v
    }

    /// Tally the scans of `plan`.
    pub fn tally(&self, plan: &ParsedPlan) -> (r: ScanTally)
        ensures
            (
                r.nodes_analyzed as nat,
                r.sequential_scans as nat,
                r.index_scans as nat,
                r.bitmap_scans as nat,
                r.large_scans as nat,
                r.inefficient_scans as nat,
                r.max_scan_rows,
            ) == scan_tally(
                self.seq_thresholds(),
                self.index_thresholds(),
                self.judges_sequential_scans(),
                self.judges_index_scans(),
                plan_preorder(*plan),
            ),
    {
        let visits = PlanTraversal::depth_first_visits(plan);
        let ghost pre = plan_preorder(*plan);
        let mut r = ScanTally {
            nodes_analyzed: 0,
            sequential_scans: 0,
            index_scans: 0,
            bitmap_scans: 0,
            large_scans: 0,
            inefficient_scans: 0,
            max_scan_rows: 0,
        };
        let mut i: usize = 0;
        while i < visits.len()
            invariant
                i <= visits@.len(),
                entry_visits(visits@) == pre,
                (
                    r.nodes_analyzed as nat,
                    r.sequential_scans as nat,
                    r.index_scans as nat,
                    r.bitmap_scans as nat,
                    r.large_scans as nat,
                    r.inefficient_scans as nat,
                    r.max_scan_rows,
                ) == scan_tally(
                    self.seq_thresholds(),
                    self.index_thresholds(),
                    self.judges_sequential_scans(),
                    self.judges_index_scans(),
                    pre.take(i as int),
                ),
            decreases visits@.len() - i,
        {
            let ghost s = pre.take(i as int + 1);
            assert(s.drop_last() =~= pre.take(i as int));
            assert(s.last() == pre[i as int]);
            proof {
                lemma_scan_tally_bounded(
                    self.seq_thresholds(),
                    self.index_thresholds(),
                    self.judges_sequential_scans(),
                    self.judges_index_scans(),
                    pre.take(i as int),
                );
            }
            let node = visits[i].0;
            assert(pre[i as int].0 == *node);
            if node.kind.is_scan() {
                r.nodes_analyzed = r.nodes_analyzed + 1;
            }
            let v = self.assess_node(node);
            match node.kind {
                NodeKind::SeqScan => {
                    if !self.seq_on {
                        i = i + 1;
                        continue;
                    }
                    r.sequential_scans = r.sequential_scans + 1;
                    let sv = self.judge(node.estimated_rows, node.actual_rows);
                    if sv.reported {
                        r.large_scans = r.large_scans + 1;
                    }
                    if sv.row_count > r.max_scan_rows {
                        r.max_scan_rows = sv.row_count;
                    }
                },
                NodeKind::IndexScan | NodeKind::IndexOnlyScan => {
                    if !self.index_on {
                        i = i + 1;
                        continue;
                    }
                    r.index_scans = r.index_scans + 1;
                    if v.inefficient_index_scan.is_some() {
                        r.inefficient_scans = r.inefficient_scans + 1;
                    }
                },
                NodeKind::BitmapHeapScan | NodeKind::BitmapIndexScan => {
                    r.bitmap_scans = r.bitmap_scans + 1;
                },
                _ => {},
            }
            i = i + 1;
        }
        assert(pre.take(i as int) =~= pre);
        r
    }
}

/// The scan rules, stated from the thresholds: a sequential scan is judged
/// by its measured rows when there are any, else by its estimate; an index
/// scan is reported with the more severe of its cost and row severities when
/// that is high or critical; a bitmap scan with its row severity when that
/// is high or critical.
pub proof fn lemma_scan_rules(t: UnifiedThresholds, estimated_rows: u64, actual_rows: Option<u64>, rows: u64, cost: u64)
    ensures
        scan_rows(estimated_rows, actual_rows) == match actual_rows {
            Some(a) => a,
            None => estimated_rows,
        },
        ({
            let c = cost_severity(t.cost, cost);
            let r = row_severity(t.row_count, rows);
            let top = if c.spec_rank() >= r.spec_rank() {
                c
            } else {
                r
            };
            index_scan_severity(t, rows, cost) == if top.spec_rank() >= 2 {
                Some(top)
            } else {
                None
            }
        }),
        bitmap_scan_severity(t, rows) == if row_severity(t.row_count, rows).spec_rank() >= 2 {
            Some(row_severity(t.row_count, rows))
        } else {
            None
        },
        row_severity(t.row_count, rows) == Severity::Critical <==> rows >= t.row_count.critical,
        row_severity(t.row_count, rows) == Severity::High <==> t.row_count.high <= rows < t.row_count.critical,
        row_severity(t.row_count, rows) == Severity::Medium <==> t.row_count.medium <= rows && rows
            < t.row_count.high && rows < t.row_count.critical,
{
}

} // verus!
