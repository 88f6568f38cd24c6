//! Index usage patterns: sequential scans whose filters suggest a missing
//! index, filters that defeat indexes, and scans that return very many rows.
use vstd::prelude::*;
use crate::analysis::Severity;
use crate::analysis::traversal::{PlanTraversal, Visit, entry_visits, plan_preorder};
use crate::plan::{NodeKind, ParsedPlan, PlanNode, lookup};
use crate::text::{chars_of, contains_seq, contains_str, lowercase, to_lowercase};

verus! {

/// Severity of a missing-index opportunity: a sequential scan with an
/// equality filter that has no `or`, estimated to return more than a thousand
/// and fewer than a million rows.
pub open spec fn missing_index_severity(filter: Seq<char>, rows: u64) -> Option<Severity> {
    if contains_seq(filter, "="@) && !contains_seq(lowercase(filter), " or "@) && 1000 < rows
        && rows < 1_000_000 {
        Some(
            if rows > 100_000 {
                Severity::High
            } else if rows > 10_000 {
                Severity::Medium
            } else {
                Severity::Low
            },
        )
    } else {
        None
    }
}

/// Whether a filter applies one of the functions that prevent index use.
pub open spec fn applies_function(filter: Seq<char>) -> bool {
    let l = lowercase(filter);
    contains_seq(l, "lower("@) || contains_seq(l, "upper("@) || contains_seq(l, "date("@)
        || contains_seq(l, "substring("@) || contains_seq(l, "cast("@)
}

/// Whether a filter uses `LIKE`/`ILIKE` with a leading wildcard.
pub open spec fn leading_wildcard(filter: Seq<char>) -> bool {
    contains_seq(filter, "LIKE '%"@) || contains_seq(filter, "ILIKE '%"@)
}

/// What one scan node amounts to.
#[derive(Debug, Clone, Copy, PartialEq, Eq)]
pub struct IndexUsageVerdict {
    /// A sequential scan with a `Filter` property.
    pub seq_scan_with_filter: bool,
    pub missing_index: Option<Severity>,
    /// A function in the filter prevents index use (medium severity).
    pub function_in_filter: bool,
    /// A leading-wildcard `LIKE` prevents index use (low severity).
    pub leading_wildcard_like: bool,
    /// An index scan (index-only scans included) estimated to return more
    /// than 50,000 rows (low severity).
    pub large_index_scan: bool,
    /// A bitmap heap scan estimated to return more than 100,000 rows (low severity).
    pub large_bitmap_scan: bool,
}

/// Counts over the scans of a plan.
#[derive(Debug, Clone, Copy, PartialEq, Eq)]
pub struct IndexUsageTally {
    /// Every node of the plan.
    pub nodes_analyzed: usize,
    pub seq_scans: usize,
    /// Index scans, index-only scans included.
    pub index_scans: usize,
    /// Sequential scans with a `Filter`.
    pub seq_scans_with_filters: usize,
}

/// (sequential scans, index scans, sequential scans with a filter) among
/// some visits.
pub open spec fn index_usage_tally(s: Seq<Visit>) -> (nat, nat, nat)
    decreases s.len(),
{
    if s.len() == 0 {
        (0, 0, 0)
    } else {
        let t = index_usage_tally(s.drop_last());
        let n = s.last().0;
        if n.kind == NodeKind::SeqScan {
            (t.0 + 1, t.1, t.2 + if lookup(n.properties@, "Filter"@) is Some {
                1nat
            } else {
                0nat
            })
        } else if n.kind == NodeKind::IndexScan || n.kind == NodeKind::IndexOnlyScan {
            (t.0, t.1 + 1, t.2)
        } else {
            t
        }
    }
}

proof fn lemma_index_usage_tally_bounded(s: Seq<Visit>)
    ensures
        index_usage_tally(s).0 + index_usage_tally(s).1 <= s.len(),
        index_usage_tally(s).2 <= index_usage_tally(s).0,
    decreases s.len(),
{
    if s.len() > 0 {
        lemma_index_usage_tally_bounded(s.drop_last());
    }
}

/// Analyzes index usage patterns and detects missing index opportunities.
#[derive(Debug, Clone, Copy)]
pub struct IndexUsageAnalyzer;

impl IndexUsageAnalyzer {
    pub fn new() -> (r: Self) {
        IndexUsageAnalyzer
    }

    pub open spec fn verdict_for(kind: NodeKind, filter: Option<Seq<char>>, rows: u64) -> IndexUsageVerdict {
        let seq_filter = kind == NodeKind::SeqScan && filter is Some;
        IndexUsageVerdict {
            seq_scan_with_filter: seq_filter,
            missing_index: if seq_filter {
                missing_index_severity(filter->0, rows)
            } else {
                None
            },
            function_in_filter: seq_filter && applies_function(filter->0),
            leading_wildcard_like: seq_filter && leading_wildcard(filter->0),
            large_index_scan: (kind == NodeKind::IndexScan || kind == NodeKind::IndexOnlyScan) && rows
                > 50_000,
            large_bitmap_scan: kind == NodeKind::BitmapHeapScan && rows > 100_000,
        }
    }

    /// Applies the index-usage rules to a node of the given kind, `Filter`
    /// and estimated rows.
    pub fn assess(&self, kind: NodeKind, filter: Option<&str>, rows: u64) -> (r: IndexUsageVerdict)
        ensures
            r == Self::verdict_for(
                kind,
                match filter {
                    Some(f) => Some(f@),
                    None => None,
                },
                rows,
            ),
    {
        let is_seq = match kind {
            NodeKind::SeqScan => true,
            _ => false,
        };
        let mut v = IndexUsageVerdict {
            seq_scan_with_filter: false,
            missing_index: None,
            function_in_filter: false,
            leading_wildcard_like: false,
            large_index_scan: match kind {
                NodeKind::IndexScan | NodeKind::IndexOnlyScan => rows > 50_000,
                _ => false,
            },
            large_bitmap_scan: match kind {
                NodeKind::BitmapHeapScan => rows > 100_000,
                _ => false,
            },
        };
        if is_seq {
            if let Some(f) = filter {
                v.seq_scan_with_filter = true;
                let raw = chars_of(f);
                let lower_s = to_lowercase(f);
                let lower = chars_of(lower_s.as_str());
                if contains_str(raw.as_slice(), "=") && !contains_str(lower.as_slice(), " or ")
                    && 1000 < rows && rows < 1_000_000 {
                    v.missing_index = Some(
                        if rows > 100_000 {
                            Severity::High
                        } else if rows > 10_000 {
                            Severity::Medium
                        } else {
                            Severity::Low
                        },
                    );
                }
                v.function_in_filter = contains_str(lower.as_slice(), "lower(") || contains_str(
                    lower.as_slice(),
                    "upper(",
                ) || contains_str(lower.as_slice(), "date(") || contains_str(
                    lower.as_slice(),
                    "substring(",
                ) || contains_str(lower.as_slice(), "cast(");
                v.leading_wildcard_like = contains_str(raw.as_slice(), "LIKE '%") || contains_str(
                    raw.as_slice(),
                    "ILIKE '%",
                );
            }
        }
        v
    }

    /// Counts the nodes and scans of the plan.
    pub fn tally(&self, plan: &ParsedPlan) -> (r: IndexUsageTally)
        ensures
            r.nodes_analyzed == plan_preorder(*plan).len(),
            (r.seq_scans as nat, r.index_scans as nat, r.seq_scans_with_filters as nat)
                == index_usage_tally(plan_preorder(*plan)),
    {
        let visits = PlanTraversal::depth_first_visits(plan);
        let ghost pre = plan_preorder(*plan);
        let mut r = IndexUsageTally { nodes_analyzed: 0, seq_scans: 0, index_scans: 0, seq_scans_with_filters: 0 };
        let mut i: usize = 0;
        while i < visits.len()
            invariant
                i <= visits@.len(),
                entry_visits(visits@) == pre,
                r.nodes_analyzed == i,
                (r.seq_scans as nat, r.index_scans as nat, r.seq_scans_with_filters as nat)
                    == index_usage_tally(pre.take(i as int)),
            decreases visits@.len() - i,
        {
            let ghost t = pre.take(i as int + 1);
            assert(t.drop_last() =~= pre.take(i as int));
            assert(t.last() == pre[i as int]);
            proof {
                lemma_index_usage_tally_bounded(pre.take(i as int));
            }
            let node = visits[i].0;
            assert(pre[i as int].0 == *node);
            r.nodes_analyzed = r.nodes_analyzed + 1;
            match node.kind {
                NodeKind::SeqScan => {
                    r.seq_scans = r.seq_scans + 1;
                    if node.get_property("Filter").is_some() {
                        r.seq_scans_with_filters = r.seq_scans_with_filters + 1;
                    }
                },
                NodeKind::IndexScan | NodeKind::IndexOnlyScan => {
                    r.index_scans = r.index_scans + 1;
                },
                _ => {},
            }
            i = i + 1;
        }
        assert(pre.take(i as int) =~= pre);
        r
    }

    pub fn assess_node(&self, node: &PlanNode) -> (r: IndexUsageVerdict)
        ensures
            r == Self::verdict_for(
                node.kind,
                lookup(node.properties@, "Filter"@),
                node.estimated_rows,
            ),
    {
        let filter = node.get_property("Filter");
        self.assess(
            node.kind,
            match filter {
                Some(f) => Some(f.as_str()),
                None => None,
            },
            node.estimated_rows,
        )
    }
}

/// The index-usage rules on a node, stated from its kind, `Filter` and rows:
/// only a sequential scan with a filter is judged for its filter; a function
/// call among `lower(`, `upper(`, `date(`, `substring(`, `cast(` (in any
/// case) in the filter is flagged, as is a `LIKE`/`ILIKE` pattern that starts
/// with `%`; an equality filter without `or` on a scan of more than a
/// thousand and fewer than a million rows is a missing-index opportunity,
/// high above 100,000 rows, medium above 10,000 and low otherwise; index
/// scans above 50,000 rows and bitmap heap scans above 100,000 are large.
pub proof fn lemma_index_usage_rules(kind: NodeKind, filter: Option<Seq<char>>, rows: u64)
    ensures
        ({
            let v = IndexUsageAnalyzer::verdict_for(kind, filter, rows);
            let judged = kind == NodeKind::SeqScan && filter is Some;
            &&& v.seq_scan_with_filter == judged
            &&& v.function_in_filter <==> judged && {
                let l = lowercase(filter->0);
                ||| contains_seq(l, "lower("@)
                ||| contains_seq(l, "upper("@)
                ||| contains_seq(l, "date("@)
                ||| contains_seq(l, "substring("@)
                ||| contains_seq(l, "cast("@)
            }
            &&& v.leading_wildcard_like <==> judged && (contains_seq(filter->0, "LIKE '%"@)
                || contains_seq(filter->0, "ILIKE '%"@))
            &&& v.missing_index is Some <==> judged && contains_seq(filter->0, "="@) && !contains_seq(
                lowercase(filter->0),
                " or "@,
            ) && 1000 < rows && rows < 1_000_000
            &&& v.missing_index == Some(Severity::High) ==> rows > 100_000
            &&& v.missing_index == Some(Severity::Medium) ==> 10_000 < rows <= 100_000
            &&& v.missing_index == Some(Severity::Low) ==> rows <= 10_000
            &&& v.missing_index is Some ==> v.missing_index == Some(Severity::High) || v.missing_index
                == Some(Severity::Medium) || v.missing_index == Some(Severity::Low)
            &&& v.large_index_scan <==> (kind == NodeKind::IndexScan || kind == NodeKind::IndexOnlyScan)
                && rows > 50_000
            &&& v.large_bitmap_scan <==> kind == NodeKind::BitmapHeapScan && rows > 100_000
        }),
{
}

/// A sequential scan whose filter, lowercased, calls `date(` (or any other
/// index-defeating function) is flagged, whatever its row estimate.
pub proof fn lemma_date_call_defeats_index(filter: Seq<char>, rows: u64)
    requires
        contains_seq(lowercase(filter), "date("@),
    ensures
        IndexUsageAnalyzer::verdict_for(NodeKind::SeqScan, Some(filter), rows).function_in_filter,
{
    lemma_index_usage_rules(NodeKind::SeqScan, Some(filter), rows);
}

} // verus!
