//! Filters that inspect many rows only to discard most of them: a plan node
//! reads a million rows and keeps two percent, pointing at a missing or
//! incomplete index or a predicate that should be pushed down.
use vstd::prelude::*;
use crate::analysis::Severity;
use crate::analysis::traversal::{PlanTraversal, Visit, entry_visits, plan_preorder};
use crate::plan::{ParsedPlan, PlanNode, lookup};
use crate::text::parse_u64_spec;

verus! {

/// Minimum number of rows discarded before a filter is worth flagging.
pub const MIN_ROWS_REMOVED: u64 = 10_000;

/// Severity scaled by the absolute number of rows discarded.
pub open spec fn spec_severity_for_removed(removed: u64) -> Severity {
    if removed >= 1_000_000 {
        Severity::Critical
    } else if removed >= 100_000 {
        Severity::High
    } else {
        Severity::Medium
    }
}

/// Severity scaled by the absolute number of rows discarded.
pub fn severity_for_removed(removed: u64) -> (r: Severity)
    ensures
        r == spec_severity_for_removed(removed),
{
    if removed >= 1_000_000 {
        Severity::Critical
    } else if removed >= 100_000 {
        Severity::High
    } else {
        Severity::Medium
    }
}

/// `a + b`, or `u64::MAX` when that overflows.
pub open spec fn sat_add(a: u64, b: u64) -> u64 {
    if a + b <= u64::MAX {
        (a + b) as u64
    } else {
        u64::MAX
    }
}

/// Whether keeping `kept` of `kept + removed` inspected rows is a selectivity
/// below ten percent.
pub open spec fn poorly_selective(kept: u64, removed: u64) -> bool {
    10 * kept < sat_add(kept, removed)
}

/// What the filter counters of one node amount to.
#[derive(Debug, Clone, Copy, PartialEq, Eq)]
pub struct FilterVerdict {
    /// Rows counted as discarded by this node's filters.
    pub rows_removed: u64,
    /// Whether the selectivity of the WHERE filter is known (the node has
    /// measured rows).
    pub selectivity_known: bool,
    /// Severity of a wasteful WHERE filter, when there is one to flag.
    pub wasteful_filter: Option<Severity>,
    /// An index condition that had many rows rechecked (medium severity).
    pub imprecise_recheck: bool,
    /// A join filter that discarded many joined rows (medium severity).
    pub wasteful_join_filter: bool,
}

/// Counts over the nodes of a plan.
#[derive(Debug, Clone, Copy, PartialEq, Eq)]
pub struct FilterTally {
    pub nodes_analyzed: usize,
    /// Rows counted as discarded over the whole plan, saturating at
    /// `u64::MAX`.
    pub total_rows_removed: u64,
    /// Nodes with a wasteful WHERE filter.
    pub nodes_with_wasteful_filter: usize,
}

/// The verdict on a plan node.
pub open spec fn node_filter_verdict(n: PlanNode) -> FilterVerdict {
    FilterEfficiencyAnalyzer::verdict_for(
        match lookup(n.properties@, "Rows Removed by Filter"@) {
            Some(v) => parse_u64_spec(v),
            None => None,
        },
        n.actual_rows,
        match lookup(n.properties@, "Rows Removed by Index Recheck"@) {
            Some(v) => parse_u64_spec(v),
            None => None,
        },
        match lookup(n.properties@, "Rows Removed by Join Filter"@) {
            Some(v) => parse_u64_spec(v),
            None => None,
        },
    )
}

/// (rows removed, saturating; nodes with a wasteful filter) over some visits.
pub open spec fn filter_tally(s: Seq<Visit>) -> (u64, nat)
    decreases s.len(),
{
    if s.len() == 0 {
        (0, 0)
    } else {
        let t = filter_tally(s.drop_last());
        let v = node_filter_verdict(s.last().0);
        (sat_add(t.0, v.rows_removed), t.1 + if v.wasteful_filter is Some {
            1nat
        } else {
            0nat
        })
    }
}

proof fn lemma_filter_tally_bounded(s: Seq<Visit>)
    ensures
        filter_tally(s).1 <= s.len(),
    decreases s.len(),
{
    if s.len() > 0 {
        lemma_filter_tally_bounded(s.drop_last());
    }
}

/// Flags nodes whose filters discard most of the rows they inspect.
#[derive(Debug, Clone, Copy)]
pub struct FilterEfficiencyAnalyzer;

impl FilterEfficiencyAnalyzer {
    pub fn new() -> (r: Self) {
        FilterEfficiencyAnalyzer
    }

    /// The verdict on a node from the rows removed by its WHERE filter, its
    /// measured rows, the rows removed by index recheck and by a join filter.
    pub open spec fn verdict_for(
        removed: Option<u64>,
        kept: Option<u64>,
        recheck: Option<u64>,
        join_filter: Option<u64>,
    ) -> FilterVerdict {
        let from_filter: u64 = match removed {
            Some(r) => r,
            None => 0,
        };
        let from_recheck: u64 = match recheck {
            Some(r) => if r >= MIN_ROWS_REMOVED {
                r
            } else {
                0
            },
            None => 0,
        };
        let from_join: u64 = match join_filter {
            Some(r) => if r >= MIN_ROWS_REMOVED {
                r
            } else {
                0
            },
            None => 0,
        };
        let known = kept is Some;
        FilterVerdict {
            rows_removed: sat_add(sat_add(from_filter, from_recheck), from_join),
            selectivity_known: match removed {
                Some(r) => r >= MIN_ROWS_REMOVED && known,
                None => false,
            },
            wasteful_filter: match removed {
                Some(r) => if r >= MIN_ROWS_REMOVED && (!known || poorly_selective(
                    kept->0,
                    r,
                )) {
                    Some(spec_severity_for_removed(r))
                } else {
                    None
                },
                None => None,
            },
            imprecise_recheck: match recheck {
                Some(r) => r >= MIN_ROWS_REMOVED,
                None => false,
            },
            wasteful_join_filter: match join_filter {
                Some(r) => r >= MIN_ROWS_REMOVED,
                None => false,
            },
        }
    }

    /// Applies the three filter rules to one node's counters.
    pub fn assess(
        &self,
        removed: Option<u64>,
        kept: Option<u64>,
        recheck: Option<u64>,
        join_filter: Option<u64>,
    ) -> (r: FilterVerdict)
        ensures
            r == Self::verdict_for(removed, kept, recheck, join_filter),
    {
        let mut total: u64 = 0;
        let mut selectivity_known = false;
        let mut wasteful_filter: Option<Severity> = None;
        if let Some(r) = removed {
            total = total.saturating_add(r);
            if r >= MIN_ROWS_REMOVED {
                let known = match kept {
                    Some(_) => true,
                    None => false,
                };
                selectivity_known = known;
                let poor = match kept {
                    Some(k) => (10 * (k as u128)) < (k.saturating_add(r) as u128),
                    None => false,
                };
                if !known || poor {
                    wasteful_filter = Some(severity_for_removed(r));
                }
            }
        }
        let mut imprecise_recheck = false;
        if let Some(r) = recheck {
            if r >= MIN_ROWS_REMOVED {
                total = total.saturating_add(r);
                imprecise_recheck = true;
            }
        }
        let mut wasteful_join_filter = false;
        if let Some(r) = join_filter {
            if r >= MIN_ROWS_REMOVED {
                total = total.saturating_add(r);
                wasteful_join_filter = true;
            }
        }
        FilterVerdict {
            rows_removed: total,
            selectivity_known,
            wasteful_filter,
            imprecise_recheck,
            wasteful_join_filter,
        }
    }

    /// Applies the filter rules to a plan node, reading the properties
    /// `Rows Removed by Filter`, `Rows Removed by Index Recheck` and
    /// `Rows Removed by Join Filter` and its measured rows.
    pub fn assess_node(&self, node: &PlanNode) -> (r: FilterVerdict)
        ensures
            r == Self::verdict_for(
                match lookup(node.properties@, "Rows Removed by Filter"@) {
                    Some(v) => parse_u64_spec(v),
                    None => None,
                },
                node.actual_rows,
                match lookup(node.properties@, "Rows Removed by Index Recheck"@) {
                    Some(v) => parse_u64_spec(v),
                    None => None,
                },
                match lookup(node.properties@, "Rows Removed by Join Filter"@) {
                    Some(v) => parse_u64_spec(v),
                    None => None,
                },
            ),
    {
        let removed = node.properties.get_u64("Rows Removed by Filter");
        let recheck = node.properties.get_u64("Rows Removed by Index Recheck");
        let join_filter = node.properties.get_u64("Rows Removed by Join Filter");
        self.assess(removed, node.actual_rows, recheck, join_filter)
    }

    /// Counts the rows the plan's filters discarded and the nodes with a
    /// wasteful WHERE filter.
    pub fn tally(&self, plan: &ParsedPlan) -> (r: FilterTally)
        ensures
            r.nodes_analyzed == plan_preorder(*plan).len(),
            (r.total_rows_removed, r.nodes_with_wasteful_filter as nat) == filter_tally(plan_preorder(*plan)),
    {
        let visits = PlanTraversal::depth_first_visits(plan);
        let ghost pre = plan_preorder(*plan);
        let mut r = FilterTally { nodes_analyzed: 0, total_rows_removed: 0, nodes_with_wasteful_filter: 0 };
        let mut i: usize = 0;
        while i < visits.len()
            invariant
                i <= visits@.len(),
                entry_visits(visits@) == pre,
                r.nodes_analyzed == i,
                (r.total_rows_removed, r.nodes_with_wasteful_filter as nat) == filter_tally(pre.take(i as int)),
            decreases visits@.len() - i,
        {
            let ghost t = pre.take(i as int + 1);
            assert(t.drop_last() =~= pre.take(i as int));
            assert(t.last() == pre[i as int]);
            proof {
                lemma_filter_tally_bounded(pre.take(i as int));
            }
            let node = visits[i].0;
            assert(pre[i as int].0 == *node);
            let v = self.assess_node(node);
            r.nodes_analyzed = r.nodes_analyzed + 1;
            r.total_rows_removed = r.total_rows_removed.saturating_add(v.rows_removed);
            if v.wasteful_filter.is_some() {
                r.nodes_with_wasteful_filter = r.nodes_with_wasteful_filter + 1;
            }
            i = i + 1;
        }
        assert(pre.take(i as int) =~= pre);
        r
    }
}

/// The filter rules, stated from the counters: a WHERE filter is wasteful
/// when it discarded at least 10,000 rows and either the rows kept are
/// unknown or fewer than a tenth of those inspected (kept plus discarded,
/// capped at `u64::MAX`) were kept; its severity is critical from a million
/// rows discarded, high from 100,000, medium below. An index recheck or a
/// join filter is flagged when it discarded at least 10,000 rows.
pub proof fn lemma_filter_rules(removed: Option<u64>, kept: Option<u64>, recheck: Option<u64>, join_filter: Option<u64>)
    ensures
        ({
            let v = FilterEfficiencyAnalyzer::verdict_for(removed, kept, recheck, join_filter);
            &&& (v.wasteful_filter is Some <==> match removed {
                Some(r) => r >= 10_000 && match kept {
                    Some(k) => 10 * k < (if k + r <= u64::MAX {
                        k + r
                    } else {
                        u64::MAX as int
                    }),
                    None => true,
                },
                None => false,
            })
            &&& (v.wasteful_filter == Some(Severity::Critical) ==> removed->0 >= 1_000_000)
            &&& (v.wasteful_filter == Some(Severity::High) ==> 100_000 <= removed->0 < 1_000_000)
            &&& (v.wasteful_filter == Some(Severity::Medium) ==> removed->0 < 100_000)
            &&& (v.wasteful_filter is Some ==> v.wasteful_filter == Some(Severity::Critical)
                || v.wasteful_filter == Some(Severity::High) || v.wasteful_filter == Some(Severity::Medium))
            &&& (v.imprecise_recheck <==> recheck is Some && recheck->0 >= 10_000)
            &&& (v.wasteful_join_filter <==> join_filter is Some && join_filter->0 >= 10_000)
        }),
{
}

} // verus!
