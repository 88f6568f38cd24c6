//! Nodes whose startup cost delays the first rows: a high absolute startup
//! cost, a startup cost that dominates the total, an external sort, and an
//! expensive materialisation. Costs are in hundredths of a cost unit.
use vstd::prelude::*;
use crate::analysis::Severity;
use crate::analysis::traversal::{PlanTraversal, Visit, entry_visits, plan_preorder};
use crate::plan::{NodeKind, ParsedPlan, PlanNode, lookup};
use crate::text::{chars_of, contains_seq, contains_str, lowercase, to_lowercase};

verus! {

/// A startup cost above 10,000 units is high.
pub const HIGH_STARTUP_COST: u64 = 1_000_000;

/// Startup cost above which a dominant startup share is reported (1,000 units).
pub const DOMINANT_STARTUP_MIN: u64 = 100_000;

/// Startup cost above which an external sort or a materialisation is
/// reported (5,000 units).
pub const EXPENSIVE_STARTUP: u64 = 500_000;

/// Severity of a startup cost of `startup` hundredths, when it is high:
/// above 100,000 units critical, above 50,000 high, otherwise medium.
pub open spec fn high_startup_severity(startup: u64) -> Option<Severity> {
    if startup > HIGH_STARTUP_COST {
        Some(
            if startup > 10_000_000 {
                Severity::Critical
            } else if startup > 5_000_000 {
                Severity::High
            } else {
                Severity::Medium
            },
        )
    } else {
        None
    }
}

/// The startup cost is more than nine tenths of a positive total cost and
/// above 1,000 units.
pub open spec fn startup_dominates(startup: u64, total: u64) -> bool {
    total > 0 && 10 * startup > 9 * total && startup > DOMINANT_STARTUP_MIN
}

/// What the startup rules make of one node.
#[derive(Debug, Clone, Copy, PartialEq, Eq)]
pub struct StartupCostVerdict {
    /// Severity of a high startup cost, when there is one.
    pub high_startup: Option<Severity>,
    /// The startup cost dominates the total (medium severity).
    pub startup_dominant: bool,
    /// A sort whose method mentions `external`, with a startup cost above
    /// 5,000 units (high severity).
    pub external_sort: bool,
    /// A materialisation with a startup cost above 5,000 units (medium severity).
    pub expensive_materialization: bool,
}

/// The verdict on a node of kind `kind` with the given costs and sort method.
pub open spec fn startup_verdict(kind: NodeKind, startup: u64, total: u64, sort_method: Option<Seq<char>>) -> StartupCostVerdict {
    StartupCostVerdict {
        high_startup: high_startup_severity(startup),
        startup_dominant: startup_dominates(startup, total),
        external_sort: kind == NodeKind::Sort && match sort_method {
            Some(m) => contains_seq(lowercase(m), "external"@) && startup > EXPENSIVE_STARTUP,
            None => false,
        },
        expensive_materialization: kind == NodeKind::Materialize && startup > EXPENSIVE_STARTUP,
    }
}

/// (nodes with a high startup cost, largest startup cost) over some visits.
pub open spec fn startup_tally(s: Seq<Visit>) -> (nat, u64)
    decreases s.len(),
{
    if s.len() == 0 {
        (0, 0)
    } else {
        let p = startup_tally(s.drop_last());
        let n = s.last().0;
        (
            p.0 + if n.startup_cost > HIGH_STARTUP_COST {
                1nat
            } else {
                0nat
            },
            if n.startup_cost > p.1 {
                n.startup_cost
            } else {
                p.1
            },
        )
    }
}

proof fn lemma_startup_tally_bounded(s: Seq<Visit>)
    ensures
        startup_tally(s).0 <= s.len(),
    decreases s.len(),
{
    if s.len() > 0 {
        lemma_startup_tally_bounded(s.drop_last());
    }
}

/// Counts of one plan's startup costs.
#[derive(Debug, Clone, Copy, PartialEq, Eq)]
pub struct StartupTally {
    pub nodes_analyzed: usize,
    pub high_startup_nodes: usize,
    pub max_startup_cost: u64,
}

/// Flags operations whose startup cost delays the return of the first rows.
#[derive(Debug, Clone, Copy)]
pub struct StartupCostAnalyzer;

impl StartupCostAnalyzer {
    pub fn new() -> (r: Self) {
        StartupCostAnalyzer
    }

    /// The startup rules on plain values.
    pub fn assess(&self, kind: NodeKind, startup: u64, total: u64, sort_method: Option<&str>) -> (r: StartupCostVerdict)
        ensures
            r == startup_verdict(
                kind,
                startup,
                total,
                match sort_method {
                    Some(m) => Some(m@),
                    None => None,
                },
            ),
    {
        let high_startup = if startup > HIGH_STARTUP_COST {
            Some(
                if startup > 10_000_000 {
                    Severity::Critical
                } else if startup > 5_000_000 {
                    Severity::High
                } else {
                    Severity::Medium
                },
            )
        } else {
            None
        };
        let startup_dominant = total > 0 && 10 * (startup as u128) > 9 * (total as u128) && startup
            > DOMINANT_STARTUP_MIN;
        let external_sort = match kind {
            NodeKind::Sort => match sort_method {
                Some(m) => {
                    let lower = to_lowercase(m);
                    let l = chars_of(lower.as_str());
                    contains_str(l.as_slice(), "external") && startup > EXPENSIVE_STARTUP
                },
                None => false,
            },
            _ => false,
        };
        let expensive_materialization = match kind {
            NodeKind::Materialize => startup > EXPENSIVE_STARTUP,
            _ => false,
        };
        StartupCostVerdict { high_startup, startup_dominant, external_sort, expensive_materialization }
    }

    /// The startup rules on a plan node, with its `Sort Method` property.
    pub fn assess_node(&self, node: &PlanNode) -> (r: StartupCostVerdict)
        ensures
            r == startup_verdict(
                node.kind,
                node.startup_cost,
                node.total_cost,
                lookup(node.properties@, "Sort Method"@),
            ),
    {
        let method = node.get_property("Sort Method");
        self.assess(
            node.kind,
            node.startup_cost,
            node.total_cost,
            match method {
                Some(m) => Some(m.as_str()),
                None => None,
            },
        )
    }

    /// Node count, nodes with a high startup cost and the largest startup
    /// cost of a plan, depth first.
    pub fn tally(&self, plan: &ParsedPlan) -> (r: StartupTally)
        ensures
            r.nodes_analyzed == plan_preorder(*plan).len(),
            (r.high_startup_nodes as nat, r.max_startup_cost) == startup_tally(plan_preorder(*plan)),
    {
        let visits = PlanTraversal::depth_first_visits(plan);
        let ghost pre = plan_preorder(*plan);
        let mut r = StartupTally { nodes_analyzed: 0, high_startup_nodes: 0, max_startup_cost: 0 };
        let mut i: usize = 0;
        while i < visits.len()
            invariant
                i <= visits@.len(),
                entry_visits(visits@) == pre,
                r.nodes_analyzed == i,
                (r.high_startup_nodes as nat, r.max_startup_cost) == startup_tally(pre.take(i as int)),
            decreases visits@.len() - i,
        {
            let ghost t = pre.take(i as int + 1);
            assert(t.drop_last() =~= pre.take(i as int));
            assert(t.last() == pre[i as int]);
            proof {
                lemma_startup_tally_bounded(pre.take(i as int));
            }
            let node = visits[i].0;
            assert(pre[i as int].0 == *node);
            r.nodes_analyzed = r.nodes_analyzed + 1;
            if node.startup_cost > HIGH_STARTUP_COST {
                r.high_startup_nodes = r.high_startup_nodes + 1;
            }
            if node.startup_cost > r.max_startup_cost {
                r.max_startup_cost = node.startup_cost;
            }
            i = i + 1;
        }
        assert(pre.take(i as int) =~= pre);
        r
    }
}

/// A larger startup cost never lowers the high-startup severity.
pub proof fn lemma_startup_severity_monotone(a: u64, b: u64)
    requires
        a <= b,
        high_startup_severity(a) is Some,
    ensures
        high_startup_severity(b) is Some,
        high_startup_severity(a)->0.spec_rank() <= high_startup_severity(b)->0.spec_rank(),
{
}

/// The startup rules, stated from the costs (in hundredths): a startup cost
/// above 10,000 units is high-startup, critical above 100,000, high above
/// 50,000 and medium otherwise; the startup dominates when it is more than
/// nine tenths of a positive total and above 1,000 units; a sort whose
/// method, lowercased, mentions `external`, or a materialisation, is flagged
/// above 5,000 units of startup cost.
pub proof fn lemma_startup_rules(kind: NodeKind, startup: u64, total: u64, sort_method: Option<Seq<char>>)
    ensures
        ({
            let v = startup_verdict(kind, startup, total, sort_method);
            &&& (v.high_startup is Some <==> startup > 1_000_000)
            &&& (v.high_startup == Some(Severity::Critical) <==> startup > 10_000_000)
            &&& (v.high_startup == Some(Severity::High) <==> 5_000_000 < startup <= 10_000_000)
            &&& (v.high_startup == Some(Severity::Medium) <==> 1_000_000 < startup <= 5_000_000)
            &&& (v.startup_dominant <==> total > 0 && 10 * startup > 9 * total && startup > 100_000)
            &&& (v.external_sort <==> kind == NodeKind::Sort && sort_method is Some && contains_seq(
                lowercase(sort_method->0),
                "external"@,
            ) && startup > 500_000)
            &&& (v.expensive_materialization <==> kind == NodeKind::Materialize && startup > 500_000)
        }),
{
}

} // verus!
