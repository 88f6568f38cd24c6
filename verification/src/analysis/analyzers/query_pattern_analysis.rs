//! Query-pattern rules: plan-wide complexity (joins, subplans, aggregates and
//! nesting depth) and three per-node anti-patterns: a DISTINCT over a
//! single-equality index condition, a function applied to a filtered column,
//! and very wide rows.
use vstd::prelude::*;
use crate::analysis::Severity;
use crate::analysis::traversal::{PlanTraversal, Visit, entry_visits, plan_preorder};
use crate::plan::{NodeKind, ParsedPlan, PlanNode, lookup};
use crate::text::{chars_of, contains_seq, contains_str, lowercase, to_lowercase};

verus! {

/// Row width above which a node is taken to select many columns.
pub const WIDE_ROW_BYTES: u32 = 500;

/// Default complexity score above which a plan is flagged.
pub const COMPLEXITY_THRESHOLD: u128 = 100;

/// Complexity score above which an overly complex plan is a high-severity
/// finding rather than a medium one.
pub const HIGH_COMPLEXITY_SCORE: u128 = 200;

/// The finding a complexity score earns against the threshold `limit`.
pub open spec fn complexity_severity_of(score: int, limit: int) -> Option<Severity> {
    if score > limit {
        Some(
            if score > HIGH_COMPLEXITY_SCORE {
                Severity::High
            } else {
                Severity::Medium
            },
        )
    } else {
        None
    }
}

/// Default nesting depth above which a plan is flagged.
pub const MAX_JOIN_DEPTH: usize = 5;

/// A DISTINCT (`Operation` mentions `unique`, in any case) over an index
/// condition that is an equality without `AND`.
pub open spec fn unnecessary_distinct(operation: Option<Seq<char>>, index_cond: Option<Seq<char>>) -> bool {
    match (operation, index_cond) {
        (Some(op), Some(cond)) => contains_seq(lowercase(op), "unique"@) && contains_seq(cond, "="@)
            && !contains_seq(cond, "AND"@),
        _ => false,
    }
}

/// A filter that applies `lower`, `upper`, `date` or `substring` to a column.
pub open spec fn function_on_filtered_column(filter: Option<Seq<char>>) -> bool {
    match filter {
        Some(f) => {
            let l = lowercase(f);
            contains_seq(l, "lower("@) || contains_seq(l, "upper("@) || contains_seq(l, "date("@)
                || contains_seq(l, "substring("@)
        },
        None => false,
    }
}

/// What the anti-pattern rules make of one node.
#[derive(Debug, Clone, Copy, PartialEq, Eq)]
pub struct PatternVerdict {
    /// Possibly unnecessary DISTINCT (low severity).
    pub unnecessary_distinct: bool,
    /// Function on a filtered column (medium severity).
    pub function_on_indexed_column: bool,
    /// Rows wider than [`WIDE_ROW_BYTES`] (low severity).
    pub wide_rows: bool,
}

/// Plan-wide counts the complexity score is made of.
#[derive(Debug, Clone, Copy, PartialEq, Eq)]
pub struct PatternMetrics {
    pub nodes_analyzed: usize,
    pub join_count: usize,
    /// Nodes with a `Subplan Name` property.
    pub subquery_count: usize,
    pub aggregate_count: usize,
    /// Longest path length from the root.
    pub max_depth: usize,
}

/// (joins, subplans, aggregates, deepest path) over a list of visits.
pub open spec fn pattern_counts(s: Seq<Visit>) -> (nat, nat, nat, nat)
    decreases s.len(),
{
    if s.len() == 0 {
        (0, 0, 0, 0)
    } else {
        let p = pattern_counts(s.drop_last());
        let v = s.last();
        let n = v.0;
        (
            p.0 + if n.kind.spec_is_join() {
                1nat
            } else {
                0nat
            },
            p.1 + if lookup(n.properties@, "Subplan Name"@) is Some {
                1nat
            } else {
                0nat
            },
            p.2 + if n.kind == NodeKind::Aggregate {
                1nat
            } else {
                0nat
            },
            if v.1.len() > p.3 {
                v.1.len()
            } else {
                p.3
            },
        )
    }
}

proof fn lemma_pattern_counts_bounded(s: Seq<Visit>)
    ensures
        pattern_counts(s).0 <= s.len(),
        pattern_counts(s).1 <= s.len(),
        pattern_counts(s).2 <= s.len(),
    decreases s.len(),
{
    if s.len() > 0 {
        lemma_pattern_counts_bounded(s.drop_last());
    }
}

/// Complexity score: ten per join, fifteen per subplan, five per aggregate,
/// and three times the square of the nesting depth.
pub open spec fn complexity_score(m: PatternMetrics) -> int {
    10 * m.join_count + 15 * m.subquery_count + 5 * m.aggregate_count + 3 * (m.max_depth * m.max_depth)
}

/// Detects query anti-patterns and overly complex plans.
#[derive(Debug, Clone, Copy)]
pub struct QueryPatternAnalyzer {
    detect_antipatterns: bool,
    max_join_depth: usize,
    complexity_threshold: u128,
}

impl QueryPatternAnalyzer {
    pub closed spec fn detects_antipatterns(self) -> bool {
        self.detect_antipatterns
    }

    pub closed spec fn depth_limit(self) -> nat {
        self.max_join_depth as nat
    }

    pub closed spec fn complexity_limit(self) -> nat {
        self.complexity_threshold as nat
    }

    /// Anti-pattern detection on, nesting flagged beyond depth five, and
    /// complexity beyond a score of a hundred.
    pub fn new() -> (r: Self)
        ensures
            r.detects_antipatterns(),
            r.depth_limit() == MAX_JOIN_DEPTH,
            r.complexity_limit() == COMPLEXITY_THRESHOLD,
    {
        QueryPatternAnalyzer {
            detect_antipatterns: true,
            max_join_depth: MAX_JOIN_DEPTH,
            complexity_threshold: COMPLEXITY_THRESHOLD,
        }
    }

    /// The overly-complex-plan finding for a complexity score: none up to
    /// the threshold, then medium, and high above a score of two hundred.
    pub fn complexity_severity(&self, score: u128) -> (r: Option<Severity>)
        ensures
            r == complexity_severity_of(score as int, self.complexity_limit() as int),
    {
        if score > self.complexity_threshold {
            Some(
                if score > HIGH_COMPLEXITY_SCORE {
                    Severity::High
                } else {
                    Severity::Medium
                },
            )
        } else {
            None
        }
    }

    /// The anti-pattern rules on one node (none when detection is off).
    pub fn assess_node(&self, node: &PlanNode) -> (r: PatternVerdict)
        ensures
            r.unnecessary_distinct == (self.detects_antipatterns() && unnecessary_distinct(
                lookup(node.properties@, "Operation"@),
                lookup(node.properties@, "Index Cond"@),
            )),
            r.function_on_indexed_column == (self.detects_antipatterns()
                && function_on_filtered_column(lookup(node.properties@, "Filter"@))),
            r.wide_rows == (self.detects_antipatterns() && node.estimated_width > WIDE_ROW_BYTES),
    {
        if !self.detect_antipatterns {
            return PatternVerdict {
                unnecessary_distinct: false,
                function_on_indexed_column: false,
                wide_rows: false,
            };
        }
        let distinct = match (node.get_property("Operation"), node.get_property("Index Cond")) {
            (Some(op), Some(cond)) => {
                let lower_op = to_lowercase(op.as_str());
                let op_chars = chars_of(lower_op.as_str());
                let cond_chars = chars_of(cond.as_str());
                contains_str(op_chars.as_slice(), "unique") && contains_str(cond_chars.as_slice(), "=")
                    && !contains_str(cond_chars.as_slice(), "AND")
            },
            _ => false,
        };
        let function = match node.get_property("Filter") {
            Some(f) => {
                let lower = to_lowercase(f.as_str());
                let l = chars_of(lower.as_str());
                contains_str(l.as_slice(), "lower(") || contains_str(l.as_slice(), "upper(")
                    || contains_str(l.as_slice(), "date(") || contains_str(l.as_slice(), "substring(")
            },
            None => false,
        };
        PatternVerdict {
            unnecessary_distinct: distinct,
            function_on_indexed_column: function,
            wide_rows: node.estimated_width > WIDE_ROW_BYTES,
        }
    }

    /// The plan-wide counts, over the nodes a depth-first walk visits.
    pub fn metrics(&self, plan: &ParsedPlan) -> (r: PatternMetrics)
        ensures
            r.nodes_analyzed == plan_preorder(*plan).len(),
            (r.join_count as nat, r.subquery_count as nat, r.aggregate_count as nat, r.max_depth as nat)
                == pattern_counts(plan_preorder(*plan)),
    {
        let visits = PlanTraversal::depth_first_visits(plan);
        let ghost pre = plan_preorder(*plan);
        let mut m = PatternMetrics {
            nodes_analyzed: 0,
            join_count: 0,
            subquery_count: 0,
            aggregate_count: 0,
            max_depth: 0,
        };
        let mut i: usize = 0;
        while i < visits.len()
            invariant
                i <= visits@.len(),
                entry_visits(visits@) == pre,
                m.nodes_analyzed == i,
                (m.join_count as nat, m.subquery_count as nat, m.aggregate_count as nat, m.max_depth as nat)
                    == pattern_counts(pre.take(i as int)),
            decreases visits@.len() - i,
        {
            let ghost t = pre.take(i as int + 1);
            assert(t.drop_last() =~= pre.take(i as int));
            assert(t.last() == pre[i as int]);
            proof {
                lemma_pattern_counts_bounded(pre.take(i as int));
            }
            let node = visits[i].0;
            let depth = visits[i].1.path.len();
            assert(pre[i as int].1.len() == depth);
            assert(pre[i as int].0 == *node);
            m.nodes_analyzed = m.nodes_analyzed + 1;
            if node.kind.is_join() {
                m.join_count = m.join_count + 1;
            }
            if node.get_property("Subplan Name").is_some() {
                m.subquery_count = m.subquery_count + 1;
            }
            match node.kind {
                NodeKind::Aggregate => m.aggregate_count = m.aggregate_count + 1,
                _ => {},
            }
            if depth > m.max_depth {
                m.max_depth = depth;
            }
            i = i + 1;
        }
        assert(pre.take(i as int) =~= pre);
        m
    }

    /// The complexity score of the counts, or `u128::MAX` when it does not
    /// fit.
    pub fn complexity(&self, m: &PatternMetrics) -> (r: u128)
        ensures
            r == if complexity_score(*m) <= u128::MAX {
                complexity_score(*m)
            } else {
                u128::MAX as int
            },
    {
        let d = m.max_depth as u128;
        assert(d * d <= u64::MAX * u64::MAX) by (nonlinear_arith)
            requires
                d <= u64::MAX,
        ;
        let linear = 10 * (m.join_count as u128) + 15 * (m.subquery_count as u128) + 5 * (
        m.aggregate_count as u128);
        match (d * d).checked_mul(3) {
            Some(q) => match linear.checked_add(q) {
                Some(total) => total,
                None => u128::MAX,
            },
            None => u128::MAX,
        }
    }

    /// Whether the nesting is deeper than the limit.
    pub fn too_deep(&self, m: &PatternMetrics) -> (r: bool)
        ensures
            r == (m.max_depth > self.depth_limit()),
    {
        m.max_depth > self.max_join_depth
    }
}

/// The anti-pattern rules, stated from the node's properties: a filter that,
/// lowercased, calls `lower(`, `upper(`, `date(` or `substring(` applies a
/// function to the filtered column; a DISTINCT is possibly unnecessary when
/// its operation mentions `unique` (in any case) over an equality index
/// condition without `AND`; with no filter or no such call there is no
/// finding.
pub proof fn lemma_antipattern_rules(
    filter: Option<Seq<char>>,
    operation: Option<Seq<char>>,
    index_cond: Option<Seq<char>>,
)
    ensures
        function_on_filtered_column(filter) <==> match filter {
            Some(f) => {
                let l = lowercase(f);
                ||| contains_seq(l, "lower("@)
                ||| contains_seq(l, "upper("@)
                ||| contains_seq(l, "date("@)
                ||| contains_seq(l, "substring("@)
            },
            None => false,
        },
        unnecessary_distinct(operation, index_cond) <==> operation is Some && index_cond is Some
            && contains_seq(lowercase(operation->0), "unique"@) && contains_seq(index_cond->0, "="@)
            && !contains_seq(index_cond->0, "AND"@),
{
}

} // verus!
