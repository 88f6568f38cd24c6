//! Row-volume rules: operations that process excessively many rows, and
//! nested loops without a join condition whose output is close to the full
//! cross product of their inputs.
use vstd::prelude::*;
use crate::analysis::Severity;
use crate::analysis::consolidated_config::{ThresholdLevels, WorkloadContext, level_of, row_count_levels};
use crate::analysis::traversal::{PlanTraversal, Visit, entry_visits, plan_preorder};
use crate::plan::{NodeKind, ParsedPlan, PlanNode, lookup};

verus! {

/// Severity of processing `rows` rows, when it is worth reporting (medium
/// and above).
pub open spec fn excessive_rows_severity(levels: ThresholdLevels<u64>, rows: u64) -> Option<Severity> {
    let s = level_of(levels, rows);
    if s == Severity::Low {
        None
    } else {
        Some(s)
    }
}

/// Whether a nested loop without a join filter producing `rows` rows from
/// inputs of `left` and `right` rows looks like a cross product: more than
/// ten thousand rows, and more than four fifths of `left * right`.
pub open spec fn cross_product_suspected(has_join_filter: bool, rows: u64, left: u64, right: u64) -> bool {
    !has_join_filter && rows > 10_000 && 5 * rows > 4 * (left * right)
}

/// The estimated rows of child `i` of `n`, or one when it has no such child.
pub open spec fn input_rows_or_one(n: PlanNode, i: int) -> u64 {
    if i < n.children@.len() {
        n.children@[i].estimated_rows
    } else {
        1
    }
}

/// What the row rules make of one node.
#[derive(Debug, Clone, Copy, PartialEq, Eq)]
pub struct RowEstimationVerdict {
    /// Severity of excessive row processing, when reported.
    pub excessive: Option<Severity>,
    /// A nested loop that looks like a cross product (critical severity).
    pub cartesian_product: bool,
}

/// Counts over the nodes of a plan.
#[derive(Debug, Clone, Copy, PartialEq, Eq)]
pub struct RowEstimationTally {
    pub nodes_analyzed: usize,
    /// Nodes reported for excessive row processing.
    pub excessive_row_operations: usize,
    /// Nested loops that look like cross products.
    pub cartesian_products: usize,
    /// Largest row estimate of any node.
    pub max_processed_rows: u64,
}

/// Whether the cross-product rule flags node `n`.
pub open spec fn flags_cross_product(n: PlanNode) -> bool {
    n.kind == NodeKind::NestedLoop && cross_product_suspected(
        lookup(n.properties@, "Join Filter"@) is Some,
        n.estimated_rows,
        input_rows_or_one(n, 0),
        input_rows_or_one(n, 1),
    )
}

/// (excessive-row nodes, cross products, largest row estimate) among some
/// visits.
pub open spec fn row_tally(levels: ThresholdLevels<u64>, s: Seq<Visit>) -> (nat, nat, u64)
    decreases s.len(),
{
    if s.len() == 0 {
        (0, 0, 0)
    } else {
        let t = row_tally(levels, s.drop_last());
        let n = s.last().0;
        (
            t.0 + if excessive_rows_severity(levels, n.estimated_rows) is Some {
                1nat
            } else {
                0nat
            },
            t.1 + if flags_cross_product(n) {
                1nat
            } else {
                0nat
            },
            if n.estimated_rows > t.2 {
                n.estimated_rows
            } else {
                t.2
            },
        )
    }
}

proof fn lemma_row_tally_bounded(levels: ThresholdLevels<u64>, s: Seq<Visit>)
    ensures
        row_tally(levels, s).0 <= s.len(),
        row_tally(levels, s).1 <= s.len(),
    decreases s.len(),
{
    if s.len() > 0 {
        lemma_row_tally_bounded(levels, s.drop_last());
    }
}

/// Applies the row-volume rules against row-count threshold levels.
#[derive(Debug, Clone, Copy)]
pub struct RowEstimationAnalyzer {
    row_levels: ThresholdLevels<u64>,
}

impl RowEstimationAnalyzer {
    pub closed spec fn levels(self) -> ThresholdLevels<u64> {
        self.row_levels
    }

    /// An analyser judging row counts by `row_levels`.
    pub fn with_levels(row_levels: ThresholdLevels<u64>) -> (r: Self)
        ensures
            r.levels() == row_levels,
    {
        RowEstimationAnalyzer { row_levels }
    }

    /// The analyser of the default configuration: a mixed workload on a
    /// medium database.
    pub fn new() -> (r: Self)
        ensures
            r.levels() == (ThresholdLevels::<u64> { low: 10_000, medium: 100_000, high: 1_000_000, critical: 10_000_000 }),
    {
        let w = WorkloadContext::default();
        Self::with_levels(row_count_levels(&w))
    }

    /// Severity of processing `rows` rows, when reported.
    pub fn excessive_rows(&self, rows: u64) -> (r: Option<Severity>)
        ensures
            r == excessive_rows_severity(self.levels(), rows),
    {
        let s = self.row_levels.classify(&rows);
        match s {
            Severity::Low => None,
            _ => Some(s),
        }
    }

    /// The cross-product rule on plain values.
    pub fn cross_product(&self, has_join_filter: bool, rows: u64, left: u64, right: u64) -> (r: bool)
        ensures
            r == cross_product_suspected(has_join_filter, rows, left, right),
    {
        assert(left * right <= u64::MAX * u64::MAX) by (nonlinear_arith)
            requires
                left <= u64::MAX,
                right <= u64::MAX,
        ;
        let product = (left as u128) * (right as u128);
        let bound = 5 * (rows as u128);
        !has_join_filter && rows > 10_000 && product < bound && 4 * product < bound
    }

    /// Both rules on a plan node: excessive rows from its estimate, and the
    /// cross-product rule when it is a nested loop, with its `Join Filter`
    /// property and the estimates of its first two children.
    pub fn assess_node(&self, node: &PlanNode) -> (r: RowEstimationVerdict)
        ensures
            r.excessive == excessive_rows_severity(self.levels(), node.estimated_rows),
            r.cartesian_product == (node.kind == NodeKind::NestedLoop && cross_product_suspected(
                lookup(node.properties@, "Join Filter"@) is Some,
                node.estimated_rows,
                input_rows_or_one(*node, 0),
                input_rows_or_one(*node, 1),
            )),
    {
        let excessive = self.excessive_rows(node.estimated_rows);
        let cartesian_product = match node.kind {
            NodeKind::NestedLoop => {
                let has_filter = node.get_property("Join Filter").is_some();
                let left = if node.children.len() > 0 {
                    node.children[0].estimated_rows
                } else {
                    1
                };
                let right = if node.children.len() > 1 {
                    node.children[1].estimated_rows
                } else {
                    1
                };
                self.cross_product(has_filter, node.estimated_rows, left, right)
            },
            _ => false,
        };
        RowEstimationVerdict { excessive, cartesian_product }
    }

    /// Counts the nodes of the plan by what the row rules make of them.
    pub fn tally(&self, plan: &ParsedPlan) -> (r: RowEstimationTally)
        ensures
            r.nodes_analyzed == plan_preorder(*plan).len(),
            (r.excessive_row_operations as nat, r.cartesian_products as nat, r.max_processed_rows)
                == row_tally(self.levels(), plan_preorder(*plan)),
    {
        let visits = PlanTraversal::depth_first_visits(plan);
        let ghost pre = plan_preorder(*plan);
        let mut r = RowEstimationTally {
            nodes_analyzed: 0,
            excessive_row_operations: 0,
            cartesian_products: 0,
            max_processed_rows: 0,
        };
        let mut i: usize = 0;
        while i < visits.len()
            invariant
                i <= visits@.len(),
                entry_visits(visits@) == pre,
                r.nodes_analyzed == i,
                (r.excessive_row_operations as nat, r.cartesian_products as nat, r.max_processed_rows)
                    == row_tally(self.levels(), pre.take(i as int)),
            decreases visits@.len() - i,
        {
            let ghost t = pre.take(i as int + 1);
            assert(t.drop_last() =~= pre.take(i as int));
            assert(t.last() == pre[i as int]);
            proof {
                lemma_row_tally_bounded(self.levels(), pre.take(i as int));
            }
            let node = visits[i].0;
            assert(pre[i as int].0 == *node);
            let v = self.assess_node(node);
            r.nodes_analyzed = r.nodes_analyzed + 1;
            if v.excessive.is_some() {
                r.excessive_row_operations = r.excessive_row_operations + 1;
            }
            if v.cartesian_product {
                r.cartesian_products = r.cartesian_products + 1;
            }
            if node.estimated_rows > r.max_processed_rows {
                r.max_processed_rows = node.estimated_rows;
            }
            i = i + 1;
        }
        assert(pre.take(i as int) =~= pre);
        r
    }
}

/// The row rules, stated from the thresholds: processing `rows` rows is
/// reported from the medium level on, at the level it reaches; a nested loop
/// without a join filter is a suspected cross product when it produces more
/// than 10,000 rows and more than four fifths of the product of its inputs.
pub proof fn lemma_row_rules(levels: ThresholdLevels<u64>, rows: u64, has_join_filter: bool, out: u64, left: u64, right: u64)
    ensures
        excessive_rows_severity(levels, rows) is Some <==> rows >= levels.medium || rows >= levels.high
            || rows >= levels.critical,
        excessive_rows_severity(levels, rows) is Some ==> excessive_rows_severity(levels, rows)->0 == level_of(
            levels,
            rows,
        ),
        cross_product_suspected(has_join_filter, out, left, right) <==> !has_join_filter && out > 10_000 && 5
            * out > 4 * (left * right),
{
}

} // verus!
