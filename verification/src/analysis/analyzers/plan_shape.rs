//! Whole-plan structural metrics: node count, depth and the mix of node
//! kinds, and the rule that flags an excessively deep or large plan.
use vstd::prelude::*;
use crate::analysis::depth_walk::{lemma_postorder_len, plan_postorder};
use crate::analysis::root_description;
use crate::analysis::traversal::{PlanTraversal, Visit, entry_visits, plan_preorder};
use crate::plan::{NodeKind, ParsedPlan, PlanNode};

verus! {

/// Flag plans deeper than this.
pub const MAX_DEPTH_THRESHOLD: usize = 12;

/// Flag plans with at least this many nodes.
pub const NODE_COUNT_THRESHOLD: usize = 40;

/// Structural metrics of a plan.
#[derive(Debug, Clone, Copy, PartialEq, Eq)]
pub struct ShapeMetrics {
    pub node_count: usize,
    /// Length of the longest path from the root.
    pub max_depth: usize,
    pub scan_count: usize,
    pub join_count: usize,
    pub aggregate_count: usize,
    pub sort_count: usize,
}

/// Number of visits whose node is a scan.
pub open spec fn count_scans(s: Seq<Visit>) -> nat
    decreases s.len(),
{
    if s.len() == 0 {
        0
    } else {
        count_scans(s.drop_last()) + if s.last().0.kind.spec_is_scan() {
            1nat
        } else {
            0nat
        }
    }
}

/// Number of visits whose node is a join.
pub open spec fn count_joins(s: Seq<Visit>) -> nat
    decreases s.len(),
{
    if s.len() == 0 {
        0
    } else {
        count_joins(s.drop_last()) + if s.last().0.kind.spec_is_join() {
            1nat
        } else {
            0nat
        }
    }
}

/// Number of visits whose node is of kind `k`.
pub open spec fn count_kind(s: Seq<Visit>, k: NodeKind) -> nat
    decreases s.len(),
{
    if s.len() == 0 {
        0
    } else {
        count_kind(s.drop_last(), k) + if s.last().0.kind == k {
            1nat
        } else {
            0nat
        }
    }
}

/// Length of the longest path among the visits.
pub open spec fn max_depth(s: Seq<Visit>) -> nat
    decreases s.len(),
{
    if s.len() == 0 {
        0
    } else {
        let m = max_depth(s.drop_last());
        if s.last().1.len() > m {
            s.last().1.len()
        } else {
            m
        }
    }
}

proof fn lemma_counts_bounded(s: Seq<Visit>)
    ensures
        count_scans(s) <= s.len(),
        count_joins(s) <= s.len(),
        count_kind(s, NodeKind::Aggregate) <= s.len(),
        count_kind(s, NodeKind::Sort) <= s.len(),
    decreases s.len(),
{
    if s.len() > 0 {
        lemma_counts_bounded(s.drop_last());
    }
}

/// Computes plan shape metrics and flags deep or large plans.
#[derive(Debug, Clone, Copy)]
pub struct PlanShapeAnalyzer;

impl PlanShapeAnalyzer {
    pub fn new() -> (r: Self) {
        PlanShapeAnalyzer
    }

    /// The structural metrics of `plan`, over the nodes a depth-first walk visits.
    pub fn metrics(&self, plan: &ParsedPlan) -> (r: ShapeMetrics)
        ensures
            r.node_count == plan_preorder(*plan).len(),
            r.max_depth == max_depth(plan_preorder(*plan)),
            r.scan_count == count_scans(plan_preorder(*plan)),
            r.join_count == count_joins(plan_preorder(*plan)),
            r.aggregate_count == count_kind(plan_preorder(*plan), NodeKind::Aggregate),
            r.sort_count == count_kind(plan_preorder(*plan), NodeKind::Sort),
    {
        let visits = PlanTraversal::depth_first_visits(plan);
        let ghost pre = plan_preorder(*plan);
        let mut m = ShapeMetrics {
            node_count: 0,
            max_depth: 0,
            scan_count: 0,
            join_count: 0,
            aggregate_count: 0,
            sort_count: 0,
        };
        let mut i: usize = 0;
        while i < visits.len()
            invariant
                i <= visits@.len(),
                entry_visits(visits@) == pre,
                pre == plan_preorder(*plan),
                m.node_count == i,
                m.max_depth == max_depth(pre.take(i as int)),
                m.scan_count == count_scans(pre.take(i as int)),
                m.join_count == count_joins(pre.take(i as int)),
                m.aggregate_count == count_kind(pre.take(i as int), NodeKind::Aggregate),
                m.sort_count == count_kind(pre.take(i as int), NodeKind::Sort),
            decreases visits@.len() - i,
        {
            let ghost t = pre.take(i as int + 1);
            assert(t.drop_last() =~= pre.take(i as int));
            assert(t.last() == pre[i as int]);
            proof {
                lemma_counts_bounded(pre.take(i as int));
            }
            let node = visits[i].0;
            let depth = visits[i].1.path.len();
            assert(pre[i as int].1.len() == depth);
            assert(pre[i as int].0 == *node);
            m.node_count = m.node_count + 1;
            if depth > m.max_depth {
                m.max_depth = depth;
            }
            if node.kind.is_scan() {
                m.scan_count = m.scan_count + 1;
            }
            if node.kind.is_join() {
                m.join_count = m.join_count + 1;
            }
            match node.kind {
                NodeKind::Aggregate => m.aggregate_count = m.aggregate_count + 1,
                NodeKind::Sort => m.sort_count = m.sort_count + 1,
                _ => {},
            }
            i = i + 1;
        }
        assert(pre.take(i as int) =~= pre);
        m
    }

    /// Whether the plan is deep or large enough to be flagged as
    /// structurally complex (medium severity).
    pub fn is_complex(&self, m: &ShapeMetrics) -> (r: bool)
        ensures
            r == (m.max_depth > MAX_DEPTH_THRESHOLD || m.node_count >= NODE_COUNT_THRESHOLD),
    {
        m.max_depth > MAX_DEPTH_THRESHOLD || m.node_count >= NODE_COUNT_THRESHOLD
    }
}


/// Plans cheaper than 1,000 cost units are not examined for dominance
/// (hundredths of a cost unit).
pub const MIN_PLAN_COST_FOR_DOMINANCE: u64 = 100_000;

/// Sum of the total costs of some nodes.
pub open spec fn total_cost_of(cs: Seq<PlanNode>) -> nat
    decreases cs.len(),
{
    if cs.len() == 0 {
        0
    } else {
        total_cost_of(cs.drop_last()) + (cs.last().total_cost as nat)
    }
}

/// A node's own cost: its total cost less its children's, and zero when the
/// children cost more.
pub open spec fn self_cost(n: PlanNode) -> u64 {
    if n.total_cost >= total_cost_of(n.children@) {
        (n.total_cost - total_cost_of(n.children@)) as u64
    } else {
        0
    }
}

/// (largest self cost, index of the first visit that has it) over some
/// visits; a self cost of zero names no visit.
pub open spec fn dominant_of(s: Seq<Visit>) -> (u64, Option<int>)
    decreases s.len(),
{
    if s.len() == 0 {
        (0, None)
    } else {
        let p = dominant_of(s.drop_last());
        let c = self_cost(s.last().0);
        if c > p.0 {
            (c, Some(s.len() - 1))
        } else {
            p
        }
    }
}

/// Whether one node dominates the plan: at least two nodes, a plan cost above
/// 1,000 units, and a self cost of at least seven tenths of it.
pub open spec fn dominance_flagged(node_count: nat, plan_cost: u64, max_self_cost: u64) -> bool {
    node_count >= 2 && plan_cost > MIN_PLAN_COST_FOR_DOMINANCE && 10 * max_self_cost >= 7 * plan_cost
}

/// The costliest node of a plan by self cost.
#[derive(Debug, Clone, Copy, PartialEq, Eq)]
pub struct Dominance {
    pub max_self_cost: u64,
    /// Position of that node in the post-order walk (the order in which the
    /// depth-first walk visits nodes), when its self cost is positive; the
    /// first such node wins a tie.
    pub dominant_index: Option<usize>,
    /// Whether it dominates the plan (medium severity).
    pub flagged: bool,
}

fn children_cost(node: &PlanNode) -> (r: u128)
    ensures
        r == total_cost_of(node.children@),
{
    let mut sum: u128 = 0;
    let mut i: usize = 0;
    while i < node.children.len()
        invariant
            i <= node.children@.len(),
            sum == total_cost_of(node.children@.take(i as int)),
            sum <= i * (u64::MAX as int),
        decreases node.children@.len() - i,
    {
        let ghost t = node.children@.take(i as int + 1);
        assert(t.drop_last() =~= node.children@.take(i as int));
        assert(i * (u64::MAX as int) + u64::MAX == (i + 1) * (u64::MAX as int)) by (nonlinear_arith);
        assert((i + 1) * (u64::MAX as int) <= usize::MAX * (u64::MAX as int)) by (nonlinear_arith)
            requires
                i + 1 <= usize::MAX,
        ;
        sum = sum + node.children[i].total_cost as u128;
        i = i + 1;
    }
    assert(node.children@.take(i as int) =~= node.children@);
    sum
}

fn node_self_cost(node: &PlanNode) -> (r: u64)
    ensures
        r == self_cost(*node),
{
    let c = children_cost(node);
    if (node.total_cost as u128) >= c {
        ((node.total_cost as u128) - c) as u64
    } else {
        0
    }
}

impl PlanShapeAnalyzer {
    /// The node with the largest self cost, and whether it dominates the
    /// plan's (root) total cost.
    pub fn dominance(&self, plan: &ParsedPlan) -> (r: Dominance)
        ensures
            r.max_self_cost == dominant_of(plan_postorder(*plan)).0,
            r.dominant_index matches Some(i) ==> dominant_of(plan_postorder(*plan)).1 == Some(i as int),
            r.dominant_index is None ==> dominant_of(plan_postorder(*plan)).1 is None,
            r.flagged == dominance_flagged(
                plan_preorder(*plan).len(),
                plan.root.total_cost,
                dominant_of(plan_postorder(*plan)).0,
            ),
    {
        let visits = PlanTraversal::post_order_visits(plan);
        let ghost pre = plan_postorder(*plan);
        let mut best: u64 = 0;
        let mut best_index: Option<usize> = None;
        let mut i: usize = 0;
        while i < visits.len()
            invariant
                i <= visits@.len(),
                entry_visits(visits@) == pre,
                best == dominant_of(pre.take(i as int)).0,
                best_index matches Some(k) ==> dominant_of(pre.take(i as int)).1 == Some(k as int),
                best_index is None ==> dominant_of(pre.take(i as int)).1 is None,
            decreases visits@.len() - i,
        {
            let ghost t = pre.take(i as int + 1);
            assert(t.drop_last() =~= pre.take(i as int));
            assert(t.last() == pre[i as int]);
            let node = visits[i].0;
            assert(pre[i as int].0 == *node);
            let c = node_self_cost(node);
            if c > best {
                best = c;
                best_index = Some(i);
            }
            i = i + 1;
        }
        assert(pre.take(i as int) =~= pre);
        proof {
            lemma_postorder_len(plan.root, Seq::empty(), root_description());
        }
        let n = visits.len();
        let plan_cost = plan.root.total_cost;
        let flagged = n >= 2 && plan_cost > MIN_PLAN_COST_FOR_DOMINANCE && 10 * (best as u128) >= 7
            * (plan_cost as u128);
        Dominance { max_self_cost: best, dominant_index: best_index, flagged }
    }
}

} // verus!
