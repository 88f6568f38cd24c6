//! Parallel-query rules: a large sequential operation that PostgreSQL could
//! run in parallel, and a parallel operation that launched fewer than half of
//! its planned workers.
use vstd::prelude::*;
use crate::analysis::Severity;
use crate::analysis::consolidated_config::{ThresholdLevels, WorkloadContext, cost_levels, level_of, row_count_levels};
use crate::analysis::analyzers::join_analysis::{worse, worse_of};
use crate::analysis::traversal::{PlanTraversal, Visit, entry_visits, plan_preorder};
use crate::plan::{NodeKind, ParsedPlan, PlanNode, lookup};
use crate::text::{chars_of, contains_seq, contains_str, parse_u64_spec};

verus! {

/// Whether a node runs in parallel: it reports planned or launched workers,
/// or its description mentions `Parallel` or `Gather`.
pub open spec fn is_parallel_node(n: PlanNode) -> bool {
    ||| lookup(n.properties@, "Workers Planned"@) is Some
    ||| lookup(n.properties@, "Workers Launched"@) is Some
    ||| contains_seq(n.original_text@, "Parallel"@)
    ||| contains_seq(n.original_text@, "Gather"@)
}

/// Whether PostgreSQL can run an operation of this kind in parallel: scans,
/// hash and merge joins, and aggregates.
pub open spec fn parallelizable(kind: NodeKind) -> bool {
    kind.spec_is_scan() || kind == NodeKind::HashJoin || kind == NodeKind::MergeJoin || kind
        == NodeKind::Aggregate
}

/// The worker count in property `key`, zero when absent or not a number.
pub open spec fn worker_count(n: PlanNode, key: Seq<char>) -> u64 {
    match lookup(n.properties@, key) {
        Some(v) => match parse_u64_spec(v) {
            Some(c) => c,
            None => 0,
        },
        None => 0,
    }
}

/// What the parallel-query rules make of one node.
#[derive(Debug, Clone, Copy, PartialEq, Eq)]
pub struct ParallelVerdict {
    /// The node runs in parallel.
    pub parallel: bool,
    /// Severity of a missed parallelisation opportunity, when reported.
    pub missed: Option<Severity>,
    /// Fewer than half of the planned workers were launched (medium severity).
    pub inefficient: bool,
}

/// The verdict on a node judged by row and cost threshold levels.
pub open spec fn parallel_verdict(rows_at: ThresholdLevels<u64>, costs_at: ThresholdLevels<u64>, n: PlanNode) -> ParallelVerdict {
    let parallel = is_parallel_node(n);
    let s = worse(level_of(rows_at, n.estimated_rows), level_of(costs_at, n.total_cost));
    let planned = worker_count(n, "Workers Planned"@);
    let launched = worker_count(n, "Workers Launched"@);
    ParallelVerdict {
        parallel,
        missed: if !parallel && (s == Severity::High || s == Severity::Critical) && parallelizable(n.kind) {
            Some(s)
        } else {
            None
        },
        inefficient: parallel && launched > 0 && planned > 0 && 2 * launched < planned,
    }
}

/// Counts over the nodes of a plan.
#[derive(Debug, Clone, Copy, PartialEq, Eq)]
pub struct ParallelTally {
    pub nodes_analyzed: usize,
    pub parallel_operations: usize,
    pub sequential_operations: usize,
    /// Sequential operations reported as missed opportunities.
    pub missed_opportunities: usize,
    /// Parallel operations that launched too few workers.
    pub inefficient_parallelism: usize,
}

/// (parallel, sequential, missed, inefficient) among some visits.
pub open spec fn parallel_tally(rows_at: ThresholdLevels<u64>, costs_at: ThresholdLevels<u64>, s: Seq<Visit>) -> (
    nat,
    nat,
    nat,
    nat,
)
    decreases s.len(),
{
    if s.len() == 0 {
        (0, 0, 0, 0)
    } else {
        let t = parallel_tally(rows_at, costs_at, s.drop_last());
        let v = parallel_verdict(rows_at, costs_at, s.last().0);
        (
            t.0 + if v.parallel {
                1nat
            } else {
                0nat
            },
            t.1 + if v.parallel {
                0nat
            } else {
                1nat
            },
            t.2 + if v.missed is Some {
                1nat
            } else {
                0nat
            },
            t.3 + if v.inefficient {
                1nat
            } else {
                0nat
            },
        )
    }
}

proof fn lemma_parallel_tally_bounded(rows_at: ThresholdLevels<u64>, costs_at: ThresholdLevels<u64>, s: Seq<Visit>)
    ensures
        parallel_tally(rows_at, costs_at, s).0 + parallel_tally(rows_at, costs_at, s).1 == s.len(),
        parallel_tally(rows_at, costs_at, s).2 <= parallel_tally(rows_at, costs_at, s).1,
        parallel_tally(rows_at, costs_at, s).3 <= parallel_tally(rows_at, costs_at, s).0,
    decreases s.len(),
{
    if s.len() > 0 {
        lemma_parallel_tally_bounded(rows_at, costs_at, s.drop_last());
    }
}

/// Applies the parallel-query rules against row and cost threshold levels
/// (costs in hundredths of a cost unit).
#[derive(Debug, Clone, Copy)]
pub struct ParallelizationAnalyzer {
    row_levels: ThresholdLevels<u64>,
    cost_levels: ThresholdLevels<u64>,
}

impl ParallelizationAnalyzer {
    pub closed spec fn rows_at(self) -> ThresholdLevels<u64> {
        self.row_levels
    }

    pub closed spec fn costs_at(self) -> ThresholdLevels<u64> {
        self.cost_levels
    }

    /// An analyser judging rows by `row_levels` and costs by `cost_levels`.
    pub fn with_levels(row_levels: ThresholdLevels<u64>, cost_levels: ThresholdLevels<u64>) -> (r: Self)
        ensures
            r.rows_at() == row_levels,
            r.costs_at() == cost_levels,
    {
        ParallelizationAnalyzer { row_levels, cost_levels }
    }

    /// The analyser of the default configuration: a mixed workload on a
    /// medium database with a balanced target.
    pub fn new() -> (r: Self)
        ensures
            r.rows_at() == (ThresholdLevels::<u64> { low: 10_000, medium: 100_000, high: 1_000_000, critical: 10_000_000 }),
            r.costs_at() == (ThresholdLevels::<u64> { low: 100_000, medium: 1_000_000, high: 10_000_000, critical: 100_000_000 }),
    {
        let w = WorkloadContext::default();
        Self::with_levels(row_count_levels(&w), cost_levels(&w))
    }

    /// Whether `node` runs in parallel.
    pub fn is_parallel(&self, node: &PlanNode) -> (r: bool)
        ensures
            r == is_parallel_node(*node),
    {
        let text = chars_of(node.original_text.as_str());
        node.get_property("Workers Planned").is_some() || node.get_property("Workers Launched").is_some()
            || contains_str(text.as_slice(), "Parallel") || contains_str(text.as_slice(), "Gather")
    }

    fn workers(node: &PlanNode, key: &str) -> (r: u64)
        ensures
            r == worker_count(*node, key@),
    {
        match node.properties.get_u64(key) {
            Some(c) => c,
            None => 0,
        }
    }

    /// Both rules on a node, judged by its estimated rows and total cost.
    pub fn assess_node(&self, node: &PlanNode) -> (r: ParallelVerdict)
        ensures
            r == parallel_verdict(self.rows_at(), self.costs_at(), *node),
    {
        let parallel = self.is_parallel(node);
        let s = worse_of(
            self.row_levels.classify(&node.estimated_rows),
            self.cost_levels.classify(&node.total_cost),
        );
        let can_parallelize = node.kind.is_scan() || match node.kind {
            NodeKind::HashJoin | NodeKind::MergeJoin | NodeKind::Aggregate => true,
            _ => false,
        };
        let serious = match s {
            Severity::High | Severity::Critical => true,
            _ => false,
        };
        let missed = if !parallel && serious && can_parallelize {
            Some(s)
        } else {
            None
        };
        let planned = Self::workers(node, "Workers Planned");
        let launched = Self::workers(node, "Workers Launched");
        let inefficient = parallel && launched > 0 && planned > 0 && 2 * (launched as u128) < planned as u128;
        ParallelVerdict { parallel, missed, inefficient }
    }

    /// Counts the nodes of the plan by what the parallel-query rules make of
    /// them.
    pub fn tally(&self, plan: &ParsedPlan) -> (r: ParallelTally)
        ensures
            r.nodes_analyzed == plan_preorder(*plan).len(),
            (
                r.parallel_operations as nat,
                r.sequential_operations as nat,
                r.missed_opportunities as nat,
                r.inefficient_parallelism as nat,
            ) == parallel_tally(self.rows_at(), self.costs_at(), plan_preorder(*plan)),
    {
        let visits = PlanTraversal::depth_first_visits(plan);
        let ghost pre = plan_preorder(*plan);
        let mut r = ParallelTally {
            nodes_analyzed: 0,
            parallel_operations: 0,
            sequential_operations: 0,
            missed_opportunities: 0,
            inefficient_parallelism: 0,
        };
        let mut i: usize = 0;
        while i < visits.len()
            invariant
                i <= visits@.len(),
                entry_visits(visits@) == pre,
                r.nodes_analyzed == i,
                (
                    r.parallel_operations as nat,
                    r.sequential_operations as nat,
                    r.missed_opportunities as nat,
                    r.inefficient_parallelism as nat,
                ) == parallel_tally(self.rows_at(), self.costs_at(), pre.take(i as int)),
            decreases visits@.len() - i,
        {
            let ghost t = pre.take(i as int + 1);
            assert(t.drop_last() =~= pre.take(i as int));
            assert(t.last() == pre[i as int]);
            proof {
                lemma_parallel_tally_bounded(self.rows_at(), self.costs_at(), pre.take(i as int));
            }
            let node = visits[i].0;
            assert(pre[i as int].0 == *node);
            let v = self.assess_node(node);
            r.nodes_analyzed = r.nodes_analyzed + 1;
            if v.parallel {
                r.parallel_operations = r.parallel_operations + 1;
            } else {
                r.sequential_operations = r.sequential_operations + 1;
            }
            if v.missed.is_some() {
                r.missed_opportunities = r.missed_opportunities + 1;
            }
            if v.inefficient {
                r.inefficient_parallelism = r.inefficient_parallelism + 1;
            }
            i = i + 1;
        }
        assert(pre.take(i as int) =~= pre);
        r
    }
}

/// The parallel-query rules, stated from the node: with `s` the worse of the
/// severities its estimated rows and total cost earn, a node that does not
/// run in parallel is a missed opportunity, of severity `s`, exactly when
/// `s` is high or critical and the node is a scan, a hash join, a merge join
/// or an aggregate; a parallel node is inefficient exactly when it launched
/// some workers but fewer than half of the (nonzero) planned ones.
pub proof fn lemma_parallel_rules(rows_at: ThresholdLevels<u64>, costs_at: ThresholdLevels<u64>, n: PlanNode)
    ensures
        ({
            let v = parallel_verdict(rows_at, costs_at, n);
            let r = level_of(rows_at, n.estimated_rows);
            let c = level_of(costs_at, n.total_cost);
            let rank = if r.spec_rank() >= c.spec_rank() {
                r.spec_rank()
            } else {
                c.spec_rank()
            };
            let parallel = {
                ||| lookup(n.properties@, "Workers Planned"@) is Some
                ||| lookup(n.properties@, "Workers Launched"@) is Some
                ||| contains_seq(n.original_text@, "Parallel"@)
                ||| contains_seq(n.original_text@, "Gather"@)
            };
            let kind_ok = n.kind.spec_is_scan() || n.kind == NodeKind::HashJoin || n.kind
                == NodeKind::MergeJoin || n.kind == NodeKind::Aggregate;
            &&& v.parallel == parallel
            &&& (v.missed is Some <==> !parallel && kind_ok && rank >= 2)
            &&& (v.missed is Some ==> v.missed->0.spec_rank() == rank && (v.missed->0 == r || v.missed->0
                == c))
            &&& (v.inefficient <==> parallel && worker_count(n, "Workers Launched"@) > 0 && worker_count(n, "Workers Planned"@) > 0 && 2
                * worker_count(n, "Workers Launched"@) < worker_count(n, "Workers Planned"@))
        }),
{
}

/// A merge join that does not run in parallel and whose rows or cost earn a
/// high or critical severity is reported as a missed parallel opportunity.
pub proof fn lemma_large_merge_join_could_run_in_parallel(
    rows_at: ThresholdLevels<u64>,
    costs_at: ThresholdLevels<u64>,
    n: PlanNode,
)
    requires
        n.kind == NodeKind::MergeJoin,
        !is_parallel_node(n),
        level_of(rows_at, n.estimated_rows).spec_rank() >= 2 || level_of(costs_at, n.total_cost).spec_rank()
            >= 2,
    ensures
        parallel_verdict(rows_at, costs_at, n).missed is Some,
{
    lemma_parallel_rules(rows_at, costs_at, n);
}

} // verus!
