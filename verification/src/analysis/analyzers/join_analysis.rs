//! Join rules. A nested loop is judged by the worse of its row and cost
//! severities; a merge join by its cost; a hash join becomes a spill
//! candidate when its row count is critical or its cost is high on more than
//! a million rows, and is then judged by how far its estimated hash table
//! exceeds work_mem. Costs are in hundredths of a cost unit.
use vstd::prelude::*;
use crate::analysis::Severity;
use crate::analysis::consolidated_config::{ThresholdLevels, WorkloadContext, cost_levels, level_of, row_count_levels};
use crate::analysis::traversal::{PlanTraversal, Visit, entry_visits, plan_preorder};
use crate::plan::{NodeKind, ParsedPlan, PlanNode};

verus! {

/// The more severe of two severities.
pub open spec fn worse(a: Severity, b: Severity) -> Severity {
    if a.spec_rank() >= b.spec_rank() {
        a
    } else {
        b
    }
}

/// The more severe of two severities.
pub fn worse_of(a: Severity, b: Severity) -> (r: Severity)
    ensures
        r == worse(a, b),
{
    if a.rank() >= b.rank() {
        a
    } else {
        b
    }
}

/// `s` when it is high or critical.
pub open spec fn serious(s: Severity) -> Option<Severity> {
    if s == Severity::High || s == Severity::Critical {
        Some(s)
    } else {
        None
    }
}

/// Severity of a nested loop of `rows` rows and cost `cost`, when reported.
pub open spec fn nested_loop_severity(
    rows_at: ThresholdLevels<u64>,
    costs_at: ThresholdLevels<u64>,
    rows: u64,
    cost: u64,
) -> Option<Severity> {
    serious(worse(level_of(rows_at, rows), level_of(costs_at, cost)))
}

/// Whether a hash join of `rows` rows and cost `cost` is examined for memory
/// pressure.
pub open spec fn hash_join_spill_candidate(
    rows_at: ThresholdLevels<u64>,
    costs_at: ThresholdLevels<u64>,
    rows: u64,
    cost: u64,
) -> bool {
    level_of(rows_at, rows) == Severity::Critical || (serious(level_of(costs_at, cost)) is Some
        && rows > 1_000_000)
}

/// Twice the bytes of a hash table of `rows` rows of `width` bytes: the row
/// data, 24 bytes of entry overhead per row, and 8 bytes for each of
/// `max(1.5 * rows, 1024)` buckets.
pub open spec fn hash_table_bytes_doubled(rows: int, width: int) -> int {
    2 * (rows * width) + 48 * rows + 8 * (if 3 * rows >= 2048 {
        3 * rows
    } else {
        2048
    })
}

/// The hash-join memory estimate in kB, times `102_400_000 / 11`: the table
/// with 12% for alignment and fragmentation, plus 1 kB of batch overhead for
/// every ten thousand rows (at least 1 kB); the estimate itself adds a
/// further 10% safety margin.
pub open spec fn hash_memory_scaled(rows: int, width: int) -> int {
    5600 * hash_table_bytes_doubled(rows, width) + 1024 * (if rows >= 10000 {
        rows
    } else {
        10000
    })
}

/// The hash-join memory estimate in kB, as an exact fraction
/// `hash_memory_numerator / HASH_MEMORY_DENOMINATOR`.
pub open spec fn hash_memory_numerator(rows: int, width: int) -> int {
    11 * hash_memory_scaled(rows, width)
}

/// Denominator of the memory estimate in kB.
pub const HASH_MEMORY_DENOMINATOR: u128 = 102_400_000;

/// Severity of the memory pressure of a hash table of `rows` rows of `width`
/// bytes under `work_mem_kb`: with the estimate `m` kB, critical when
/// `m > 20 * work_mem`, high when above 5 times, medium above twice, low
/// above 1.2 times, and nothing otherwise.
pub open spec fn hash_pressure_severity(rows: int, width: int, work_mem_kb: int) -> Option<Severity> {
    let m = hash_memory_numerator(rows, width);
    let w = HASH_MEMORY_DENOMINATOR * work_mem_kb;
    if m > 20 * w {
        Some(Severity::Critical)
    } else if m > 5 * w {
        Some(Severity::High)
    } else if m > 2 * w {
        Some(Severity::Medium)
    } else if 5 * m > 6 * w {
        Some(Severity::Low)
    } else {
        None
    }
}

/// Rank of an optional severity, with no finding below every severity.
pub open spec fn pressure_rank(s: Option<Severity>) -> int {
    match s {
        Some(v) => v.spec_rank() as int + 1,
        None => 0,
    }
}

/// The smaller of two numbers.
pub open spec fn smaller(a: int, b: int) -> int {
    if a <= b {
        a
    } else {
        b
    }
}

/// Rows and width of the `i`-th input of `node`: none and a hundred bytes
/// where the input is missing.
pub open spec fn input_shape(node: PlanNode, i: int) -> (int, int) {
    if i < node.children@.len() {
        (node.children@[i].estimated_rows as int, node.children@[i].estimated_width as int)
    } else {
        (0, 100)
    }
}

/// Exact numerator of the hash-join memory estimate (see
/// [`hash_memory_numerator`]).
fn hash_memory_numerator_of(rows: u64, width: u32) -> (r: u128)
    ensures
        r == hash_memory_numerator(rows as int, width as int),
        r < 0x0100_0000_0000_0000_0000_0000_0000_0000,
{
    let r = rows as u128;
    let w = width as u128;
    assert(r * w <= 0xffff_ffff_ffff_ffff * 0xffff_ffff) by (nonlinear_arith)
        requires
            r <= 0xffff_ffff_ffff_ffff,
            w <= 0xffff_ffff,
    ;
    let buckets: u128 = if 3 * r >= 2048 {
        3 * r
    } else {
        2048
    };
    let doubled = 2 * (r * w) + 48 * r + 8 * buckets;
    let batches: u128 = if r >= 10000 {
        r
    } else {
        10000
    };
    11 * (5600 * doubled + 1024 * batches)
}

/// Estimated memory in kB of a hash join whose smaller input has
/// `hash_side_rows` rows, with the narrower of the two input widths,
/// rounded down to a whole kB.
pub fn estimate_hash_join_memory_kb(hash_side_rows: u64, left_width: u32, right_width: u32) -> (r: u128)
    ensures
        r == hash_memory_numerator(hash_side_rows as int, smaller(left_width as int, right_width as int))
            / HASH_MEMORY_DENOMINATOR as int,
{
    let width = if left_width <= right_width {
        left_width
    } else {
        right_width
    };
    hash_memory_numerator_of(hash_side_rows, width) / HASH_MEMORY_DENOMINATOR
}

/// Severity of the memory pressure of a hash join whose smaller input has
/// `hash_side_rows` rows, under `work_mem_kb` (see [`hash_pressure_severity`]).
pub fn hash_join_pressure(hash_side_rows: u64, left_width: u32, right_width: u32, work_mem_kb: u64) -> (r:
    Option<Severity>)
    ensures
        r == hash_pressure_severity(
            hash_side_rows as int,
            smaller(left_width as int, right_width as int),
            work_mem_kb as int,
        ),
{
    let width = if left_width <= right_width {
        left_width
    } else {
        right_width
    };
    let m = hash_memory_numerator_of(hash_side_rows, width);
    let w = HASH_MEMORY_DENOMINATOR * (work_mem_kb as u128);
    if m > 20 * w {
        Some(Severity::Critical)
    } else if m > 5 * w {
        Some(Severity::High)
    } else if m > 2 * w {
        Some(Severity::Medium)
    } else if 5 * m > 6 * w {
        Some(Severity::Low)
    } else {
        None
    }
}

/// More work_mem never makes the memory pressure of a hash join more severe.
pub proof fn lemma_pressure_eases_with_work_mem(rows: int, width: int, w1: int, w2: int)
    requires
        0 <= w1 <= w2,
    ensures
        pressure_rank(hash_pressure_severity(rows, width, w2)) <= pressure_rank(
            hash_pressure_severity(rows, width, w1),
        ),
{
}

/// A hash join over more rows is never judged under less memory pressure.
pub proof fn lemma_pressure_grows_with_rows(r1: int, r2: int, width: int, work_mem_kb: int)
    requires
        0 <= r1 <= r2,
        0 <= width,
        0 <= work_mem_kb,
    ensures
        hash_memory_numerator(r1, width) <= hash_memory_numerator(r2, width),
        pressure_rank(hash_pressure_severity(r1, width, work_mem_kb)) <= pressure_rank(
            hash_pressure_severity(r2, width, work_mem_kb),
        ),
{
    assert(r1 * width <= r2 * width) by (nonlinear_arith)
        requires
            0 <= r1 <= r2,
            0 <= width,
    ;
}

/// What the join rules make of one node.
#[derive(Debug, Clone, Copy, PartialEq, Eq)]
pub struct JoinVerdict {
    /// Severity of a large nested loop, when reported.
    pub large_nested_loop: Option<Severity>,
    /// Severity of a high-cost merge join, when reported.
    pub costly_merge_join: Option<Severity>,
    /// A hash join to examine for memory pressure.
    pub hash_spill_candidate: bool,
}

/// Counts over the join nodes of a plan.
#[derive(Debug, Clone, Copy, PartialEq, Eq)]
pub struct JoinTally {
    /// Join nodes of any algorithm.
    pub nodes_analyzed: usize,
    pub nested_loops: usize,
    pub hash_joins: usize,
    pub merge_joins: usize,
    /// Nested loops reported as large.
    pub large_joins: usize,
    /// Merge joins of high cost, and hash joins examined for memory pressure.
    pub ineffective_joins: usize,
    /// Largest row estimate of a nested loop.
    pub max_join_rows: u64,
}

/// The join counts of some visits: (join nodes, nested loops, hash joins,
/// merge joins, large nested loops, ineffective joins, largest nested-loop
/// row estimate).
pub open spec fn join_tally(
    rows_at: ThresholdLevels<u64>,
    costs_at: ThresholdLevels<u64>,
    s: Seq<Visit>,
) -> (nat, nat, nat, nat, nat, nat, u64)
    decreases s.len(),
{
    if s.len() == 0 {
        (0, 0, 0, 0, 0, 0, 0)
    } else {
        let t = join_tally(rows_at, costs_at, s.drop_last());
        let n = s.last().0;
        match n.kind {
            NodeKind::NestedLoop => (
                t.0 + 1,
                t.1 + 1,
                t.2,
                t.3,
                t.4 + if nested_loop_severity(rows_at, costs_at, n.estimated_rows, n.total_cost) is Some {
                    1nat
                } else {
                    0nat
                },
                t.5,
                if n.estimated_rows > t.6 {
                    n.estimated_rows
                } else {
                    t.6
                },
            ),
            NodeKind::HashJoin => (
                t.0 + 1,
                t.1,
                t.2 + 1,
                t.3,
                t.4,
                t.5 + if hash_join_spill_candidate(rows_at, costs_at, n.estimated_rows, n.total_cost) {
                    1nat
                } else {
                    0nat
                },
                t.6,
            ),
            NodeKind::MergeJoin => (
                t.0 + 1,
                t.1,
                t.2,
                t.3 + 1,
                t.4,
                t.5 + if serious(level_of(costs_at, n.total_cost)) is Some {
                    1nat
                } else {
                    0nat
                },
                t.6,
            ),
            _ => t,
        }
    }
}

proof fn lemma_join_tally_bounded(rows_at: ThresholdLevels<u64>, costs_at: ThresholdLevels<u64>, s: Seq<Visit>)
    ensures
        join_tally(rows_at, costs_at, s).0 <= s.len(),
        join_tally(rows_at, costs_at, s).1 + join_tally(rows_at, costs_at, s).2 + join_tally(
            rows_at,
            costs_at,
            s,
        ).3 == join_tally(rows_at, costs_at, s).0,
        join_tally(rows_at, costs_at, s).4 <= join_tally(rows_at, costs_at, s).1,
        join_tally(rows_at, costs_at, s).5 <= join_tally(rows_at, costs_at, s).2 + join_tally(
            rows_at,
            costs_at,
            s,
        ).3,
    decreases s.len(),
{
    if s.len() > 0 {
        lemma_join_tally_bounded(rows_at, costs_at, s.drop_last());
    }
}

/// Applies the join rules against row and cost threshold levels.
#[derive(Debug, Clone, Copy)]
pub struct JoinAnalyzer {
    row_levels: ThresholdLevels<u64>,
    cost_levels: ThresholdLevels<u64>,
}

impl JoinAnalyzer {
    pub closed spec fn rows_at(self) -> ThresholdLevels<u64> {
        self.row_levels
    }

    pub closed spec fn costs_at(self) -> ThresholdLevels<u64> {
        self.cost_levels
    }

    /// An analyser judging rows by `row_levels` and costs by `cost_levels`.
    pub fn with_levels(row_levels: ThresholdLevels<u64>, cost_levels: ThresholdLevels<u64>) -> (r: Self)
        ensures
            r.rows_at() == row_levels,
            r.costs_at() == cost_levels,
    {
        JoinAnalyzer { row_levels, cost_levels }
    }

    /// The analyser of the default configuration: a mixed workload on a
    /// medium database with a balanced target.
    pub fn new() -> (r: Self)
        ensures
            r.rows_at() == (ThresholdLevels::<u64> { low: 10_000, medium: 100_000, high: 1_000_000, critical: 10_000_000 }),
            r.costs_at() == (ThresholdLevels::<u64> { low: 100_000, medium: 1_000_000, high: 10_000_000, critical: 100_000_000 }),
    {
        let w = WorkloadContext::default();
        Self::with_levels(row_count_levels(&w), cost_levels(&w))
    }

    /// The nested-loop rule.
    pub fn nested_loop(&self, rows: u64, cost: u64) -> (r: Option<Severity>)
        ensures
            r == nested_loop_severity(self.rows_at(), self.costs_at(), rows, cost),
    {
        let s = worse_of(self.row_levels.classify(&rows), self.cost_levels.classify(&cost));
        match s {
            Severity::High | Severity::Critical => Some(s),
            _ => None,
        }
    }

    /// The merge-join rule: its cost severity, when high or critical.
    pub fn merge_join(&self, cost: u64) -> (r: Option<Severity>)
        ensures
            r == serious(level_of(self.costs_at(), cost)),
    {
        let s = self.cost_levels.classify(&cost);
        match s {
            Severity::High | Severity::Critical => Some(s),
            _ => None,
        }
    }

    /// The hash-join candidate rule.
    pub fn hash_join_candidate(&self, rows: u64, cost: u64) -> (r: bool)
        ensures
            r == hash_join_spill_candidate(self.rows_at(), self.costs_at(), rows, cost),
    {
        let critical_rows = match self.row_levels.classify(&rows) {
            Severity::Critical => true,
            _ => false,
        };
        let high_cost = match self.cost_levels.classify(&cost) {
            Severity::High | Severity::Critical => true,
            _ => false,
        };
        critical_rows || (high_cost && rows > 1_000_000)
    }

    /// The rule for the node's join algorithm, judged by its estimated rows
    /// and total cost.
    pub fn assess_node(&self, node: &PlanNode) -> (r: JoinVerdict)
        ensures
            r.large_nested_loop == if node.kind == NodeKind::NestedLoop {
                nested_loop_severity(self.rows_at(), self.costs_at(), node.estimated_rows, node.total_cost)
            } else {
                None
            },
            r.costly_merge_join == if node.kind == NodeKind::MergeJoin {
                serious(level_of(self.costs_at(), node.total_cost))
            } else {
                None
            },
            r.hash_spill_candidate == (node.kind == NodeKind::HashJoin && hash_join_spill_candidate(
                self.rows_at(),
                self.costs_at(),
                node.estimated_rows,
                node.total_cost,
            )),
    {
        let mut v = JoinVerdict { large_nested_loop: None, costly_merge_join: None, hash_spill_candidate: false };
        match node.kind {
            NodeKind::NestedLoop => v.large_nested_loop = self.nested_loop(node.estimated_rows, node.total_cost),
            NodeKind::MergeJoin => v.costly_merge_join = self.merge_join(node.total_cost),
            NodeKind::HashJoin => v.hash_spill_candidate = self.hash_join_candidate(
                node.estimated_rows,
                node.total_cost,
            ),
            _ => {},
        }
        v
    }

    /// Counts the join nodes of the plan by algorithm and by what the rules
    /// make of them.
    pub fn tally(&self, plan: &ParsedPlan) -> (r: JoinTally)
        ensures
            (
                r.nodes_analyzed as nat,
                r.nested_loops as nat,
                r.hash_joins as nat,
                r.merge_joins as nat,
                r.large_joins as nat,
                r.ineffective_joins as nat,
                r.max_join_rows,
            ) == join_tally(self.rows_at(), self.costs_at(), plan_preorder(*plan)),
    {
        let visits = PlanTraversal::depth_first_visits(plan);
        let ghost pre = plan_preorder(*plan);
        let mut r = JoinTally {
            nodes_analyzed: 0,
            nested_loops: 0,
            hash_joins: 0,
            merge_joins: 0,
            large_joins: 0,
            ineffective_joins: 0,
            max_join_rows: 0,
        };
        let mut i: usize = 0;
        while i < visits.len()
            invariant
                i <= visits@.len(),
                entry_visits(visits@) == pre,
                (
                    r.nodes_analyzed as nat,
                    r.nested_loops as nat,
                    r.hash_joins as nat,
                    r.merge_joins as nat,
                    r.large_joins as nat,
                    r.ineffective_joins as nat,
                    r.max_join_rows,
                ) == join_tally(self.rows_at(), self.costs_at(), pre.take(i as int)),
            decreases visits@.len() - i,
        {
            let ghost t = pre.take(i as int + 1);
            assert(t.drop_last() =~= pre.take(i as int));
            assert(t.last() == pre[i as int]);
            proof {
                lemma_join_tally_bounded(self.rows_at(), self.costs_at(), pre.take(i as int));
            }
            let node = visits[i].0;
            assert(pre[i as int].0 == *node);
            match node.kind {
                NodeKind::NestedLoop => {
                    r.nodes_analyzed = r.nodes_analyzed + 1;
                    r.nested_loops = r.nested_loops + 1;
                    if self.nested_loop(node.estimated_rows, node.total_cost).is_some() {
                        r.large_joins = r.large_joins + 1;
                    }
                    if node.estimated_rows > r.max_join_rows {
                        r.max_join_rows = node.estimated_rows;
                    }
                },
                NodeKind::HashJoin => {
                    r.nodes_analyzed = r.nodes_analyzed + 1;
                    r.hash_joins = r.hash_joins + 1;
                    if self.hash_join_candidate(node.estimated_rows, node.total_cost) {
                        r.ineffective_joins = r.ineffective_joins + 1;
                    }
                },
                NodeKind::MergeJoin => {
                    r.nodes_analyzed = r.nodes_analyzed + 1;
                    r.merge_joins = r.merge_joins + 1;
                    if self.merge_join(node.total_cost).is_some() {
                        r.ineffective_joins = r.ineffective_joins + 1;
                    }
                },
                _ => {},
            }
            i = i + 1;
        }
        assert(pre.take(i as int) =~= pre);
        r
    }

    /// The memory-pressure severity of a hash join node: its hash table is
    /// built from the smaller of its two inputs, with the narrower width (a
    /// missing input counts as no rows of a hundred bytes).
    pub fn hash_join_memory_pressure(&self, node: &PlanNode, work_mem_kb: u64) -> (r: Option<Severity>)
        ensures
            r == hash_pressure_severity(
                smaller(input_shape(*node, 0).0, input_shape(*node, 1).0),
                smaller(input_shape(*node, 0).1, input_shape(*node, 1).1),
                work_mem_kb as int,
            ),
    {
        let (left_rows, left_width) = if node.children.len() > 0 {
            (node.children[0].estimated_rows, node.children[0].estimated_width)
        } else {
            (0, 100)
        };
        let (right_rows, right_width) = if node.children.len() > 1 {
            (node.children[1].estimated_rows, node.children[1].estimated_width)
        } else {
            (0, 100)
        };
        let rows = if left_rows <= right_rows {
            left_rows
        } else {
            right_rows
        };
        hash_join_pressure(rows, left_width, right_width, work_mem_kb)
    }
}

/// A costlier nested loop is never reported less severely.
pub proof fn lemma_nested_loop_monotone_in_cost(
    rows_at: ThresholdLevels<u64>,
    costs_at: ThresholdLevels<u64>,
    rows: u64,
    c1: u64,
    c2: u64,
)
    requires
        costs_at.critical >= costs_at.high >= costs_at.medium,
        c1 <= c2,
    ensures
        nested_loop_severity(rows_at, costs_at, rows, c1) is Some ==> nested_loop_severity(
            rows_at,
            costs_at,
            rows,
            c2,
        ) is Some,
        worse(level_of(rows_at, rows), level_of(costs_at, c1)).spec_rank() <= worse(
            level_of(rows_at, rows),
            level_of(costs_at, c2),
        ).spec_rank(),
{
}

/// The join rules, stated from the levels that rows and cost earn: a nested
/// loop is reported with the more severe of the two when that is high or
/// critical; a hash join is examined for memory pressure when its rows are
/// critical, or its cost high or critical with more than a million rows; the
/// memory pressure of an estimate of `m / 102,400,000` kB under `w` kB of
/// work_mem is critical above 20 times `w`, high above 5 times, medium above
/// twice, low above 1.2 times, and none otherwise.
pub proof fn lemma_join_rules(
    rows_at: ThresholdLevels<u64>,
    costs_at: ThresholdLevels<u64>,
    rows: u64,
    cost: u64,
    hash_rows: int,
    width: int,
    work_mem_kb: int,
)
    ensures
        ({
            let r = level_of(rows_at, rows);
            let c = level_of(costs_at, cost);
            let top = if r.spec_rank() >= c.spec_rank() {
                r
            } else {
                c
            };
            nested_loop_severity(rows_at, costs_at, rows, cost) == if top.spec_rank() >= 2 {
                Some(top)
            } else {
                None
            }
        }),
        hash_join_spill_candidate(rows_at, costs_at, rows, cost) <==> level_of(rows_at, rows)
            == Severity::Critical || (level_of(costs_at, cost).spec_rank() >= 2 && rows > 1_000_000),
        ({
            let m = hash_memory_numerator(hash_rows, width);
            let w = 102_400_000 * work_mem_kb;
            &&& (hash_pressure_severity(hash_rows, width, work_mem_kb) == Some(Severity::Critical) <==> m > 20 * w)
            &&& (hash_pressure_severity(hash_rows, width, work_mem_kb) == Some(Severity::High) <==> 5 * w < m
                <= 20 * w)
            &&& (hash_pressure_severity(hash_rows, width, work_mem_kb) == Some(Severity::Medium) <==> 2 * w
                < m <= 5 * w && m <= 20 * w)
            &&& (hash_pressure_severity(hash_rows, width, work_mem_kb) == Some(Severity::Low) <==> 6 * w < 5
                * m && m <= 2 * w && m <= 5 * w && m <= 20 * w)
            &&& (hash_pressure_severity(hash_rows, width, work_mem_kb) is None <==> 5 * m <= 6 * w && m <= 2
                * w && m <= 5 * w && m <= 20 * w)
        }),
{
}

} // verus!
