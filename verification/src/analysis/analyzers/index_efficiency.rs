//! Two concretely fixable index inefficiencies: an index-only scan that does
//! many heap fetches (stale visibility map), and a bitmap heap scan that went
//! lossy (the bitmap exceeded `work_mem`).
use vstd::prelude::*;
use crate::analysis::Severity;
use crate::analysis::traversal::{PlanTraversal, Visit, entry_visits, plan_preorder};
use crate::plan::{ParsedPlan, PlanNode, lookup};
use crate::text::parse_u64_spec;

verus! {

/// Minimum heap fetches before an index-only scan is worth flagging.
pub const MIN_HEAP_FETCHES: u64 = 1_000;

/// Minimum absolute lossy bitmap blocks before flagging.
pub const MIN_LOSSY_BLOCKS: u64 = 64;

/// Severity of `fetches` heap fetches in an index-only scan, when they are to
/// be flagged: at least 1000 of them, and (when the rows returned are known
/// and nonzero) at least a tenth of those rows.
pub open spec fn heap_fetch_severity(fetches: u64, rows: Option<u64>) -> Option<Severity> {
    let ratio_ok = match rows {
        Some(n) => n == 0 || 10 * fetches >= n,
        None => true,
    };
    if fetches >= MIN_HEAP_FETCHES && ratio_ok {
        Some(
            if fetches >= 100_000 {
                Severity::High
            } else {
                Severity::Medium
            },
        )
    } else {
        None
    }
}

/// Whether `lossy` lossy blocks next to `exact` exact ones are to be flagged:
/// at least 64 lossy blocks, making up at least a twentieth of all blocks.
pub open spec fn lossy_bitmap_flagged(lossy: u64, exact: u64) -> bool {
    lossy >= MIN_LOSSY_BLOCKS && 20 * lossy >= lossy + exact
}

/// What one node's heap-fetch and bitmap counters amount to.
#[derive(Debug, Clone, Copy, PartialEq, Eq)]
pub struct IndexEfficiencyVerdict {
    /// Severity of excessive heap fetches, when they are flagged.
    pub heap_fetches: Option<Severity>,
    /// Whether a lossy bitmap is flagged (medium severity).
    pub lossy_bitmap: bool,
}

/// The number in property `key` of `n`, zero when absent or not a number.
pub open spec fn counter(n: PlanNode, key: Seq<char>) -> nat {
    match lookup(n.properties@, key) {
        Some(v) => match parse_u64_spec(v) {
            Some(c) => c as nat,
            None => 0,
        },
        None => 0,
    }
}

/// Totals over the nodes of a plan.
#[derive(Debug, Clone, Copy, PartialEq, Eq)]
pub struct IndexEfficiencyTally {
    pub nodes_analyzed: usize,
    pub total_heap_fetches: u128,
    pub total_lossy_blocks: u128,
}

/// (heap fetches, lossy bitmap blocks) summed over some visits.
pub open spec fn index_efficiency_tally(s: Seq<Visit>) -> (nat, nat)
    decreases s.len(),
{
    if s.len() == 0 {
        (0, 0)
    } else {
        let t = index_efficiency_tally(s.drop_last());
        let n = s.last().0;
        (t.0 + counter(n, "Heap Fetches"@), t.1 + counter(n, "Heap Blocks: lossy"@))
    }
}

proof fn lemma_index_efficiency_tally_bounded(s: Seq<Visit>)
    ensures
        index_efficiency_tally(s).0 <= s.len() * (u64::MAX as nat),
        index_efficiency_tally(s).1 <= s.len() * (u64::MAX as nat),
    decreases s.len(),
{
    if s.len() > 0 {
        lemma_index_efficiency_tally_bounded(s.drop_last());
        assert((s.len() - 1) * (u64::MAX as nat) + u64::MAX == s.len() * (u64::MAX as nat)) by (nonlinear_arith)
            requires
                s.len() >= 1,
        ;
    }
}

/// Flags index-only scans with many heap fetches and lossy bitmap scans.
#[derive(Debug, Clone, Copy)]
pub struct IndexEfficiencyAnalyzer;

impl IndexEfficiencyAnalyzer {
    pub fn new() -> (r: Self) {
        IndexEfficiencyAnalyzer
    }

    pub open spec fn verdict_for(
        fetches: Option<u64>,
        rows: Option<u64>,
        lossy: Option<u64>,
        exact: Option<u64>,
    ) -> IndexEfficiencyVerdict {
        IndexEfficiencyVerdict {
            heap_fetches: match fetches {
                Some(f) => heap_fetch_severity(f, rows),
                None => None,
            },
            lossy_bitmap: match lossy {
                Some(l) => lossy_bitmap_flagged(
                    l,
                    match exact {
                        Some(e) => e,
                        None => 0,
                    },
                ),
                None => false,
            },
        }
    }

    /// Applies both rules to a node's `Heap Fetches`, measured rows and
    /// `Heap Blocks: lossy` / `Heap Blocks: exact` counters.
    pub fn assess(
        &self,
        fetches: Option<u64>,
        rows: Option<u64>,
        lossy: Option<u64>,
        exact: Option<u64>,
    ) -> (r: IndexEfficiencyVerdict)
        ensures
            r == Self::verdict_for(fetches, rows, lossy, exact),
    {
        let heap_fetches = match fetches {
            Some(f) => {
                let ratio_ok = match rows {
                    Some(n) => n == 0 || 10 * (f as u128) >= n as u128,
                    None => true,
                };
                if f >= MIN_HEAP_FETCHES && ratio_ok {
                    Some(
                        if f >= 100_000 {
                            Severity::High
                        } else {
                            Severity::Medium
                        },
                    )
                } else {
                    None
                }
            },
            None => None,
        };
        let lossy_bitmap = match lossy {
            Some(l) => {
                let e: u64 = match exact {
                    Some(e) => e,
                    None => 0,
                };
                l >= MIN_LOSSY_BLOCKS && 20 * (l as u128) >= (l as u128) + (e as u128)
            },
            None => false,
        };
        IndexEfficiencyVerdict { heap_fetches, lossy_bitmap }
    }

    pub fn assess_node(&self, node: &PlanNode) -> (r: IndexEfficiencyVerdict)
        ensures
            r == Self::verdict_for(
                match lookup(node.properties@, "Heap Fetches"@) {
                    Some(v) => parse_u64_spec(v),
                    None => None,
                },
                node.actual_rows,
                match lookup(node.properties@, "Heap Blocks: lossy"@) {
                    Some(v) => parse_u64_spec(v),
                    None => None,
                },
                match lookup(node.properties@, "Heap Blocks: exact"@) {
                    Some(v) => parse_u64_spec(v),
                    None => None,
                },
            ),
    {
        let fetches = node.properties.get_u64("Heap Fetches");
        let lossy = node.properties.get_u64("Heap Blocks: lossy");
        let exact = node.properties.get_u64("Heap Blocks: exact");
        self.assess(fetches, node.actual_rows, lossy, exact)
    }

    /// Sums the heap fetches and lossy bitmap blocks of the plan's nodes.
    pub fn tally(&self, plan: &ParsedPlan) -> (r: IndexEfficiencyTally)
        ensures
            r.nodes_analyzed == plan_preorder(*plan).len(),
            (r.total_heap_fetches as nat, r.total_lossy_blocks as nat) == index_efficiency_tally(
                plan_preorder(*plan),
            ),
    {
        let visits = PlanTraversal::depth_first_visits(plan);
        let ghost pre = plan_preorder(*plan);
        let mut r = IndexEfficiencyTally { nodes_analyzed: 0, total_heap_fetches: 0, total_lossy_blocks: 0 };
        let mut i: usize = 0;
        while i < visits.len()
            invariant
                i <= visits@.len(),
                entry_visits(visits@) == pre,
                r.nodes_analyzed == i,
                (r.total_heap_fetches as nat, r.total_lossy_blocks as nat) == index_efficiency_tally(
                    pre.take(i as int),
                ),
            decreases visits@.len() - i,
        {
            let ghost t = pre.take(i as int + 1);
            assert(t.drop_last() =~= pre.take(i as int));
            assert(t.last() == pre[i as int]);
            proof {
                lemma_index_efficiency_tally_bounded(pre.take(i as int));
                assert(i * (u64::MAX as nat) <= usize::MAX * (u64::MAX as nat)) by (nonlinear_arith)
                    requires
                        i <= usize::MAX,
                ;
            }
            let node = visits[i].0;
            assert(pre[i as int].0 == *node);
            let fetches = match node.properties.get_u64("Heap Fetches") {
                Some(f) => f,
                None => 0,
            };
            let lossy = match node.properties.get_u64("Heap Blocks: lossy") {
                Some(l) => l,
                None => 0,
            };
            r.nodes_analyzed = r.nodes_analyzed + 1;
            r.total_heap_fetches = r.total_heap_fetches + fetches as u128;
            r.total_lossy_blocks = r.total_lossy_blocks + lossy as u128;
            i = i + 1;
        }
        assert(pre.take(i as int) =~= pre);
        r
    }
}

/// The index-efficiency rules, stated from the counters: heap fetches of an
/// index-only scan are flagged from 1,000 on when the rows returned are
/// unknown, zero, or at most ten times the fetches, high from 100,000 and
/// medium below; a lossy bitmap is flagged from 64 lossy blocks when they
/// are at least a twentieth of all blocks (exact blocks counting zero when
/// absent).
pub proof fn lemma_index_efficiency_rules(fetches: Option<u64>, rows: Option<u64>, lossy: Option<u64>, exact: Option<u64>)
    ensures
        ({
            let v = IndexEfficiencyAnalyzer::verdict_for(fetches, rows, lossy, exact);
            &&& (v.heap_fetches is Some <==> match fetches {
                Some(f) => f >= 1_000 && match rows {
                    Some(n) => n == 0 || 10 * f >= n,
                    None => true,
                },
                None => false,
            })
            &&& (v.heap_fetches == Some(Severity::High) <==> v.heap_fetches is Some && fetches->0 >= 100_000)
            &&& (v.heap_fetches == Some(Severity::Medium) <==> v.heap_fetches is Some && fetches->0 < 100_000)
            &&& (v.lossy_bitmap <==> match lossy {
                Some(l) => l >= 64 && 20 * l >= l + match exact {
                    Some(e) => e as int,
                    None => 0,
                },
                None => false,
            })
        }),
{
}

} // verus!
