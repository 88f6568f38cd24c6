//! Whole-plan view of planner estimate accuracy: which nodes are off by at
//! least a factor of two, and in which direction; whether that amounts to a
//! systematic skew (judged on the exact average of the misestimate ratios)
//! or to a single outlier.
use vstd::prelude::*;
use crate::analysis::Severity;
use crate::analysis::traversal::{PlanTraversal, Visit, entry_visits, plan_preorder};
use crate::natural::{at_least, from_u64, mul_limb, plus, value};
use crate::plan::ParsedPlan;

verus! {

/// Minimum number of nodes with measured rows before judging a pattern.
pub const MIN_NODES_FOR_PATTERN: usize = 4;

/// Minimum significantly-off nodes before calling the skew systematic.
pub const MIN_SIGNIFICANT_FOR_SYSTEMATIC: usize = 2;

/// Factor by which the one significantly misestimated node of a plan must be
/// off to be reported as an outlier.
pub const OUTLIER_RATIO: u64 = 50;

/// How a node's row estimate compares with the rows it produced.
#[derive(Debug, Clone, Copy, PartialEq, Eq, Structural)]
pub enum EstimateSkew {
    /// Within a factor of two.
    Accurate,
    /// At least twice as many rows came out as were estimated.
    Under,
    /// At least twice as many rows were estimated as came out.
    Over,
}

pub open spec fn at_least_one(n: u64) -> int {
    if n == 0 {
        1
    } else {
        n as int
    }
}

/// Skew of an estimate of `estimated` rows against `actual` rows, both
/// counted as at least one.
pub open spec fn skew_of(estimated: u64, actual: u64) -> EstimateSkew {
    let a = at_least_one(actual);
    let e = at_least_one(estimated);
    if a >= 2 * e {
        EstimateSkew::Under
    } else if e >= 2 * a {
        EstimateSkew::Over
    } else {
        EstimateSkew::Accurate
    }
}

/// Classifies one node's estimate against its measured rows.
pub fn estimate_skew(estimated: u64, actual: u64) -> (r: EstimateSkew)
    ensures
        r == skew_of(estimated, actual),
{
    let a: u128 = if actual == 0 {
        1
    } else {
        actual as u128
    };
    let e: u128 = if estimated == 0 {
        1
    } else {
        estimated as u128
    };
    if a >= 2 * e {
        EstimateSkew::Under
    } else if e >= 2 * a {
        EstimateSkew::Over
    } else {
        EstimateSkew::Accurate
    }
}

/// Whether `estimated` and `actual` rows (each counted as at least one)
/// differ by a factor of at least `k`, either way.
pub open spec fn off_by(estimated: u64, actual: u64, k: int) -> bool {
    let a = at_least_one(actual);
    let e = at_least_one(estimated);
    a >= k * e || e >= k * a
}

/// Whether the `i`-th visit has measured rows that are off from its
/// estimate by at least [`OUTLIER_RATIO`].
pub open spec fn severe_at(s: Seq<Visit>, i: int) -> bool {
    match s[i].0.actual_rows {
        Some(a) => off_by(s[i].0.estimated_rows, a, OUTLIER_RATIO as int),
        None => false,
    }
}

/// Whether an estimate of `estimated` rows is off from `actual` rows by a
/// factor of at least `factor`, each count taken as at least one.
pub fn misestimated_by(estimated: u64, actual: u64, factor: u64) -> (r: bool)
    ensures
        r == off_by(estimated, actual, factor as int),
{
    let a: u128 = if actual == 0 {
        1
    } else {
        actual as u128
    };
    let e: u128 = if estimated == 0 {
        1
    } else {
        estimated as u128
    };
    let k = factor as u128;
    assert(k * e <= 0xffff_ffff_ffff_ffff * 0xffff_ffff_ffff_ffff && k * a <= 0xffff_ffff_ffff_ffff
        * 0xffff_ffff_ffff_ffff) by (nonlinear_arith)
        requires
            k <= 0xffff_ffff_ffff_ffff,
            e <= 0xffff_ffff_ffff_ffff,
            a <= 0xffff_ffff_ffff_ffff,
    ;
    a >= k * e || e >= k * a
}

/// Counts of nodes with measured rows, and of those significantly off in
/// each direction.
#[derive(Debug, Clone, Copy, PartialEq, Eq)]
pub struct EstimateTally {
    pub nodes_with_actuals: usize,
    pub nodes_underestimated: usize,
    pub nodes_overestimated: usize,
}

/// The tally over a list of visits: (with measured rows, under, over).
pub open spec fn tally_of(s: Seq<Visit>) -> (nat, nat, nat)
    decreases s.len(),
{
    if s.len() == 0 {
        (0, 0, 0)
    } else {
        let t = tally_of(s.drop_last());
        let n = s.last().0;
        match n.actual_rows {
            Some(a) => match skew_of(n.estimated_rows, a) {
                EstimateSkew::Under => (t.0 + 1, t.1 + 1, t.2),
                EstimateSkew::Over => (t.0 + 1, t.1, t.2 + 1),
                EstimateSkew::Accurate => (t.0 + 1, t.1, t.2),
            },
            None => t,
        }
    }
}

proof fn lemma_tally_bounded(s: Seq<Visit>)
    ensures
        tally_of(s).0 <= s.len(),
        tally_of(s).1 + tally_of(s).2 <= tally_of(s).0,
    decreases s.len(),
{
    if s.len() > 0 {
        lemma_tally_bounded(s.drop_last());
    }
}

/// Whether a tally of (nodes with measured rows, under, over) can show a
/// systematic skew: at least four nodes with measured rows, at least two
/// significantly off, and at least four in five of those off the same way.
pub open spec fn systematic_shape(with_actuals: nat, under: nat, over: nat) -> bool {
    &&& with_actuals >= MIN_NODES_FOR_PATTERN
    &&& under + over >= MIN_SIGNIFICANT_FOR_SYSTEMATIC
    &&& 5 * (if under >= over {
        under
    } else {
        over
    }) >= 4 * (under + over)
}

/// A node's misestimate as the pair (larger, smaller) of its measured and
/// estimated rows, each taken as at least one: the ratio larger / smaller.
pub open spec fn misestimate_pair(estimated: u64, actual: u64) -> (u64, u64) {
    let a = at_least_one(actual);
    let e = at_least_one(estimated);
    if a >= e {
        (a as u64, e as u64)
    } else {
        (e as u64, a as u64)
    }
}

/// The misestimate pairs of the significantly misestimated nodes among some
/// visits, in order.
pub open spec fn significant_pairs(s: Seq<Visit>) -> Seq<(u64, u64)>
    decreases s.len(),
{
    if s.len() == 0 {
        Seq::empty()
    } else {
        let p = significant_pairs(s.drop_last());
        let n = s.last().0;
        match n.actual_rows {
            Some(a) => if skew_of(n.estimated_rows, a) != EstimateSkew::Accurate {
                p.push(misestimate_pair(n.estimated_rows, a))
            } else {
                p
            },
            None => p,
        }
    }
}

/// The sum of the ratios `larger / smaller` of some pairs, as a fraction
/// (numerator, denominator): the denominator is the product of the smaller
/// values.
pub open spec fn ratio_sum(s: Seq<(u64, u64)>) -> (nat, nat)
    decreases s.len(),
{
    if s.len() == 0 {
        (0, 1)
    } else {
        let p = ratio_sum(s.drop_last());
        let hi = s.last().0 as nat;
        let lo = s.last().1 as nat;
        (p.0 * lo + hi * p.1, p.1 * lo)
    }
}

/// Whether the ratios of some pairs add up to at least `c`.
pub open spec fn ratio_sum_at_least(s: Seq<(u64, u64)>, c: nat) -> bool {
    ratio_sum(s).0 >= c * ratio_sum(s).1
}

/// The systematic-skew finding of a plan, given its visits: raised when the
/// tally has a systematic shape and the significantly misestimated nodes are
/// off by a factor of at least 3 on average, of high severity from an
/// average of 10.
pub open spec fn systematic_severity_of(s: Seq<Visit>) -> Option<Severity> {
    let t = tally_of(s);
    let k = t.1 + t.2;
    let pairs = significant_pairs(s);
    if systematic_shape(t.0, t.1, t.2) && ratio_sum_at_least(pairs, 3 * k) {
        Some(
            if ratio_sum_at_least(pairs, 10 * k) {
                Severity::High
            } else {
                Severity::Medium
            },
        )
    } else {
        None
    }
}

/// Whether the fraction `num / den` is at least `factor * k`.
fn fraction_at_least(num: &Vec<u64>, den: &Vec<u64>, k: u64, factor: u64) -> (r: bool)
    ensures
        r == (value(num@) >= (factor * k) * value(den@)),
{
    let d1 = mul_limb(den, k);
    let d2 = mul_limb(&d1, factor);
    let ghost dv = value(den@);
    assert(dv * k * factor == (factor * k) * dv) by (nonlinear_arith);
    at_least(num, &d2)
}

/// Classifies whole-plan estimate accuracy: systematic skew vs a single
/// outlier node.
#[derive(Debug, Clone, Copy)]
pub struct EstimationHealthAnalyzer;

impl EstimationHealthAnalyzer {
    pub fn new() -> (r: Self) {
        EstimationHealthAnalyzer
    }

    /// Tallies the nodes of `plan` that have measured rows by the skew of
    /// their estimates.
    pub fn tally(&self, plan: &ParsedPlan) -> (r: EstimateTally)
        ensures
            (r.nodes_with_actuals as nat, r.nodes_underestimated as nat, r.nodes_overestimated as nat)
                == tally_of(plan_preorder(*plan)),
    {
        let visits = PlanTraversal::depth_first_visits(plan);
        let ghost pre = plan_preorder(*plan);
        let mut r = EstimateTally { nodes_with_actuals: 0, nodes_underestimated: 0, nodes_overestimated: 0 };
        let mut i: usize = 0;
        while i < visits.len()
            invariant
                i <= visits@.len(),
                entry_visits(visits@) == pre,
                (r.nodes_with_actuals as nat, r.nodes_underestimated as nat, r.nodes_overestimated as nat)
                    == tally_of(pre.take(i as int)),
            decreases visits@.len() - i,
        {
            let ghost t = pre.take(i as int + 1);
            assert(t.drop_last() =~= pre.take(i as int));
            assert(t.last() == pre[i as int]);
            proof {
                lemma_tally_bounded(pre.take(i as int));
            }
            let node = visits[i].0;
            assert(pre[i as int].0 == *node);
            match node.actual_rows {
                Some(a) => {
                    r.nodes_with_actuals = r.nodes_with_actuals + 1;
                    match estimate_skew(node.estimated_rows, a) {
                        EstimateSkew::Under => r.nodes_underestimated = r.nodes_underestimated + 1,
                        EstimateSkew::Over => r.nodes_overestimated = r.nodes_overestimated + 1,
                        EstimateSkew::Accurate => {},
                    }
                },
                None => {},
            }
            i = i + 1;
        }
        assert(pre.take(i as int) =~= pre);
        r
    }

    /// Whether the tally is a candidate for the systematic-skew finding:
    /// enough nodes with measured rows, at least two significantly off, and at
    /// least four in five of those off in the same direction.
    pub fn systematic_candidate(&self, t: &EstimateTally) -> (r: bool)
        ensures
            r == systematic_shape(
                t.nodes_with_actuals as nat,
                t.nodes_underestimated as nat,
                t.nodes_overestimated as nat,
            ),
    {
        let under = t.nodes_underestimated as u128;
        let over = t.nodes_overestimated as u128;
        let significant = under + over;
        let dominant = if under >= over {
            under
        } else {
            over
        };
        t.nodes_with_actuals >= MIN_NODES_FOR_PATTERN && significant >= 2 && 5 * dominant >= 4
            * significant
    }

    /// The systematic-skew finding of `plan`: its severity when the finding
    /// is raised.
    pub fn systematic_severity(&self, plan: &ParsedPlan) -> (r: Option<Severity>)
        ensures
            r == systematic_severity_of(plan_preorder(*plan)),
    {
        let t = self.tally(plan);
        let ghost pre = plan_preorder(*plan);
        if !self.systematic_candidate(&t) {
            return None;
        }
        let visits = PlanTraversal::depth_first_visits(plan);
        let mut num = from_u64(0);
        let mut den = from_u64(1);
        let mut i: usize = 0;
        proof {
            assert(pre.take(0) =~= Seq::<Visit>::empty());
        }
        while i < visits.len()
            invariant
                i <= visits@.len(),
                entry_visits(visits@) == pre,
                value(num@) == ratio_sum(significant_pairs(pre.take(i as int))).0,
                value(den@) == ratio_sum(significant_pairs(pre.take(i as int))).1,
            decreases visits@.len() - i,
        {
            let ghost s2 = pre.take(i as int + 1);
            proof {
                assert(s2.drop_last() =~= pre.take(i as int));
                assert(s2.last() == pre[i as int]);
            }
            let node = visits[i].0;
            assert(pre[i as int].0 == *node);
            match node.actual_rows {
                Some(a) => {
                    match estimate_skew(node.estimated_rows, a) {
                        EstimateSkew::Accurate => {},
                        _ => {
                            let a1: u64 = if a == 0 {
                                1
                            } else {
                                a
                            };
                            let e1: u64 = if node.estimated_rows == 0 {
                                1
                            } else {
                                node.estimated_rows
                            };
                            let (hi, lo) = if a1 >= e1 {
                                (a1, e1)
                            } else {
                                (e1, a1)
                            };
                            assert((hi, lo) == misestimate_pair(node.estimated_rows, a));
                            let ghost nv = value(num@);
                            let ghost dv = value(den@);
                            let n1 = mul_limb(&num, lo);
                            let n2 = mul_limb(&den, hi);
                            let n3 = plus(&n1, &n2);
                            let d3 = mul_limb(&den, lo);
                            proof {
                                assert(dv * hi == hi * dv) by (nonlinear_arith);
                                let pairs = significant_pairs(s2);
                                assert(pairs.drop_last() =~= significant_pairs(pre.take(i as int)));
                            }
                            num = n3;
                            den = d3;
                        },
                    }
                },
                None => {},
            }
            i = i + 1;
        }
        proof {
            assert(pre.take(i as int) =~= pre);
        }
        proof {
            lemma_tally_bounded(pre);
        }
        let k: u64 = (t.nodes_underestimated as u64) + (t.nodes_overestimated as u64);
        if !fraction_at_least(&num, &den, k, 3) {
            return None;
        }
        if fraction_at_least(&num, &den, k, 10) {
            Some(Severity::High)
        } else {
            Some(Severity::Medium)
        }
    }

    /// The outlier rule: when exactly one node of the plan is significantly
    /// misestimated and some node is off by at least fifty times, the
    /// position in the depth-first walk of the first such node.
    pub fn severe_outlier(&self, plan: &ParsedPlan) -> (r: Option<usize>)
        ensures
            r is Some <==> (tally_of(plan_preorder(*plan)).1 + tally_of(plan_preorder(*plan)).2 == 1
                && exists|i: int| 0 <= i < plan_preorder(*plan).len() && #[trigger] severe_at(plan_preorder(*plan), i)),
            r matches Some(i) ==> i < plan_preorder(*plan).len() && severe_at(plan_preorder(*plan), i as int)
                && forall|j: int| 0 <= j < i ==> !#[trigger] severe_at(plan_preorder(*plan), j),
    {
        let t = self.tally(plan);
        if !self.single_outlier_candidate(&t) {
            return None;
        }
        let visits = PlanTraversal::depth_first_visits(plan);
        let ghost pre = plan_preorder(*plan);
        let mut i: usize = 0;
        while i < visits.len()
            invariant
                i <= visits@.len(),
                entry_visits(visits@) == pre,
                pre == plan_preorder(*plan),
                tally_of(pre).1 + tally_of(pre).2 == 1,
                forall|j: int| 0 <= j < i ==> !#[trigger] severe_at(pre, j),
            decreases visits@.len() - i,
        {
            let node = visits[i].0;
            assert(pre[i as int].0 == *node);
            assert(i < pre.len());
            let severe = match node.actual_rows {
                Some(a) => misestimated_by(node.estimated_rows, a, OUTLIER_RATIO),
                None => false,
            };
            if severe {
                assert(severe_at(pre, i as int));
                return Some(i);
            }
            i = i + 1;
        }
        None
    }

    /// Whether exactly one node is significantly off (the outlier finding
    /// additionally needs that node to be off by at least fifty times).
    pub fn single_outlier_candidate(&self, t: &EstimateTally) -> (r: bool)
        ensures
            r == (t.nodes_underestimated + t.nodes_overestimated == 1),
    {
        t.nodes_underestimated as u128 + t.nodes_overestimated as u128 == 1
    }
}

/// A node's skew, stated from its rows (each counted as at least one): it is
/// underestimated when the measured rows are at least twice the estimate,
/// overestimated when the estimate is at least twice the measured rows, and
/// accurate otherwise.
pub proof fn lemma_skew_rule(estimated: u64, actual: u64)
    ensures
        ({
            let a = if actual == 0 {
                1
            } else {
                actual as int
            };
            let e = if estimated == 0 {
                1
            } else {
                estimated as int
            };
            &&& (skew_of(estimated, actual) == EstimateSkew::Under <==> a >= 2 * e)
            &&& (skew_of(estimated, actual) == EstimateSkew::Over <==> e >= 2 * a)
            &&& (skew_of(estimated, actual) == EstimateSkew::Accurate <==> a < 2 * e && e < 2 * a)
        }),
{
}

} // verus!
