//! The breadth-first walk: every node of the plan ordered by depth, and
//! within one depth in depth-first order.
use vstd::prelude::*;
use crate::plan::{ParsedPlan, PlanNode};
use super::NodePath;
use super::traversal::{
    PlanTraversal, Visit, at_depth, child_visit, entry_visits, lemma_at_depth_concat,
    lemma_at_depth_none, lemma_preorder_depth, n_children, plan_preorder, preorder, preorder_from,
    preorder_of,
};

verus! {

broadcast use vstd::std_specs::vec::group_vec_axioms;

/// The visits of the children of the node of `v`, left to right.
pub open spec fn child_visits(v: Visit) -> Seq<Visit> {
    Seq::new(n_children(v), |i: int| child_visit(v, i))
}

/// The visits of the children of every visit of `s`, in order.
pub open spec fn children_of(s: Seq<Visit>) -> Seq<Visit>
    decreases s.len(),
{
    if s.len() == 0 {
        Seq::empty()
    } else {
        children_of(s.drop_last()) + child_visits(s.last())
    }
}

/// The visits of `s` at depths `0..d`, shallowest first.
pub open spec fn levels_upto(s: Seq<Visit>, d: nat) -> Seq<Visit>
    decreases d,
{
    if d == 0 {
        Seq::empty()
    } else {
        levels_upto(s, (d - 1) as nat) + at_depth(s, (d - 1) as nat)
    }
}

/// Total number of nodes in the subtrees of the visits of `q`.
pub open spec fn forest_weight(q: Seq<Visit>) -> nat
    decreases q.len(),
{
    if q.len() == 0 {
        0
    } else {
        forest_weight(q.drop_last()) + preorder_of(q.last()).len()
    }
}

/// A single visit is at depth `d` or contributes nothing to that level.
proof fn lemma_at_depth_single(x: Visit, d: nat)
    ensures
        at_depth(seq![x], d) == if x.1.len() == d {
            seq![x]
        } else {
            Seq::<Visit>::empty()
        },
{
    let s = seq![x];
    assert(s.drop_last() =~= Seq::<Visit>::empty());
    assert(s.last() == x);
    assert(at_depth(s.drop_last(), d) =~= Seq::<Visit>::empty());
    if x.1.len() == d {
        assert(at_depth(s, d) =~= seq![x]);
    } else {
        assert(at_depth(s, d) =~= Seq::<Visit>::empty());
    }
}

/// The children of a single visit are that visit's children.
proof fn lemma_children_of_single(v: Visit)
    ensures
        children_of(seq![v]) == child_visits(v),
{
    let s = seq![v];
    assert(s.drop_last() =~= Seq::<Visit>::empty());
    assert(s.last() == v);
    assert(children_of(Seq::<Visit>::empty()) =~= Seq::<Visit>::empty());
    assert(children_of(s) == children_of(s.drop_last()) + child_visits(s.last()));
    assert(Seq::<Visit>::empty() + child_visits(v) =~= child_visits(v));
}

proof fn lemma_children_of_concat(a: Seq<Visit>, b: Seq<Visit>)
    ensures
        children_of(a + b) == children_of(a) + children_of(b),
    decreases b.len(),
{
    if b.len() == 0 {
        assert(a + b =~= a);
        assert(children_of(a) + children_of(b) =~= children_of(a));
    } else {
        lemma_children_of_concat(a, b.drop_last());
        assert((a + b).drop_last() =~= a + b.drop_last());
        assert(children_of(a + b) =~= children_of(a) + children_of(b));
    }
}

proof fn lemma_forest_weight_concat(a: Seq<Visit>, b: Seq<Visit>)
    ensures
        forest_weight(a + b) == forest_weight(a) + forest_weight(b),
    decreases b.len(),
{
    if b.len() == 0 {
        assert(a + b =~= a);
    } else {
        lemma_forest_weight_concat(a, b.drop_last());
        assert((a + b).drop_last() =~= a + b.drop_last());
    }
}

/// The subtrees of children `i..` hold as many visits as those children weigh.
proof fn lemma_preorder_from_weight(n: PlanNode, path: Seq<usize>, desc: Seq<char>, i: int)
    requires
        0 <= i <= n.children@.len(),
    ensures
        preorder_from(n, path, desc, i).len() == forest_weight(child_visits((n, path, desc)).skip(i)),
    decreases n.children@.len() - i,
{
    let v = (n, path, desc);
    let cs = child_visits(v);
    if i < n.children@.len() {
        lemma_preorder_from_weight(n, path, desc, i + 1);
        assert(cs.skip(i) =~= seq![cs[i]] + cs.skip(i + 1));
        lemma_forest_weight_concat(seq![cs[i]], cs.skip(i + 1));
        assert(seq![cs[i]].drop_last() =~= Seq::<Visit>::empty());
        assert(forest_weight(seq![cs[i]]) == forest_weight(Seq::<Visit>::empty()) + preorder_of(cs[i]).len());
        assert(cs[i] == child_visit(v, i));
        assert(preorder_from(n, path, desc, i) == preorder_of(cs[i]) + preorder_from(n, path, desc, i + 1));
    } else {
        assert(cs.skip(i) =~= Seq::<Visit>::empty());
    }
}

/// The visits one level below the root of a subtree are its children.
proof fn lemma_first_level_from(n: PlanNode, path: Seq<usize>, desc: Seq<char>, i: int)
    requires
        0 <= i <= n.children@.len(),
    ensures
        at_depth(preorder_from(n, path, desc, i), path.len() + 1) == child_visits((n, path, desc)).skip(i),
    decreases n.children@.len() - i,
{
    let v = (n, path, desc);
    let cs = child_visits(v);
    let d = (path.len() + 1) as nat;
    if i < n.children@.len() {
        let c = child_visit(v, i);
        lemma_first_level_from(n, path, desc, i + 1);
        lemma_preorder_depth(c.0, c.1, c.2);
        lemma_at_depth_none(preorder_from(c.0, c.1, c.2, 0), d);
        lemma_at_depth_concat(seq![c], preorder_from(c.0, c.1, c.2, 0), d);
        lemma_at_depth_single(c, d);
        lemma_at_depth_concat(preorder_of(c), preorder_from(n, path, desc, i + 1), d);
        assert(cs.skip(i) =~= seq![c] + cs.skip(i + 1));
        assert(at_depth(preorder_of(c), d) =~= seq![c]);
    } else {
        assert(cs.skip(i) =~= Seq::<Visit>::empty());
    }
}

/// In a subtree, the visits one level deeper than some level are the
/// children of that level's visits, in order.
proof fn lemma_next_level(n: PlanNode, path: Seq<usize>, desc: Seq<char>, d: nat)
    requires
        d >= path.len(),
    ensures
        at_depth(preorder(n, path, desc), d + 1) == children_of(at_depth(preorder(n, path, desc), d)),
    decreases n, n.children@.len() + 1,
{
    let v = (n, path, desc);
    let f = preorder_from(n, path, desc, 0);
    lemma_at_depth_concat(seq![v], f, d);
    lemma_at_depth_concat(seq![v], f, d + 1);
    lemma_at_depth_single(v, d);
    lemma_at_depth_single(v, d + 1);
    if d == path.len() {
        lemma_preorder_depth(n, path, desc);
        lemma_at_depth_none(f, d);
        lemma_first_level_from(n, path, desc, 0);
        assert(child_visits(v).skip(0) =~= child_visits(v));
        lemma_children_of_single(v);
        assert(at_depth(preorder(n, path, desc), d) =~= seq![v]);
        assert(at_depth(preorder(n, path, desc), d + 1) =~= child_visits(v));
    } else {
        lemma_next_level_from(n, path, desc, 0, d);
        assert(at_depth(preorder(n, path, desc), d) =~= at_depth(f, d));
        assert(at_depth(preorder(n, path, desc), d + 1) =~= at_depth(f, d + 1));
    }
}

proof fn lemma_next_level_from(n: PlanNode, path: Seq<usize>, desc: Seq<char>, i: int, d: nat)
    requires
        d > path.len(),
    ensures
        at_depth(preorder_from(n, path, desc, i), d + 1) == children_of(
            at_depth(preorder_from(n, path, desc, i), d),
        ),
    decreases n, n.children@.len() - i,
{
    if 0 <= i < n.children@.len() {
        let c = n.children@[i];
        let cp = path.push(i as usize);
        let cd = super::child_description(desc, c.original_text@);
        lemma_next_level(c, cp, cd, d);
        lemma_next_level_from(n, path, desc, i + 1, d);
        let a = preorder(c, cp, cd);
        let b = preorder_from(n, path, desc, i + 1);
        lemma_at_depth_concat(a, b, d);
        lemma_at_depth_concat(a, b, d + 1);
        lemma_children_of_concat(at_depth(a, d), at_depth(b, d));
    } else {
        assert(at_depth(Seq::<Visit>::empty(), d) =~= Seq::<Visit>::empty());
        assert(at_depth(Seq::<Visit>::empty(), d + 1) =~= Seq::<Visit>::empty());
    }
}

/// Every visit at depth `d` has a path of length `d`.
proof fn lemma_at_depth_len(s: Seq<Visit>, d: nat)
    ensures
        forall|k: int| 0 <= k < at_depth(s, d).len() ==> (#[trigger] at_depth(s, d)[k]).1.len() == d,
    decreases s.len(),
{
    if s.len() > 0 {
        lemma_at_depth_len(s.drop_last(), d);
        let p = at_depth(s.drop_last(), d);
        assert forall|k: int| 0 <= k < at_depth(s, d).len() implies (#[trigger] at_depth(s, d)[k]).1.len()
            == d by {
            if s.last().1.len() == d {
                if k < p.len() {
                    assert(at_depth(s, d)[k] == p[k]);
                }
            } else {
                assert(at_depth(s, d)[k] == p[k]);
            }
        }
    }
}

/// Picking one depth out of a single level keeps it whole or leaves nothing.
proof fn lemma_at_depth_of_level(s: Seq<Visit>, j: nat, k: nat)
    ensures
        at_depth(at_depth(s, j), k) == if j == k {
            at_depth(s, j)
        } else {
            Seq::<Visit>::empty()
        },
    decreases s.len(),
{
    if s.len() > 0 {
        lemma_at_depth_of_level(s.drop_last(), j, k);
        if s.last().1.len() == j {
            assert(at_depth(s, j).drop_last() =~= at_depth(s.drop_last(), j));
        }
    } else {
        assert(at_depth(Seq::<Visit>::empty(), k) =~= Seq::<Visit>::empty());
    }
}

/// The first `d` levels hold exactly the visits of depth below `d`.
proof fn lemma_levels_upto_depths(s: Seq<Visit>, d: nat, k: nat)
    ensures
        at_depth(levels_upto(s, d), k) == if k < d {
            at_depth(s, k)
        } else {
            Seq::<Visit>::empty()
        },
        forall|m: int| 0 <= m < levels_upto(s, d).len() ==> (#[trigger] levels_upto(s, d)[m]).1.len() < d,
    decreases d,
{
    if d == 0 {
        assert(at_depth(Seq::<Visit>::empty(), k) =~= Seq::<Visit>::empty());
    } else {
        let p = (d - 1) as nat;
        lemma_levels_upto_depths(s, p, k);
        lemma_at_depth_concat(levels_upto(s, p), at_depth(s, p), k);
        lemma_at_depth_of_level(s, p, k);
        lemma_at_depth_len(s, p);
        let a = levels_upto(s, p);
        let b = at_depth(s, p);
        assert forall|m: int| 0 <= m < levels_upto(s, d).len() implies (#[trigger] levels_upto(s, d)[m]).1.len()
            < d by {
            if m < a.len() {
                assert(levels_upto(s, d)[m] == a[m]);
            } else {
                assert(levels_upto(s, d)[m] == b[m - a.len()]);
            }
        }
        if k < p {
            assert(at_depth(levels_upto(s, d), k) =~= at_depth(s, k));
        } else if k == p {
            assert(at_depth(levels_upto(s, d), k) =~= at_depth(s, k));
        } else {
            assert(at_depth(levels_upto(s, d), k) =~= Seq::<Visit>::empty());
        }
    }
}

/// Levels are listed shallowest first.
proof fn lemma_levels_upto_sorted(s: Seq<Visit>, d: nat)
    ensures
        forall|i: int, j: int|
            0 <= i < j < levels_upto(s, d).len() ==> (#[trigger] levels_upto(s, d)[i]).1.len() <= (
            #[trigger] levels_upto(s, d)[j]).1.len(),
    decreases d,
{
    if d > 0 {
        let p = (d - 1) as nat;
        lemma_levels_upto_sorted(s, p);
        lemma_levels_upto_depths(s, p, 0);
        lemma_at_depth_len(s, p);
        let a = levels_upto(s, p);
        let b = at_depth(s, p);
        assert forall|i: int, j: int| 0 <= i < j < levels_upto(s, d).len() implies (
        #[trigger] levels_upto(s, d)[i]).1.len() <= (#[trigger] levels_upto(s, d)[j]).1.len() by {
            if j < a.len() {
                assert(levels_upto(s, d)[i] == a[i]);
                assert(levels_upto(s, d)[j] == a[j]);
            } else if i < a.len() {
                assert(levels_upto(s, d)[i] == a[i]);
                assert(levels_upto(s, d)[j] == b[j - a.len()]);
            } else {
                assert(levels_upto(s, d)[i] == b[i - a.len()]);
                assert(levels_upto(s, d)[j] == b[j - a.len()]);
            }
        }
    }
}

/// Once a level of the plan is empty, so is every deeper one.
proof fn lemma_empty_level_stays_empty(plan: ParsedPlan, d: nat, k: nat)
    requires
        at_depth(plan_preorder(plan), d).len() == 0,
        k >= d,
    ensures
        at_depth(plan_preorder(plan), k).len() == 0,
    decreases k - d,
{
    if k > d {
        lemma_empty_level_stays_empty(plan, d, (k - 1) as nat);
        lemma_next_level(plan.root, Seq::empty(), super::root_description(), (k - 1) as nat);
        assert(at_depth(plan_preorder(plan), (k - 1) as nat) =~= Seq::<Visit>::empty());
    }
}

impl<'a> PlanTraversal {
    /// Every node of the plan with its path, breadth first: ordered by
    /// depth, and within one depth in depth-first order.
    pub fn breadth_first_visits(plan: &'a ParsedPlan) -> (r: Vec<(&'a PlanNode, NodePath)>)
        ensures
            forall|d: nat| #[trigger] at_depth(entry_visits(r@), d) == at_depth(plan_preorder(*plan), d),
            forall|i: int, j: int|
                0 <= i < j < r@.len() ==> (#[trigger] r@[i]).1.path@.len() <= (
                #[trigger] r@[j]).1.path@.len(),
    {
        let ghost pre = plan_preorder(*plan);
        let mut out: Vec<(&'a PlanNode, NodePath)> = Vec::new();
        let mut queue: Vec<(&'a PlanNode, NodePath)> = Vec::new();
        queue.push((&plan.root, NodePath::root()));
        let mut head: usize = 0;
        let ghost mut d: nat = 0;
        let ghost mut i: int = 0;
        proof {
            let root = (plan.root, Seq::<usize>::empty(), super::root_description());
            lemma_preorder_depth(root.0, root.1, root.2);
            lemma_at_depth_none(preorder_from(root.0, root.1, root.2, 0), 0);
            lemma_at_depth_concat(seq![root], preorder_from(root.0, root.1, root.2, 0), 0);
            lemma_at_depth_single(root, 0);
            assert(at_depth(pre, 0) =~= seq![root]);
            assert(entry_visits(queue@).skip(0) =~= seq![root]);
            assert(at_depth(pre, 0).take(0) =~= Seq::<Visit>::empty());
            assert(at_depth(pre, 0).skip(0) =~= at_depth(pre, 0));
            assert(entry_visits(out@) =~= Seq::<Visit>::empty());
            assert(levels_upto(pre, 0) + Seq::<Visit>::empty() =~= Seq::<Visit>::empty());
            assert(children_of(Seq::<Visit>::empty()) =~= Seq::<Visit>::empty());
        }
        while head < queue.len()
            invariant
                head <= queue@.len(),
                pre == plan_preorder(*plan),
                0 <= i <= at_depth(pre, d).len(),
                at_depth(pre, d).len() > 0 ==> i < at_depth(pre, d).len(),
                entry_visits(out@) == levels_upto(pre, d) + at_depth(pre, d).take(i),
                entry_visits(queue@).skip(head as int) == at_depth(pre, d).skip(i) + children_of(
                    at_depth(pre, d).take(i),
                ),
            decreases forest_weight(entry_visits(queue@).skip(head as int)),
        {
            let ghost level = at_depth(pre, d);
            let ghost q = entry_visits(queue@).skip(head as int);
            let node = queue[head].0;
            let path = queue[head].1.clone();
            let ghost v: Visit = (*node, path.path@, path.description@);
            proof {
                assert(entry_visits(queue@)[head as int] == v);
                assert(q[0] == v);
                if i >= level.len() {
                    assert(level.len() == 0);
                    assert(level.take(i) =~= Seq::<Visit>::empty());
                    assert(q.len() == 0);
                }
                assert(i < level.len());
                assert(level.skip(i)[0] == v);
                assert(level[i] == v);
            }
            let ghost out_before = out@;
            let kept_path = path.clone();
            out.push((node, kept_path));
            proof {
                assert(entry_visits(out@) =~= entry_visits(out_before).push(v));
            }
            let ghost queue_before = queue@;
            let mut j: usize = 0;
            while j < node.children.len()
                invariant
                    j <= node.children@.len(),
                    v == (*node, path.path@, path.description@),
                    head < queue_before.len(),
                    queue@.len() == queue_before.len() + j,
                    entry_visits(queue@) == entry_visits(queue_before) + child_visits(v).take(j as int),
                decreases node.children@.len() - j,
            {
                let child = &node.children[j];
                let child_path = path.child_of(j, child.description());
                let ghost before = queue@;
                queue.push((child, child_path));
                proof {
                    assert(entry_visits(queue@) =~= entry_visits(before).push(child_visit(v, j as int)));
                    assert(child_visits(v).take(j as int + 1) =~= child_visits(v).take(j as int).push(
                        child_visit(v, j as int),
                    ));
                    assert(entry_visits(queue@) =~= entry_visits(queue_before) + child_visits(v).take(
                        j as int + 1,
                    ));
                }
                j = j + 1;
            }
            head = head + 1;
            proof {
                assert(child_visits(v).take(j as int) =~= child_visits(v));
                let nq = entry_visits(queue@).skip(head as int);
                assert(nq =~= q.drop_first() + child_visits(v));
                // weight drops by one
                lemma_forest_weight_concat(seq![v], q.drop_first());
                assert(q =~= seq![v] + q.drop_first());
                lemma_forest_weight_concat(q.drop_first(), child_visits(v));
                lemma_preorder_from_weight(v.0, v.1, v.2, 0);
                assert(child_visits(v).skip(0) =~= child_visits(v));
                assert(seq![v].drop_last() =~= Seq::<Visit>::empty());
                // the level bookkeeping
                let t = level.take(i);
                assert(level.take(i + 1) =~= t.push(v));
                assert(t.push(v).drop_last() =~= t);
                assert(children_of(level.take(i + 1)) == children_of(t) + child_visits(v));
                assert(level.skip(i) =~= seq![v] + level.skip(i + 1));
                assert(q.drop_first() =~= level.skip(i + 1) + children_of(t));
                assert(nq =~= level.skip(i + 1) + children_of(level.take(i + 1)));
                assert(entry_visits(out@) =~= levels_upto(pre, d) + level.take(i + 1));
                if i + 1 == level.len() {
                    lemma_next_level(plan.root, Seq::empty(), super::root_description(), d);
                    assert(level.take(i + 1) =~= level);
                    assert(level.skip(i + 1) =~= Seq::<Visit>::empty());
                    assert(nq =~= at_depth(pre, d + 1));
                    assert(levels_upto(pre, d + 1) == levels_upto(pre, d) + level);
                    d = d + 1;
                    i = 0;
                    assert(at_depth(pre, d).take(0) =~= Seq::<Visit>::empty());
                    assert(at_depth(pre, d).skip(0) =~= at_depth(pre, d));
                    assert(children_of(Seq::<Visit>::empty()) =~= Seq::<Visit>::empty());
                    assert(entry_visits(out@) =~= levels_upto(pre, d) + at_depth(pre, d).take(i));
                    assert(nq =~= at_depth(pre, d).skip(i) + children_of(at_depth(pre, d).take(i)));
                } else {
                    i = i + 1;
                }
            }
        }
        proof {
            let level = at_depth(pre, d);
            assert(entry_visits(queue@).skip(head as int).len() == 0);
            if level.len() > 0 {
                assert(level.skip(i).len() > 0);
            }
            assert(level.len() == 0);
            assert(level.take(i) =~= Seq::<Visit>::empty());
            assert(entry_visits(out@) =~= levels_upto(pre, d));
            assert forall|k: nat| #[trigger] at_depth(entry_visits(out@), k) == at_depth(pre, k) by {
                lemma_levels_upto_depths(pre, d, k);
                if k >= d {
                    lemma_empty_level_stays_empty(*plan, d, k);
                    assert(at_depth(pre, k) =~= Seq::<Visit>::empty());
                }
            }
            lemma_levels_upto_sorted(pre, d);
            assert forall|a: int, b: int| 0 <= a < b < out@.len() implies (#[trigger] out@[a]).1.path@.len()
                <= (#[trigger] out@[b]).1.path@.len() by {
                assert(entry_visits(out@)[a].1 == out@[a].1.path@);
                assert(entry_visits(out@)[b].1 == out@[b].1.path@);
            }
        }
        out
    }
}

} // verus!
