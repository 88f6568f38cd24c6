//! Walks over the plan tree. Each walk is stated against `preorder`, the
//! depth-first listing of every node with its path and path description.
use vstd::prelude::*;
use crate::plan::{ParsedPlan, PlanNode};
use super::{NodePath, child_description, root_description};

verus! {

broadcast use vstd::std_specs::vec::group_vec_axioms;

/// A node together with the path that leads to it from the root and the
/// description of that path.
pub type Visit = (PlanNode, Seq<usize>, Seq<char>);

/// The visit of child `i` of the node of `v`.
pub open spec fn child_visit(v: Visit, i: int) -> Visit {
    let c = v.0.children@[i];
    (c, v.1.push(i as usize), child_description(v.2, c.original_text@))
}

/// Depth-first, parents before children, children left to right: the visit
/// of `n` followed by those of its descendants.
pub open spec fn preorder(n: PlanNode, path: Seq<usize>, desc: Seq<char>) -> Seq<Visit>
    decreases n, n.children@.len() + 1,
{
    seq![(n, path, desc)] + preorder_from(n, path, desc, 0)
}

/// The preorder visits of the subtrees of children `i..` of `n`.
pub open spec fn preorder_from(n: PlanNode, path: Seq<usize>, desc: Seq<char>, i: int) -> Seq<
    Visit,
>
    decreases n, n.children@.len() - i,
{
    if 0 <= i < n.children@.len() {
        let c = n.children@[i];
        preorder(c, path.push(i as usize), child_description(desc, c.original_text@))
            + preorder_from(n, path, desc, i + 1)
    } else {
        Seq::empty()
    }
}

pub open spec fn preorder_of(v: Visit) -> Seq<Visit> {
    preorder(v.0, v.1, v.2)
}

/// Every node of the plan, depth first, with the path the walk gives it.
pub open spec fn plan_preorder(plan: ParsedPlan) -> Seq<Visit> {
    preorder(plan.root, Seq::empty(), root_description())
}

/// The visits pending on a walk's stack, top of the stack first.
pub open spec fn stack_order(st: Seq<Visit>) -> Seq<Visit>
    decreases st.len(),
{
    if st.len() == 0 {
        Seq::empty()
    } else {
        preorder_of(st.last()) + stack_order(st.drop_last())
    }
}

/// The visit that a stack entry stands for.
pub open spec fn entry_visit(e: (&PlanNode, NodePath)) -> Visit {
    (*e.0, e.1.path@, e.1.description@)
}

pub open spec fn entry_visits(s: Seq<(&PlanNode, NodePath)>) -> Seq<Visit> {
    s.map_values(|e: (&PlanNode, NodePath)| entry_visit(e))
}

/// The entries of `s` whose flag in `keep` is set, in order.
pub open spec fn select<T>(s: Seq<T>, keep: Seq<bool>) -> Seq<T>
    decreases s.len(),
{
    if s.len() == 0 || keep.len() == 0 {
        Seq::empty()
    } else {
        let rest = select(s.drop_last(), keep.drop_last());
        if keep.last() {
            rest.push(s.last())
        } else {
            rest
        }
    }
}

proof fn lemma_preorder_len(v: Visit)
    ensures
        preorder_of(v).len() >= 1,
        preorder_of(v)[0] == v,
{
}

/// Pushing the children `j..` of `t` in reverse order on top of a stack puts
/// their subtrees, left to right, in front of what the stack held.
proof fn lemma_push_child(st: Seq<Visit>, t: Visit, j: int, rest: Seq<Visit>)
    requires
        0 <= j < t.0.children@.len(),
        stack_order(st) == preorder_from(t.0, t.1, t.2, j + 1) + rest,
    ensures
        stack_order(st.push(child_visit(t, j))) == preorder_from(t.0, t.1, t.2, j) + rest,
{
    let s2 = st.push(child_visit(t, j));
    assert(s2.drop_last() =~= st);
    assert(preorder_from(t.0, t.1, t.2, j) == preorder_of(child_visit(t, j)) + preorder_from(
        t.0,
        t.1,
        t.2,
        j + 1,
    ));
    assert(stack_order(s2) =~= preorder_from(t.0, t.1, t.2, j) + rest);
}

impl<'a> PlanTraversal {
    /// Every node of the plan for which `predicate` holds, with its path, in
    /// depth-first order.
    pub fn find_nodes<F>(plan: &'a ParsedPlan, predicate: F) -> (r: Vec<(&'a PlanNode, NodePath)>)
        where
            F: Fn(&PlanNode) -> bool,
        requires
            forall|n: &PlanNode| #[trigger] predicate.requires((n,)),
        ensures
            exists|keep: Seq<bool>|
                {
                    &&& keep.len() == plan_preorder(*plan).len()
                    &&& forall|i: int|
                        0 <= i < keep.len() ==> predicate.ensures(
                            (&plan_preorder(*plan)[i].0,),
                            #[trigger] keep[i],
                        )
                    &&& entry_visits(r@) == select(plan_preorder(*plan), keep)
                },
    {
        let ghost pre = plan_preorder(*plan);
        let mut results: Vec<(&'a PlanNode, NodePath)> = Vec::new();
        let mut stack: Vec<(&'a PlanNode, NodePath)> = Vec::new();
        stack.push((&plan.root, NodePath::root()));
        let ghost mut visited: Seq<Visit> = Seq::empty();
        let ghost mut keep: Seq<bool> = Seq::empty();
        proof {
            assert(entry_visits(stack@) =~= seq![(plan.root, Seq::<usize>::empty(), root_description())]);
            let st = entry_visits(stack@);
            assert(st.drop_last() =~= Seq::<Visit>::empty());
            assert(stack_order(st.drop_last()) =~= Seq::<Visit>::empty());
            assert(st.last() == (plan.root, Seq::<usize>::empty(), root_description()));
            assert(stack_order(st) =~= pre);
            assert(entry_visits(results@) =~= Seq::<Visit>::empty());
        }
        while stack.len() > 0
            invariant
                forall|n: &PlanNode| #[trigger] predicate.requires((n,)),
                pre == plan_preorder(*plan),
                visited + stack_order(entry_visits(stack@)) == pre,
                keep.len() == visited.len(),
                forall|i: int|
                    0 <= i < keep.len() ==> predicate.ensures((&visited[i].0,), #[trigger] keep[i]),
                entry_visits(results@) == select(visited, keep),
            decreases stack_order(entry_visits(stack@)).len(),
        {
            let ghost before = entry_visits(stack@);
            let (node, path) = stack.pop().unwrap();
            let ghost t: Visit = (*node, path.path@, path.description@);
            let ghost rest = entry_visits(stack@);
            proof {
                assert(before.drop_last() =~= rest);
                assert(before.last() == t);
            }
            let hit = predicate(node);
            if hit {
                results.push((node, path.clone()));
            }
            proof {
                let v2 = visited.push(t);
                let k2 = keep.push(hit);
                assert(v2.drop_last() =~= visited);
                assert(k2.drop_last() =~= keep);
                assert(entry_visits(results@) =~= select(v2, k2));
                assert forall|i: int| 0 <= i < k2.len() implies predicate.ensures(
                    (&v2[i].0,),
                    #[trigger] k2[i],
                ) by {
                    if i < keep.len() {
                        assert(v2[i] == visited[i]);
                        assert(k2[i] == keep[i]);
                    }
                }
                visited = v2;
                keep = k2;
                assert(visited + preorder_from(t.0, t.1, t.2, 0) + stack_order(rest) =~= pre);
                assert(stack_order(entry_visits(stack@)) =~= preorder_from(t.0, t.1, t.2, n_children(t) as int) + stack_order(rest));
            }
            let mut j = node.children.len();
            while j > 0
                invariant
                    j <= node.children@.len(),
                    t == (*node, path.path@, path.description@),
                    stack_order(entry_visits(stack@)) == preorder_from(t.0, t.1, t.2, j as int)
                        + stack_order(rest),
                decreases j,
            {
                j = j - 1;
                let child = &node.children[j];
                let child_path = path.child_of(j, child.description());
                let ghost st = entry_visits(stack@);
                stack.push((child, child_path));
                proof {
                    assert(entry_visits(stack@) =~= st.push(child_visit(t, j as int)));
                    lemma_push_child(st, t, j as int, stack_order(rest));
                }
            }
            proof {
                assert(visited + stack_order(entry_visits(stack@)) =~= pre);
                lemma_preorder_len(t);
            }
        }
        proof {
            assert(stack_order(entry_visits(stack@)) =~= Seq::<Visit>::empty());
            assert(visited =~= pre);
        }
        results
    }
}


/// Every node of the walk, each flagged as kept.
pub open spec fn all_kept(n: nat) -> Seq<bool> {
    Seq::new(n, |i: int| true)
}

proof fn lemma_select_all<T>(s: Seq<T>)
    ensures
        select(s, all_kept(s.len())) == s,
    decreases s.len(),
{
    if s.len() > 0 {
        lemma_select_all(s.drop_last());
        assert(all_kept(s.len()).drop_last() =~= all_kept((s.len() - 1) as nat));
        assert(s.drop_last().push(s.last()) =~= s);
    }
}

/// Flags the visits of leaf nodes.
pub open spec fn leaf_flags(s: Seq<Visit>) -> Seq<bool> {
    Seq::new(s.len(), |i: int| s[i].0.children@.len() == 0)
}

/// The visits at the given depth (length of path), in order.
pub open spec fn at_depth(s: Seq<Visit>, d: nat) -> Seq<Visit>
    decreases s.len(),
{
    if s.len() == 0 {
        Seq::empty()
    } else if s.last().1.len() == d {
        at_depth(s.drop_last(), d).push(s.last())
    } else {
        at_depth(s.drop_last(), d)
    }
}

pub(crate) proof fn lemma_at_depth_concat(a: Seq<Visit>, b: Seq<Visit>, d: nat)
    ensures
        at_depth(a + b, d) == at_depth(a, d) + at_depth(b, d),
    decreases b.len(),
{
    if b.len() == 0 {
        assert(a + b =~= a);
        assert(at_depth(a, d) + at_depth(b, d) =~= at_depth(a, d));
    } else {
        lemma_at_depth_concat(a, b.drop_last(), d);
        assert((a + b).drop_last() =~= a + b.drop_last());
        assert((a + b).last() == b.last());
        if b.last().1.len() == d {
            assert(at_depth(a + b, d) =~= at_depth(a, d) + at_depth(b, d));
        } else {
            assert(at_depth(a + b, d) =~= at_depth(a, d) + at_depth(b, d));
        }
    }
}

pub(crate) proof fn lemma_at_depth_none(s: Seq<Visit>, d: nat)
    requires
        forall|k: int| 0 <= k < s.len() ==> (#[trigger] s[k]).1.len() != d,
    ensures
        at_depth(s, d) == Seq::<Visit>::empty(),
    decreases s.len(),
{
    if s.len() > 0 {
        lemma_at_depth_none(s.drop_last(), d);
    }
}

/// Every visit below a node has a longer path than the node.
pub(crate) proof fn lemma_preorder_depth(n: PlanNode, path: Seq<usize>, desc: Seq<char>)
    ensures
        forall|k: int|
            0 <= k < preorder(n, path, desc).len() ==> (#[trigger] preorder(n, path, desc)[k]).1.len()
                >= path.len(),
        forall|k: int|
            0 <= k < preorder_from(n, path, desc, 0).len() ==> (#[trigger] preorder_from(
                n,
                path,
                desc,
                0,
            )[k]).1.len() > path.len(),
    decreases n, n.children@.len() + 1,
{
    lemma_preorder_from_depth(n, path, desc, 0);
    let a = seq![(n, path, desc)];
    let b = preorder_from(n, path, desc, 0);
    assert forall|k: int| 0 <= k < preorder(n, path, desc).len() implies (
    #[trigger] preorder(n, path, desc)[k]).1.len() >= path.len() by {
        if k > 0 {
            assert(preorder(n, path, desc)[k] == b[k - 1]);
        }
    }
}

proof fn lemma_preorder_from_depth(n: PlanNode, path: Seq<usize>, desc: Seq<char>, i: int)
    ensures
        forall|k: int|
            0 <= k < preorder_from(n, path, desc, i).len() ==> (#[trigger] preorder_from(
                n,
                path,
                desc,
                i,
            )[k]).1.len() > path.len(),
    decreases n, n.children@.len() - i,
{
    if 0 <= i < n.children@.len() {
        let c = n.children@[i];
        let cp = path.push(i as usize);
        let cd = child_description(desc, c.original_text@);
        lemma_preorder_depth(c, cp, cd);
        lemma_preorder_from_depth(n, path, desc, i + 1);
        let a = preorder(c, cp, cd);
        let b = preorder_from(n, path, desc, i + 1);
        assert forall|k: int| 0 <= k < preorder_from(n, path, desc, i).len() implies (
        #[trigger] preorder_from(n, path, desc, i)[k]).1.len() > path.len() by {
            if k < a.len() {
                assert(preorder_from(n, path, desc, i)[k] == a[k]);
            } else {
                assert(preorder_from(n, path, desc, i)[k] == b[k - a.len()]);
            }
        }
    }
}

// ---------------------------------------------------------------------------
// Parent/child pairs
// ---------------------------------------------------------------------------

/// A parent visit and the visit of one of its children.
pub type Edge = (Visit, Visit);

/// The edges from the node of `v` to its children `i..`, left to right.
pub open spec fn edges_here(v: Visit, i: int) -> Seq<Edge>
    decreases v.0.children@.len() - i,
{
    if 0 <= i < v.0.children@.len() {
        seq![(v, child_visit(v, i))] + edges_here(v, i + 1)
    } else {
        Seq::empty()
    }
}

/// The parent/child pairs in the order `get_parent_child_pairs` lists them:
/// a node's own edges, then the subtrees of its children from the last to
/// the first.
pub open spec fn edges(n: PlanNode, path: Seq<usize>, desc: Seq<char>) -> Seq<Edge>
    decreases n, n.children@.len() + 1,
{
    edges_here((n, path, desc), 0) + edges_below(n, path, desc, n.children@.len() as int)
}

/// The edges within the subtrees of children `j - 1` down to `0`.
pub open spec fn edges_below(n: PlanNode, path: Seq<usize>, desc: Seq<char>, j: int) -> Seq<Edge>
    decreases n, j,
{
    if 0 < j <= n.children@.len() {
        let c = n.children@[j - 1];
        edges(c, path.push((j - 1) as usize), child_description(desc, c.original_text@))
            + edges_below(n, path, desc, j - 1)
    } else {
        Seq::empty()
    }
}

pub open spec fn edges_of(v: Visit) -> Seq<Edge> {
    edges(v.0, v.1, v.2)
}

pub open spec fn stack_edges(st: Seq<Visit>) -> Seq<Edge>
    decreases st.len(),
{
    if st.len() == 0 {
        Seq::empty()
    } else {
        edges_of(st.last()) + stack_edges(st.drop_last())
    }
}

pub open spec fn pair_views(s: Seq<((&PlanNode, NodePath), (&PlanNode, NodePath))>) -> Seq<Edge> {
    s.map_values(
        |e: ((&PlanNode, NodePath), (&PlanNode, NodePath))| (entry_visit(e.0), entry_visit(e.1)),
    )
}

proof fn lemma_edges_here_len(v: Visit, i: int)
    requires
        0 <= i <= v.0.children@.len(),
    ensures
        edges_here(v, i).len() == v.0.children@.len() - i,
    decreases v.0.children@.len() - i,
{
    if i < v.0.children@.len() {
        lemma_edges_here_len(v, i + 1);
    }
}

/// A subtree of `k` nodes has `k - 1` parent/child pairs.
proof fn lemma_edges_len(n: PlanNode, path: Seq<usize>, desc: Seq<char>)
    ensures
        edges(n, path, desc).len() + 1 == preorder(n, path, desc).len(),
    decreases n, n.children@.len() + 1,
{
    let k = n.children@.len() as int;
    lemma_edges_here_len((n, path, desc), 0);
    lemma_edges_below_len(n, path, desc, k);
    assert(preorder_from(n, path, desc, k) =~= Seq::<Visit>::empty());
}

proof fn lemma_edges_below_len(n: PlanNode, path: Seq<usize>, desc: Seq<char>, j: int)
    requires
        0 <= j <= n.children@.len(),
    ensures
        edges_below(n, path, desc, j).len() + j + preorder_from(n, path, desc, j).len()
            == preorder_from(n, path, desc, 0).len(),
    decreases n, j,
{
    if j > 0 {
        let c = n.children@[j - 1];
        let cp = path.push((j - 1) as usize);
        let cd = child_description(desc, c.original_text@);
        lemma_edges_len(c, cp, cd);
        lemma_edges_below_len(n, path, desc, j - 1);
    }
}

/// The last visit of a subtree's pre-order is a leaf.
proof fn lemma_preorder_ends_in_leaf(n: PlanNode, path: Seq<usize>, desc: Seq<char>)
    ensures
        preorder(n, path, desc).len() >= 1,
        preorder(n, path, desc).last().0.children@.len() == 0,
    decreases n, n.children@.len() + 1,
{
    if n.children@.len() == 0 {
        assert(preorder_from(n, path, desc, 0) =~= Seq::<Visit>::empty());
        assert(preorder(n, path, desc) =~= seq![(n, path, desc)]);
    } else {
        lemma_preorder_from_ends_in_leaf(n, path, desc, 0);
        let a = seq![(n, path, desc)];
        let b = preorder_from(n, path, desc, 0);
        assert((a + b).last() == b.last());
    }
}

/// The pre-order of the subtrees of children `i..` of `n`, when there are
/// any, ends in a leaf.
proof fn lemma_preorder_from_ends_in_leaf(n: PlanNode, path: Seq<usize>, desc: Seq<char>, i: int)
    requires
        0 <= i < n.children@.len(),
    ensures
        preorder_from(n, path, desc, i).len() >= 1,
        preorder_from(n, path, desc, i).last().0.children@.len() == 0,
    decreases n, n.children@.len() - i,
{
    let c = n.children@[i];
    let cp = path.push(i as usize);
    let cd = child_description(desc, c.original_text@);
    let a = preorder(c, cp, cd);
    let b = preorder_from(n, path, desc, i + 1);
    assert(preorder_from(n, path, desc, i) == a + b);
    if i + 1 < n.children@.len() {
        lemma_preorder_from_ends_in_leaf(n, path, desc, i + 1);
        assert((a + b).last() == b.last());
    } else {
        lemma_preorder_ends_in_leaf(c, cp, cd);
        assert(b =~= Seq::<Visit>::empty());
        assert(a + b =~= a);
    }
}

/// A flagged last entry is selected.
proof fn lemma_select_keeps_last<T>(s: Seq<T>, keep: Seq<bool>)
    requires
        s.len() == keep.len(),
        s.len() > 0,
        keep.last(),
    ensures
        select(s, keep).len() >= 1,
{
}

/// No more entries are selected than there are.
proof fn lemma_select_len<T>(s: Seq<T>, keep: Seq<bool>)
    ensures
        select(s, keep).len() <= s.len(),
    decreases s.len(),
{
    if s.len() > 0 && keep.len() > 0 {
        lemma_select_len(s.drop_last(), keep.drop_last());
    }
}

/// Every plan has at least one leaf: the last node of its depth-first walk.
pub proof fn lemma_every_plan_has_a_leaf(plan: ParsedPlan)
    ensures
        select(plan_preorder(plan), leaf_flags(plan_preorder(plan))).len() >= 1,
{
    let pre = plan_preorder(plan);
    lemma_preorder_ends_in_leaf(plan.root, Seq::empty(), root_description());
    let f = leaf_flags(pre);
    assert(f.last() == (pre[pre.len() - 1].0.children@.len() == 0));
    lemma_select_keeps_last(pre, f);
}

impl<'a> PlanTraversal {
    /// Every leaf (node without children), with its path, depth first; a
    /// plan always has at least one.
    pub fn get_leaf_nodes(plan: &'a ParsedPlan) -> (r: Vec<(&'a PlanNode, NodePath)>)
        ensures
            entry_visits(r@) == select(plan_preorder(*plan), leaf_flags(plan_preorder(*plan))),
            r@.len() >= 1,
    {
        let is_leaf = |node: &PlanNode| -> (b: bool)
            ensures
                b == (node.children@.len() == 0),
            { node.children.len() == 0 };
        let r = Self::find_nodes(plan, is_leaf);
        proof {
            let pre = plan_preorder(*plan);
            let keep = choose|keep: Seq<bool>|
                {
                    &&& keep.len() == pre.len()
                    &&& forall|i: int|
                        0 <= i < keep.len() ==> is_leaf.ensures((&pre[i].0,), #[trigger] keep[i])
                    &&& entry_visits(r@) == select(pre, keep)
                };
            assert forall|i: int| 0 <= i < keep.len() implies keep[i] == leaf_flags(pre)[i] by {
                assert(is_leaf.ensures((&pre[i].0,), keep[i]));
            }
            assert(keep =~= leaf_flags(pre));
            lemma_every_plan_has_a_leaf(*plan);
            assert(entry_visits(r@).len() == r@.len());
        }
        r
    }
}

pub open spec fn deep_entry_visits(s: Seq<(&PlanNode, NodePath, usize)>) -> Seq<Visit> {
    s.map_values(|e: (&PlanNode, NodePath, usize)| (*e.0, e.1.path@, e.1.description@))
}

impl<'a> PlanTraversal {
    /// Every node whose path has length `target_depth`, with its path, depth
    /// first. Subtrees below that depth are not walked.
    pub fn get_nodes_at_depth(plan: &'a ParsedPlan, target_depth: usize) -> (r: Vec<
        (&'a PlanNode, NodePath),
    >)
        ensures
            entry_visits(r@) == at_depth(plan_preorder(*plan), target_depth as nat),
    {
        let ghost pre = plan_preorder(*plan);
        let ghost d = target_depth as nat;
        let mut results: Vec<(&'a PlanNode, NodePath)> = Vec::new();
        let mut stack: Vec<(&'a PlanNode, NodePath, usize)> = Vec::new();
        stack.push((&plan.root, NodePath::root(), 0usize));
        proof {
            let st = deep_entry_visits(stack@);
            assert(st =~= seq![(plan.root, Seq::<usize>::empty(), root_description())]);
            assert(st.drop_last() =~= Seq::<Visit>::empty());
            assert(stack_order(st.drop_last()) =~= Seq::<Visit>::empty());
            assert(stack_order(st) =~= pre);
            assert(entry_visits(results@) =~= Seq::<Visit>::empty());
            assert(at_depth(Seq::<Visit>::empty(), d) =~= Seq::<Visit>::empty());
        }
        while stack.len() > 0
            invariant
                pre == plan_preorder(*plan),
                d == target_depth as nat,
                entry_visits(results@) + at_depth(stack_order(deep_entry_visits(stack@)), d)
                    == at_depth(pre, d),
                forall|k: int|
                    0 <= k < stack@.len() ==> (#[trigger] stack@[k]).2 as int == stack@[k].1.path@.len()
                        && stack@[k].2 <= target_depth,
            decreases stack_order(deep_entry_visits(stack@)).len(),
        {
            let ghost before = deep_entry_visits(stack@);
            let ghost old_stack = stack@;
            let (node, path, depth) = stack.pop().unwrap();
            let ghost t: Visit = (*node, path.path@, path.description@);
            let ghost rest = deep_entry_visits(stack@);
            proof {
                assert(before.drop_last() =~= rest);
                assert(before.last() == t);
                assert(old_stack[old_stack.len() - 1] == (node, path, depth));
                assert(old_stack[old_stack.len() - 1].2 as int == old_stack[old_stack.len()
                    - 1].1.path@.len());
                assert(depth as int == t.1.len());
                assert(at_depth(Seq::<Visit>::empty(), d) =~= Seq::<Visit>::empty());
                lemma_preorder_depth(t.0, t.1, t.2);
                lemma_at_depth_concat(seq![t], preorder_from(t.0, t.1, t.2, 0), d);
                lemma_at_depth_concat(preorder_of(t), stack_order(rest), d);
                assert(seq![t].drop_last() =~= Seq::<Visit>::empty());
                assert forall|k: int| 0 <= k < stack@.len() implies (#[trigger] stack@[k]).2 as int
                    == stack@[k].1.path@.len() && stack@[k].2 <= target_depth by {
                    assert(stack@[k] == old_stack[k]);
                }
            }
            if depth == target_depth {
                let ghost prev = results@;
                results.push((node, path));
                proof {
                    lemma_at_depth_none(preorder_from(t.0, t.1, t.2, 0), d);
                    assert(at_depth(seq![t], d) =~= seq![t]);
                    assert(entry_visits(results@) =~= entry_visits(prev).push(t));
                    assert(entry_visits(results@) + at_depth(stack_order(deep_entry_visits(stack@)), d)
                        =~= at_depth(pre, d));
                    lemma_preorder_len(t);
                }
            } else {
                proof {
                    assert(at_depth(seq![t], d) =~= Seq::<Visit>::empty());
                    assert(stack_order(deep_entry_visits(stack@)) =~= preorder_from(
                        t.0,
                        t.1,
                        t.2,
                        n_children(t) as int,
                    ) + stack_order(rest));
                }
                let mut j = node.children.len();
                while j > 0
                    invariant
                        j <= node.children@.len(),
                        t == (*node, path.path@, path.description@),
                        depth as int == path.path@.len(),
                        depth < target_depth,
                        stack_order(deep_entry_visits(stack@)) == preorder_from(t.0, t.1, t.2, j as int)
                            + stack_order(rest),
                        forall|k: int|
                            0 <= k < stack@.len() ==> (#[trigger] stack@[k]).2 as int
                                == stack@[k].1.path@.len() && stack@[k].2 <= target_depth,
                    decreases j,
                {
                    j = j - 1;
                    let child = &node.children[j];
                    let child_path = path.child_of(j, child.description());
                    let ghost st = deep_entry_visits(stack@);
                    let ghost prev_stack = stack@;
                    stack.push((child, child_path, depth + 1));
                    proof {
                        assert(deep_entry_visits(stack@) =~= st.push(child_visit(t, j as int)));
                        lemma_push_child(st, t, j as int, stack_order(rest));
                        assert forall|k: int| 0 <= k < stack@.len() implies (#[trigger] stack@[k]).2 as int
                            == stack@[k].1.path@.len() && stack@[k].2 <= target_depth by {
                            if k < prev_stack.len() {
                                assert(stack@[k] == prev_stack[k]);
                            }
                        }
                    }
                }
                proof {
                    lemma_at_depth_concat(preorder_from(t.0, t.1, t.2, 0), stack_order(rest), d);
                    assert(stack_order(before) == preorder_of(t) + stack_order(rest));
                    assert(preorder_of(t) == seq![t] + preorder_from(t.0, t.1, t.2, 0));
                    assert(at_depth(preorder_of(t), d) =~= at_depth(preorder_from(t.0, t.1, t.2, 0), d));
                    assert(entry_visits(results@) + at_depth(stack_order(deep_entry_visits(stack@)), d)
                        =~= at_depth(pre, d));
                    lemma_preorder_len(t);
                }
            }
        }
        proof {
            assert(stack_order(deep_entry_visits(stack@)) =~= Seq::<Visit>::empty());
            assert(at_depth(Seq::<Visit>::empty(), d) =~= Seq::<Visit>::empty());
            assert(entry_visits(results@) =~= at_depth(pre, d));
        }
        results
    }
}


proof fn lemma_edges_here_step(v: Visit, i: int)
    requires
        0 <= i < v.0.children@.len(),
    ensures
        edges_here(v, i) == seq![(v, child_visit(v, i))] + edges_here(v, i + 1),
{
}

impl<'a> PlanTraversal {
    /// Every parent/child pair of the plan: a node's pairs with each of its
    /// children left to right, then the pairs within its children's subtrees
    /// from the last child to the first.
    pub fn get_parent_child_pairs(plan: &'a ParsedPlan) -> (r: Vec<
        ((&'a PlanNode, NodePath), (&'a PlanNode, NodePath)),
    >)
        ensures
            pair_views(r@) == edges(plan.root, Seq::empty(), root_description()),
    {
        let ghost total = edges(plan.root, Seq::empty(), root_description());
        let mut results: Vec<((&'a PlanNode, NodePath), (&'a PlanNode, NodePath))> = Vec::new();
        let mut stack: Vec<(&'a PlanNode, NodePath)> = Vec::new();
        stack.push((&plan.root, NodePath::root()));
        proof {
            let st = entry_visits(stack@);
            assert(st =~= seq![(plan.root, Seq::<usize>::empty(), root_description())]);
            assert(st.drop_last() =~= Seq::<Visit>::empty());
            assert(stack_edges(st.drop_last()) =~= Seq::<Edge>::empty());
            assert(stack_edges(st) =~= total);
            assert(pair_views(results@) =~= Seq::<Edge>::empty());
        }
        while stack.len() > 0
            invariant
                total == edges(plan.root, Seq::empty(), root_description()),
                pair_views(results@) + stack_edges(entry_visits(stack@)) == total,
            decreases stack_order(entry_visits(stack@)).len(),
        {
            let ghost before = entry_visits(stack@);
            let (node, path) = stack.pop().unwrap();
            let ghost t: Visit = (*node, path.path@, path.description@);
            let ghost rest = entry_visits(stack@);
            let ghost k = node.children@.len() as int;
            proof {
                assert(before.drop_last() =~= rest);
                assert(before.last() == t);
                assert(edges_here(t, 0) + edges_below(t.0, t.1, t.2, 0) + stack_edges(rest)
                    =~= edges_here(t, 0) + stack_edges(rest));
                lemma_preorder_len(t);
            }
            let mut i: usize = 0;
            while i < node.children.len()
                invariant
                    i <= node.children@.len(),
                    k == node.children@.len(),
                    t == (*node, path.path@, path.description@),
                    total == edges(plan.root, Seq::empty(), root_description()),
                    pair_views(results@) + edges_here(t, i as int) + edges_below(t.0, t.1, t.2, k)
                        + stack_edges(rest) == total,
                    stack_edges(entry_visits(stack@)) == edges_below(t.0, t.1, t.2, i as int)
                        + stack_edges(rest),
                    stack_order(entry_visits(stack@)).len() + preorder_from(t.0, t.1, t.2, i as int).len()
                        == preorder_of(t).len() - 1 + stack_order(rest).len(),
                decreases node.children@.len() - i,
            {
                let child = &node.children[i];
                let child_path = path.child_of(i, child.description());
                let ghost cv = child_visit(t, i as int);
                let ghost prev = results@;
                results.push(((node, path.clone()), (child, child_path.clone())));
                let ghost st = entry_visits(stack@);
                stack.push((child, child_path));
                proof {
                    lemma_edges_here_step(t, i as int);
                    assert(pair_views(results@) =~= pair_views(prev).push((t, cv)));
                    assert(entry_visits(stack@) =~= st.push(cv));
                    assert(entry_visits(stack@).drop_last() =~= st);
                    assert(pair_views(results@) + edges_here(t, i + 1) =~= pair_views(prev)
                        + edges_here(t, i as int));
                }
                i = i + 1;
            }
            proof {
                assert(edges_here(t, k) =~= Seq::<Edge>::empty());
                assert(pair_views(results@) + stack_edges(entry_visits(stack@)) =~= total);
            }
        }
        proof {
            assert(stack_edges(entry_visits(stack@)) =~= Seq::<Edge>::empty());
            assert(pair_views(results@) =~= total);
        }
        results
    }
}


// ---------------------------------------------------------------------------
// Paths and the nodes they lead to
// ---------------------------------------------------------------------------

/// The node that `path` leads to from `n`, following child indices.
pub open spec fn node_at(n: PlanNode, path: Seq<usize>) -> Option<PlanNode>
    decreases path.len(),
{
    if path.len() == 0 {
        Some(n)
    } else if path[0] < n.children@.len() {
        node_at(n.children@[path[0] as int], path.drop_first())
    } else {
        None
    }
}

/// Each visit of a walk from `n` at `path` extends `path` by a suffix that
/// leads from `n` to the visited node.
proof fn lemma_preorder_resolves(n: PlanNode, path: Seq<usize>, desc: Seq<char>)
    ensures
        forall|k: int|
            0 <= k < preorder(n, path, desc).len() ==> {
                let w = #[trigger] preorder(n, path, desc)[k];
                &&& path.len() <= w.1.len()
                &&& w.1.take(path.len() as int) == path
                &&& node_at(n, w.1.skip(path.len() as int)) == Some(w.0)
            },
    decreases n, n.children@.len() + 1,
{
    lemma_preorder_from_resolves(n, path, desc, 0);
    let b = preorder_from(n, path, desc, 0);
    assert forall|k: int| 0 <= k < preorder(n, path, desc).len() implies {
        let w = #[trigger] preorder(n, path, desc)[k];
        &&& path.len() <= w.1.len()
        &&& w.1.take(path.len() as int) == path
        &&& node_at(n, w.1.skip(path.len() as int)) == Some(w.0)
    } by {
        let w = preorder(n, path, desc)[k];
        if k == 0 {
            assert(w == (n, path, desc));
            assert(path.take(path.len() as int) =~= path);
            assert(path.skip(path.len() as int) =~= Seq::<usize>::empty());
        } else {
            assert(w == b[k - 1]);
        }
    }
}

proof fn lemma_preorder_from_resolves(n: PlanNode, path: Seq<usize>, desc: Seq<char>, i: int)
    ensures
        forall|k: int|
            0 <= k < preorder_from(n, path, desc, i).len() ==> {
                let w = #[trigger] preorder_from(n, path, desc, i)[k];
                &&& path.len() <= w.1.len()
                &&& w.1.take(path.len() as int) == path
                &&& node_at(n, w.1.skip(path.len() as int)) == Some(w.0)
            },
    decreases n, n.children@.len() - i,
{
    if 0 <= i < n.children@.len() {
        let c = n.children@[i];
        let cp = path.push(i as usize);
        let cd = child_description(desc, c.original_text@);
        lemma_preorder_resolves(c, cp, cd);
        lemma_preorder_from_resolves(n, path, desc, i + 1);
        let a = preorder(c, cp, cd);
        let b = preorder_from(n, path, desc, i + 1);
        assert forall|k: int| 0 <= k < preorder_from(n, path, desc, i).len() implies {
            let w = #[trigger] preorder_from(n, path, desc, i)[k];
            &&& path.len() <= w.1.len()
            &&& w.1.take(path.len() as int) == path
            &&& node_at(n, w.1.skip(path.len() as int)) == Some(w.0)
        } by {
            let w = preorder_from(n, path, desc, i)[k];
            if k < a.len() {
                assert(w == a[k]);
                assert(w.1.take(cp.len() as int) == cp);
                assert(w.1.take(path.len() as int) =~= cp.take(path.len() as int));
                assert(cp.take(path.len() as int) =~= path);
                let q = w.1.skip(path.len() as int);
                assert(q[0] == w.1[path.len() as int]);
                assert(w.1[path.len() as int] == cp[path.len() as int]);
                assert(q.drop_first() =~= w.1.skip(cp.len() as int));
                assert(q.len() > 0);
                assert(n.children@.len() == n.children.len());
                assert(cp[path.len() as int] == i as usize);
                assert(q[0] as int == i);
                assert(n.children@[q[0] as int] == c);
                assert(node_at(n, q) == node_at(c, q.drop_first()));
            } else {
                assert(w == b[k - a.len()]);
            }
        }
    }
}

/// Every node that a depth-first walk lists is the node that its path leads
/// to from the root.
pub proof fn lemma_walk_paths_resolve(plan: ParsedPlan, k: int)
    requires
        0 <= k < plan_preorder(plan).len(),
    ensures
        node_at(plan.root, plan_preorder(plan)[k].1) == Some(plan_preorder(plan)[k].0),
{
    lemma_preorder_resolves(plan.root, Seq::empty(), root_description());
    let w = plan_preorder(plan)[k];
    assert(w.1.skip(0) =~= w.1);
}

/// A plan of `k` nodes has `k - 1` parent/child pairs.
pub proof fn lemma_pair_count(plan: ParsedPlan)
    ensures
        edges(plan.root, Seq::empty(), root_description()).len() + 1 == plan_preorder(plan).len(),
{
    lemma_edges_len(plan.root, Seq::empty(), root_description());
}


// ---------------------------------------------------------------------------
// Relationships between nodes
// ---------------------------------------------------------------------------

/// The nodes strictly below `n`, depth first.
pub open spec fn descendants(n: PlanNode) -> Seq<PlanNode>
    decreases n, n.children@.len() + 1,
{
    descendants_from(n, 0)
}

/// Children `i..` of `n`, each followed by its own descendants.
pub open spec fn descendants_from(n: PlanNode, i: int) -> Seq<PlanNode>
    decreases n, n.children@.len() - i,
{
    if 0 <= i < n.children@.len() {
        let c = n.children@[i];
        seq![c] + descendants(c) + descendants_from(n, i + 1)
    } else {
        Seq::empty()
    }
}

/// The nodes on the way from the parent of `path`'s target up to `n`,
/// nearest first, skipping prefixes that lead nowhere.
pub open spec fn ancestors(n: PlanNode, path: Seq<usize>) -> Seq<PlanNode>
    decreases path.len(),
{
    if path.len() == 0 {
        Seq::empty()
    } else {
        let up = path.drop_last();
        let here: Seq<PlanNode> = match node_at(n, up) {
            Some(a) => seq![a],
            None => Seq::empty(),
        };
        here + ancestors(n, up)
    }
}

/// The nodes of `s` except the one at index `skip`.
pub open spec fn all_but(s: Seq<PlanNode>, skip: int) -> Seq<PlanNode>
    decreases s.len(),
{
    if s.len() == 0 {
        Seq::empty()
    } else if s.len() - 1 == skip {
        all_but(s.drop_last(), skip)
    } else {
        all_but(s.drop_last(), skip).push(s.last())
    }
}

pub open spec fn node_refs(s: Seq<&PlanNode>) -> Seq<PlanNode> {
    s.map_values(|r: &PlanNode| *r)
}

/// Answers questions about how the nodes of one plan relate to each other.
pub struct NodeRelationshipAnalyzer<'a> {
    plan: &'a ParsedPlan,
}

impl<'a> NodeRelationshipAnalyzer<'a> {
    pub closed spec fn root(&self) -> PlanNode {
        self.plan.root
    }

    pub fn new(plan: &'a ParsedPlan) -> (r: Self)
        ensures
            r.root() == plan.root,
    {
        NodeRelationshipAnalyzer { plan }
    }

    /// The node that `path` leads to from the root.
    pub fn get_node_at_path(&self, path: &[usize]) -> (r: Option<&'a PlanNode>)
        ensures
            match r {
                Some(n) => node_at(self.root(), path@) == Some(*n),
                None => node_at(self.root(), path@) is None,
            },
    {
        let mut current: &'a PlanNode = &self.plan.root;
        let mut i: usize = 0;
        assert(path@.skip(0) =~= path@);
        while i < path.len()
            invariant
                i <= path.len(),
                node_at(self.root(), path@) == node_at(*current, path@.skip(i as int)),
            decreases path.len() - i,
        {
            let index = path[i];
            let ghost q = path@.skip(i as int);
            proof {
                assert(q[0] == index);
                assert(q.drop_first() =~= path@.skip(i as int + 1));
            }
            if index >= current.children.len() {
                return None;
            }
            current = &current.children[index];
            i = i + 1;
        }
        proof {
            assert(path@.skip(i as int) =~= Seq::<usize>::empty());
        }
        Some(current)
    }

    /// The parent of the node at `node_path`; the root has none.
    pub fn get_parent(&self, node_path: &NodePath) -> (r: Option<&'a PlanNode>)
        ensures
            match r {
                Some(n) => node_path.path@.len() > 0 && node_at(
                    self.root(),
                    node_path.path@.drop_last(),
                ) == Some(*n),
                None => node_path.path@.len() == 0 || node_at(
                    self.root(),
                    node_path.path@.drop_last(),
                ) is None,
            },
    {
        if node_path.path.len() == 0 {
            return None;
        }
        let parent_path = node_path.path.as_slice().split_at(node_path.path.len() - 1).0;
        assert(parent_path@ =~= node_path.path@.drop_last());
        self.get_node_at_path(parent_path)
    }

    /// The other children of the parent of the node at `node_path`.
    pub fn get_siblings(&self, node_path: &NodePath) -> (r: Vec<&'a PlanNode>)
        ensures
            node_refs(r@) == if node_path.path@.len() > 0 {
                match node_at(self.root(), node_path.path@.drop_last()) {
                    Some(p) => all_but(p.children@, node_path.path@.last() as int),
                    None => Seq::empty(),
                }
            } else {
                Seq::empty()
            },
    {
        let mut out: Vec<&'a PlanNode> = Vec::new();
        assert(node_refs(out@) =~= Seq::<PlanNode>::empty());
        if let Some(parent) = self.get_parent(node_path) {
            let self_index = node_path.path[node_path.path.len() - 1];
            let mut i: usize = 0;
            while i < parent.children.len()
                invariant
                    i <= parent.children@.len(),
                    node_refs(out@) == all_but(parent.children@.take(i as int), self_index as int),
                decreases parent.children@.len() - i,
            {
                let ghost t = parent.children@.take(i as int + 1);
                assert(t.drop_last() =~= parent.children@.take(i as int));
                if i != self_index {
                    let ghost prev = out@;
                    out.push(&parent.children[i]);
                    assert(node_refs(out@) =~= node_refs(prev).push(parent.children@[i as int]));
                }
                i = i + 1;
            }
            assert(parent.children@.take(parent.children@.len() as int) =~= parent.children@);
        }
        out
    }

    /// The ancestors of the node at `node_path`, nearest first.
    pub fn get_ancestors(&self, node_path: &NodePath) -> (r: Vec<&'a PlanNode>)
        ensures
            node_refs(r@) == ancestors(self.root(), node_path.path@),
    {
        let mut out: Vec<&'a PlanNode> = Vec::new();
        let mut current_path = node_path.path.clone();
        assert(current_path@ =~= node_path.path@);
        assert(node_refs(out@) =~= Seq::<PlanNode>::empty());
        while current_path.len() > 0
            invariant
                node_refs(out@) + ancestors(self.root(), current_path@) == ancestors(
                    self.root(),
                    node_path.path@,
                ),
            decreases current_path@.len(),
        {
            let ghost before = current_path@;
            current_path.pop();
            assert(current_path@ =~= before.drop_last());
            let found = self.get_node_at_path(current_path.as_slice());
            match found {
                Some(a) => {
                    let ghost prev = out@;
                    out.push(a);
                    assert(node_refs(out@) =~= node_refs(prev).push(*a));
                    assert(node_refs(out@) + ancestors(self.root(), current_path@) =~= node_refs(prev)
                        + ancestors(self.root(), before));
                },
                None => {
                    assert(node_refs(out@) + ancestors(self.root(), current_path@) =~= node_refs(out@)
                        + ancestors(self.root(), before));
                },
            }
        }
        assert(node_refs(out@) =~= ancestors(self.root(), node_path.path@));
        out
    }

    /// The nodes strictly below `node`, depth first.
    pub fn get_descendants<'b>(&self, node: &'b PlanNode) -> (r: Vec<&'b PlanNode>)
        ensures
            node_refs(r@) == descendants(*node),
        decreases node,
    {
        let mut out: Vec<&'b PlanNode> = Vec::new();
        let mut i: usize = 0;
        assert(node_refs(out@) =~= Seq::<PlanNode>::empty());
        while i < node.children.len()
            invariant
                i <= node.children@.len(),
                node_refs(out@) + descendants_from(*node, i as int) == descendants(*node),
            decreases node.children@.len() - i,
        {
            let child = &node.children[i];
            let ghost prev = out@;
            out.push(child);
            let below = self.get_descendants(child);
            let mut k: usize = 0;
            while k < below.len()
                invariant
                    k <= below@.len(),
                    node_refs(out@) == node_refs(prev) + seq![*child] + node_refs(below@).take(k as int),
                decreases below@.len() - k,
            {
                let ghost before = out@;
                out.push(below[k]);
                assert(node_refs(out@) =~= node_refs(before).push(*below@[k as int]));
                assert(node_refs(below@).take(k as int + 1) =~= node_refs(below@).take(k as int).push(
                    *below@[k as int],
                ));
                k = k + 1;
            }
            assert(node_refs(below@).take(below@.len() as int) =~= node_refs(below@));
            assert(node_refs(out@) + descendants_from(*node, i + 1) =~= node_refs(prev)
                + descendants_from(*node, i as int));
            i = i + 1;
        }
        assert(node_refs(out@) =~= descendants(*node));
        out
    }

    /// Whether the node at `potential_ancestor_path` lies strictly above the
    /// node at `descendant_path`.
    pub fn is_ancestor(&self, potential_ancestor_path: &NodePath, descendant_path: &NodePath) -> (r:
        bool)
        ensures
            r == (potential_ancestor_path.path@.len() < descendant_path.path@.len()
                && descendant_path.path@.take(potential_ancestor_path.path@.len() as int)
                == potential_ancestor_path.path@),
    {
        let a = &potential_ancestor_path.path;
        let d = &descendant_path.path;
        if a.len() >= d.len() {
            return false;
        }
        let mut i: usize = 0;
        while i < a.len()
            invariant
                a@ == potential_ancestor_path.path@,
                d@ == descendant_path.path@,
                a@.len() < d@.len(),
                i <= a@.len(),
                forall|j: int| 0 <= j < i ==> d@[j] == a@[j],
            decreases a@.len() - i,
        {
            if d[i] != a[i] {
                assert(d@.take(a@.len() as int)[i as int] == d@[i as int]);
                assert(d@.take(a@.len() as int)[i as int] != a@[i as int]);
                assert(d@.take(a@.len() as int) != a@);
                return false;
            }
            i = i + 1;
        }
        assert(d@.take(a@.len() as int) =~= a@);
        true
    }
}


impl<'a> PlanTraversal {
    /// Every node of the plan with its path, in pre-order (parents before
    /// children, children left to right): the order in which a depth-first
    /// walk enters them.
    pub fn depth_first_visits(plan: &'a ParsedPlan) -> (r: Vec<(&'a PlanNode, NodePath)>)
        ensures
            entry_visits(r@) == plan_preorder(*plan),
    {
        let every = |node: &PlanNode| -> (b: bool)
            ensures
                b,
            { true };
        let r = Self::find_nodes(plan, every);
        proof {
            let pre = plan_preorder(*plan);
            let keep = choose|keep: Seq<bool>|
                {
                    &&& keep.len() == pre.len()
                    &&& forall|i: int|
                        0 <= i < keep.len() ==> every.ensures((&pre[i].0,), #[trigger] keep[i])
                    &&& entry_visits(r@) == select(pre, keep)
                };
            assert forall|i: int| 0 <= i < keep.len() implies keep[i] == all_kept(pre.len())[i] by {
                assert(every.ensures((&pre[i].0,), keep[i]));
            }
            assert(keep =~= all_kept(pre.len()));
            lemma_select_all(pre);
        }
        r
    }
}

pub open spec fn n_children(v: Visit) -> nat {
    v.0.children@.len()
}

/// Walks over the plan tree.
pub struct PlanTraversal;


/// Counts the visited nodes that satisfy a predicate.
pub struct CountingVisitor<F> {
    pub count: usize,
    predicate: F,
}

impl<F: Fn(&PlanNode) -> bool> CountingVisitor<F> {
    /// The predicate the visitor counts by.
    pub closed spec fn counts_by(self) -> F {
        self.predicate
    }

    /// The number of nodes counted so far.
    pub closed spec fn counted(self) -> nat {
        self.count as nat
    }

    /// A visitor with a zero count.
    pub fn new(predicate: F) -> (r: Self)
        ensures
            r.counted() == 0,
            r.counts_by() == predicate,
    {
        CountingVisitor { count: 0, predicate }
    }

    /// Count `node` if the predicate holds of it.
    pub fn visit_node(&mut self, node: &PlanNode)
        requires
            old(self).counted() < usize::MAX,
            old(self).counts_by().requires((node,)),
        ensures
            final(self).counts_by() == old(self).counts_by(),
            exists|b: bool|
                #[trigger] old(self).counts_by().ensures((node,), b) && final(self).counted() == old(
                    self,
                ).counted() + if b {
                    1int
                } else {
                    0int
                },
    {
        let hit = (self.predicate)(node);
        if hit {
            self.count = self.count + 1;
        }
    }

    /// Visit every node of `plan`, depth first: afterwards the count has
    /// grown by the number of nodes of the plan that the predicate holds of.
    pub fn walk(&mut self, plan: &ParsedPlan)
        requires
            forall|n: &PlanNode| #[trigger] old(self).counts_by().requires((n,)),
            old(self).counted() + plan_preorder(*plan).len() <= usize::MAX,
        ensures
            final(self).counts_by() == old(self).counts_by(),
            exists|keep: Seq<bool>|
                {
                    &&& keep.len() == plan_preorder(*plan).len()
                    &&& forall|i: int|
                        0 <= i < keep.len() ==> old(self).counts_by().ensures(
                            (&plan_preorder(*plan)[i].0,),
                            #[trigger] keep[i],
                        )
                    &&& final(self).counted() == old(self).counted() + select(plan_preorder(*plan), keep).len()
                },
    {
        let visits = PlanTraversal::depth_first_visits(plan);
        let ghost pre = plan_preorder(*plan);
        let ghost f = self.counts_by();
        let ghost start = self.counted();
        let ghost mut keep: Seq<bool> = Seq::empty();
        let mut i: usize = 0;
        proof {
            assert(pre.take(0) =~= Seq::<Visit>::empty());
        }
        while i < visits.len()
            invariant
                i <= visits@.len(),
                entry_visits(visits@) == pre,
                pre == plan_preorder(*plan),
                self.counts_by() == f,
                forall|n: &PlanNode| #[trigger] f.requires((n,)),
                start + pre.len() <= usize::MAX,
                keep.len() == i,
                forall|j: int| 0 <= j < i ==> f.ensures((&pre[j].0,), #[trigger] keep[j]),
                self.counted() == start + select(pre.take(i as int), keep).len(),
            decreases visits@.len() - i,
        {
            let node = visits[i].0;
            assert(pre[i as int].0 == *node);
            proof {
                lemma_select_len(pre.take(i as int), keep);
            }
            let ghost before = self.counted();
            self.visit_node(node);
            proof {
                let b = choose|b: bool| #[trigger] f.ensures((node,), b) && self.counted() == before + if b {
                    1int
                } else {
                    0int
                };
                let t2 = pre.take(i as int + 1);
                let k2 = keep.push(b);
                assert(t2.drop_last() =~= pre.take(i as int));
                assert(k2.drop_last() =~= keep);
                assert(t2.last() == pre[i as int]);
                assert forall|j: int| 0 <= j < i + 1 implies f.ensures((&pre[j].0,), #[trigger] k2[j]) by {
                    if j < i {
                        assert(k2[j] == keep[j]);
                    }
                }
                keep = k2;
            }
            i = i + 1;
        }
        proof {
            assert(pre.take(i as int) =~= pre);
        }
    }
}

} // verus!
