//! The depth-first walk as a visitor sees it: each node is entered before
//! its children are walked, and visited and left after them.
use vstd::prelude::*;
use crate::plan::{ParsedPlan, PlanNode};
use super::{NodePath, child_description, root_description};
use super::traversal::{PlanTraversal, Visit, child_visit, entry_visits, n_children, preorder, preorder_from};

verus! {

broadcast use vstd::std_specs::vec::group_vec_axioms;

/// What the walk does at a node.
#[derive(Debug, Clone, Copy, PartialEq, Eq, Structural)]
pub enum WalkStep {
    /// Before the node's children are walked.
    Enter,
    /// After the node's children are walked.
    Visit,
    /// Right after the visit.
    Exit,
}

/// One step of the walk at one node.
pub type WalkEvent = (WalkStep, Visit);

/// The walk of the subtree of `n`: enter it, walk its children left to
/// right, then visit it and leave it.
pub open spec fn walk_events(n: PlanNode, path: Seq<usize>, desc: Seq<char>) -> Seq<WalkEvent>
    decreases n, n.children@.len() + 1,
{
    seq![(WalkStep::Enter, (n, path, desc))] + walk_events_from(n, path, desc, 0) + seq![
        (WalkStep::Visit, (n, path, desc)),
        (WalkStep::Exit, (n, path, desc)),
    ]
}

/// The walks of the subtrees of children `i..` of `n`, in order.
pub open spec fn walk_events_from(n: PlanNode, path: Seq<usize>, desc: Seq<char>, i: int) -> Seq<
    WalkEvent,
>
    decreases n, n.children@.len() - i,
{
    if 0 <= i < n.children@.len() {
        let c = n.children@[i];
        walk_events(c, path.push(i as usize), child_description(desc, c.original_text@))
            + walk_events_from(n, path, desc, i + 1)
    } else {
        Seq::empty()
    }
}

/// The walk of the whole plan.
pub open spec fn plan_walk_events(plan: ParsedPlan) -> Seq<WalkEvent> {
    walk_events(plan.root, Seq::empty(), root_description())
}

/// Depth first with every node after its children (children left to right).
pub open spec fn postorder(n: PlanNode, path: Seq<usize>, desc: Seq<char>) -> Seq<Visit>
    decreases n, n.children@.len() + 1,
{
    postorder_from(n, path, desc, 0).push((n, path, desc))
}

/// The post-order of the subtrees of children `i..` of `n`.
pub open spec fn postorder_from(n: PlanNode, path: Seq<usize>, desc: Seq<char>, i: int) -> Seq<Visit>
    decreases n, n.children@.len() - i,
{
    if 0 <= i < n.children@.len() {
        let c = n.children@[i];
        postorder(c, path.push(i as usize), child_description(desc, c.original_text@))
            + postorder_from(n, path, desc, i + 1)
    } else {
        Seq::empty()
    }
}

/// Every node of the plan, each after its children.
pub open spec fn plan_postorder(plan: ParsedPlan) -> Seq<Visit> {
    postorder(plan.root, Seq::empty(), root_description())
}

/// The nodes at which the events of `s` take step `step`, in order.
pub open spec fn steps_of(s: Seq<WalkEvent>, step: WalkStep) -> Seq<Visit>
    decreases s.len(),
{
    if s.len() == 0 {
        Seq::empty()
    } else if s.last().0 == step {
        steps_of(s.drop_last(), step).push(s.last().1)
    } else {
        steps_of(s.drop_last(), step)
    }
}

proof fn lemma_steps_of_concat(a: Seq<WalkEvent>, b: Seq<WalkEvent>, step: WalkStep)
    ensures
        steps_of(a + b, step) == steps_of(a, step) + steps_of(b, step),
    decreases b.len(),
{
    if b.len() == 0 {
        assert(a + b =~= a);
        assert(steps_of(a, step) + steps_of(b, step) =~= steps_of(a, step));
    } else {
        lemma_steps_of_concat(a, b.drop_last(), step);
        assert((a + b).drop_last() =~= a + b.drop_last());
        assert((a + b).last() == b.last());
    }
}

proof fn lemma_steps_of_single(e: WalkEvent, step: WalkStep)
    ensures
        steps_of(seq![e], step) == if e.0 == step {
            seq![e.1]
        } else {
            Seq::<Visit>::empty()
        },
{
    let s = seq![e];
    assert(s.drop_last() =~= Seq::<WalkEvent>::empty());
    assert(s.last() == e);
    assert(steps_of(s.drop_last(), step) =~= Seq::<Visit>::empty());
    assert(Seq::<Visit>::empty().push(e.1) =~= seq![e.1]);
    assert(steps_of(s, step) == if s.last().0 == step {
        steps_of(s.drop_last(), step).push(s.last().1)
    } else {
        steps_of(s.drop_last(), step)
    });
}

/// Nodes are entered in pre-order, and visited and left in post-order; the
/// walk has three steps per node.
pub proof fn lemma_walk_orders(n: PlanNode, path: Seq<usize>, desc: Seq<char>)
    ensures
        steps_of(walk_events(n, path, desc), WalkStep::Enter) == preorder(n, path, desc),
        steps_of(walk_events(n, path, desc), WalkStep::Visit) == postorder(n, path, desc),
        steps_of(walk_events(n, path, desc), WalkStep::Exit) == postorder(n, path, desc),
        walk_events(n, path, desc).len() == 3 * preorder(n, path, desc).len(),
    decreases n, n.children@.len() + 1,
{
    let v = (n, path, desc);
    let head = seq![(WalkStep::Enter, v)];
    let mid = walk_events_from(n, path, desc, 0);
    let tail = seq![(WalkStep::Visit, v), (WalkStep::Exit, v)];
    lemma_walk_orders_from(n, path, desc, 0);
    assert(tail =~= seq![(WalkStep::Visit, v)] + seq![(WalkStep::Exit, v)]);
    let steps = seq![WalkStep::Enter, WalkStep::Visit, WalkStep::Exit];
    assert forall|k: int| 0 <= k < 3 implies {
        let step = #[trigger] steps[k];
        steps_of(head + mid + tail, step) == steps_of(head, step) + steps_of(mid, step) + steps_of(
            seq![(WalkStep::Visit, v)],
            step,
        ) + steps_of(seq![(WalkStep::Exit, v)], step)
    } by {
        let step = steps[k];
        lemma_steps_of_concat(head, mid, step);
        lemma_steps_of_concat(head + mid, tail, step);
        lemma_steps_of_concat(seq![(WalkStep::Visit, v)], seq![(WalkStep::Exit, v)], step);
    }
    assert(steps[0] == WalkStep::Enter);
    assert(steps[1] == WalkStep::Visit);
    assert(steps[2] == WalkStep::Exit);
    lemma_steps_of_single((WalkStep::Enter, v), WalkStep::Enter);
    lemma_steps_of_single((WalkStep::Visit, v), WalkStep::Enter);
    lemma_steps_of_single((WalkStep::Exit, v), WalkStep::Enter);
    lemma_steps_of_single((WalkStep::Enter, v), WalkStep::Visit);
    lemma_steps_of_single((WalkStep::Visit, v), WalkStep::Visit);
    lemma_steps_of_single((WalkStep::Exit, v), WalkStep::Visit);
    lemma_steps_of_single((WalkStep::Enter, v), WalkStep::Exit);
    lemma_steps_of_single((WalkStep::Visit, v), WalkStep::Exit);
    lemma_steps_of_single((WalkStep::Exit, v), WalkStep::Exit);
    assert(walk_events(n, path, desc) == head + mid + tail);
    assert(seq![v] + preorder_from(n, path, desc, 0) == preorder(n, path, desc));
    assert(steps_of(walk_events(n, path, desc), WalkStep::Enter) =~= preorder(n, path, desc));
    assert(steps_of(walk_events(n, path, desc), WalkStep::Visit) =~= postorder(n, path, desc));
    assert(steps_of(walk_events(n, path, desc), WalkStep::Exit) =~= postorder(n, path, desc));
}

proof fn lemma_walk_orders_from(n: PlanNode, path: Seq<usize>, desc: Seq<char>, i: int)
    ensures
        steps_of(walk_events_from(n, path, desc, i), WalkStep::Enter) == preorder_from(n, path, desc, i),
        steps_of(walk_events_from(n, path, desc, i), WalkStep::Visit) == postorder_from(n, path, desc, i),
        steps_of(walk_events_from(n, path, desc, i), WalkStep::Exit) == postorder_from(n, path, desc, i),
        walk_events_from(n, path, desc, i).len() == 3 * preorder_from(n, path, desc, i).len(),
    decreases n, n.children@.len() - i,
{
    if 0 <= i < n.children@.len() {
        let c = n.children@[i];
        let cp = path.push(i as usize);
        let cd = child_description(desc, c.original_text@);
        lemma_walk_orders(c, cp, cd);
        lemma_walk_orders_from(n, path, desc, i + 1);
        let a = walk_events(c, cp, cd);
        let b = walk_events_from(n, path, desc, i + 1);
        lemma_steps_of_concat(a, b, WalkStep::Enter);
        lemma_steps_of_concat(a, b, WalkStep::Visit);
        lemma_steps_of_concat(a, b, WalkStep::Exit);
    } else {
        assert(steps_of(Seq::<WalkEvent>::empty(), WalkStep::Enter) =~= Seq::<Visit>::empty());
    }
}

/// The post-order lists as many nodes as the pre-order.
pub proof fn lemma_postorder_len(n: PlanNode, path: Seq<usize>, desc: Seq<char>)
    ensures
        postorder(n, path, desc).len() == preorder(n, path, desc).len(),
    decreases n, n.children@.len() + 1,
{
    lemma_postorder_len_from(n, path, desc, 0);
}

proof fn lemma_postorder_len_from(n: PlanNode, path: Seq<usize>, desc: Seq<char>, i: int)
    ensures
        postorder_from(n, path, desc, i).len() == preorder_from(n, path, desc, i).len(),
    decreases n, n.children@.len() - i,
{
    if 0 <= i < n.children@.len() {
        let c = n.children@[i];
        lemma_postorder_len(c, path.push(i as usize), child_description(desc, c.original_text@));
        lemma_postorder_len_from(n, path, desc, i + 1);
    }
}

/// The events still owed by one frame of the walk's stack.
pub open spec fn frame_events(f: WalkEvent) -> Seq<WalkEvent> {
    match f.0 {
        WalkStep::Enter => seq![f] + walk_events_from(f.1.0, f.1.1, f.1.2, 0),
        _ => seq![f],
    }
}

/// The events still owed by a stack of frames, top of the stack first.
pub open spec fn stack_events(st: Seq<WalkEvent>) -> Seq<WalkEvent>
    decreases st.len(),
{
    if st.len() == 0 {
        Seq::empty()
    } else {
        frame_events(st.last()) + stack_events(st.drop_last())
    }
}

/// An event as plain values.
pub open spec fn event_view(e: (WalkStep, &PlanNode, NodePath)) -> WalkEvent {
    (e.0, (*e.1, e.2.path@, e.2.description@))
}

pub open spec fn event_views(s: Seq<(WalkStep, &PlanNode, NodePath)>) -> Seq<WalkEvent> {
    s.map_values(|e: (WalkStep, &PlanNode, NodePath)| event_view(e))
}

/// Pushing a child's three frames on top of a stack puts the child's walk
/// in front of what the stack owed.
proof fn lemma_push_child_frames(st: Seq<WalkEvent>, t: Visit, j: int, rest: Seq<WalkEvent>)
    requires
        0 <= j < t.0.children@.len(),
        stack_events(st) == walk_events_from(t.0, t.1, t.2, j + 1) + rest,
    ensures
        stack_events(
            st.push((WalkStep::Exit, child_visit(t, j))).push((WalkStep::Visit, child_visit(t, j))).push(
                (WalkStep::Enter, child_visit(t, j)),
            ),
        ) == walk_events_from(t.0, t.1, t.2, j) + rest,
{
    let c = child_visit(t, j);
    let s1 = st.push((WalkStep::Exit, c));
    let s2 = s1.push((WalkStep::Visit, c));
    let s3 = s2.push((WalkStep::Enter, c));
    assert(s1.drop_last() =~= st);
    assert(s2.drop_last() =~= s1);
    assert(s3.drop_last() =~= s2);
    assert(stack_events(s1) == frame_events((WalkStep::Exit, c)) + stack_events(st));
    assert(stack_events(s2) == frame_events((WalkStep::Visit, c)) + stack_events(s1));
    assert(stack_events(s3) == frame_events((WalkStep::Enter, c)) + stack_events(s2));
    assert(frame_events((WalkStep::Exit, c)) == seq![(WalkStep::Exit, c)]);
    assert(frame_events((WalkStep::Visit, c)) == seq![(WalkStep::Visit, c)]);
    assert(frame_events((WalkStep::Enter, c)) == seq![(WalkStep::Enter, c)] + walk_events_from(
        c.0,
        c.1,
        c.2,
        0,
    ));
    assert(walk_events(c.0, c.1, c.2) == seq![(WalkStep::Enter, c)] + walk_events_from(c.0, c.1, c.2, 0)
        + seq![(WalkStep::Visit, c), (WalkStep::Exit, c)]);
    assert(walk_events_from(t.0, t.1, t.2, j) == walk_events(c.0, c.1, c.2) + walk_events_from(
        t.0,
        t.1,
        t.2,
        j + 1,
    ));
    assert(stack_events(s3) =~= walk_events_from(t.0, t.1, t.2, j) + rest);
}

impl<'a> PlanTraversal {
    /// The steps of the depth-first walk of the plan, in order: a node is
    /// entered before its children are walked (left to right), and visited
    /// and left after them. The walk keeps its own stack, so deep plans do
    /// not exhaust the call stack.
    pub fn depth_first_events(plan: &'a ParsedPlan) -> (r: Vec<(WalkStep, &'a PlanNode, NodePath)>)
        ensures
            event_views(r@) == plan_walk_events(*plan),
    {
        let ghost all = plan_walk_events(*plan);
        let mut out: Vec<(WalkStep, &'a PlanNode, NodePath)> = Vec::new();
        let mut stack: Vec<(WalkStep, &'a PlanNode, NodePath)> = Vec::new();
        stack.push((WalkStep::Exit, &plan.root, NodePath::root()));
        stack.push((WalkStep::Visit, &plan.root, NodePath::root()));
        stack.push((WalkStep::Enter, &plan.root, NodePath::root()));
        proof {
            let r: Visit = (plan.root, Seq::<usize>::empty(), root_description());
            let st = event_views(stack@);
            let s1 = seq![(WalkStep::Exit, r)];
            let s2 = s1.push((WalkStep::Visit, r));
            let s3 = s2.push((WalkStep::Enter, r));
            assert(st =~= s3);
            assert(s1.drop_last() =~= Seq::<WalkEvent>::empty());
            assert(s2.drop_last() =~= s1);
            assert(s3.drop_last() =~= s2);
            assert(stack_events(s1) == frame_events((WalkStep::Exit, r)) + stack_events(
                Seq::<WalkEvent>::empty(),
            ));
            assert(stack_events(s1) =~= seq![(WalkStep::Exit, r)]);
            assert(stack_events(s2) =~= seq![(WalkStep::Visit, r), (WalkStep::Exit, r)]);
            assert(stack_events(s3) =~= all);
            assert(event_views(out@) =~= Seq::<WalkEvent>::empty());
        }
        while stack.len() > 0
            invariant
                all == plan_walk_events(*plan),
                event_views(out@) + stack_events(event_views(stack@)) == all,
            decreases stack_events(event_views(stack@)).len(),
        {
            let ghost before = event_views(stack@);
            let (step, node, path) = stack.pop().unwrap();
            let ghost t: Visit = (*node, path.path@, path.description@);
            let ghost rest = event_views(stack@);
            let ghost emitted = event_views(out@);
            proof {
                assert(before.drop_last() =~= rest);
                assert(before.last() == (step, t));
            }
            let kept = path.clone();
            out.push((step, node, kept));
            proof {
                assert(event_views(out@) =~= emitted.push((step, t)));
            }
            match step {
                WalkStep::Enter => {
                    proof {
                        assert(stack_events(event_views(stack@)) =~= walk_events_from(
                            t.0,
                            t.1,
                            t.2,
                            n_children(t) as int,
                        ) + stack_events(rest));
                    }
                    let mut j = node.children.len();
                    while j > 0
                        invariant
                            j <= node.children@.len(),
                            t == (*node, path.path@, path.description@),
                            stack_events(event_views(stack@)) == walk_events_from(t.0, t.1, t.2, j as int)
                                + stack_events(rest),
                        decreases j,
                    {
                        j = j - 1;
                        let child = &node.children[j];
                        let child_path = path.child_of(j, child.description());
                        let ghost st = event_views(stack@);
                        stack.push((WalkStep::Exit, child, child_path.clone()));
                        stack.push((WalkStep::Visit, child, child_path.clone()));
                        stack.push((WalkStep::Enter, child, child_path));
                        proof {
                            let c = child_visit(t, j as int);
                            assert(event_views(stack@) =~= st.push((WalkStep::Exit, c)).push(
                                (WalkStep::Visit, c),
                            ).push((WalkStep::Enter, c)));
                            lemma_push_child_frames(st, t, j as int, stack_events(rest));
                        }
                    }
                    proof {
                        assert(frame_events((step, t)) =~= seq![(step, t)] + walk_events_from(
                            t.0,
                            t.1,
                            t.2,
                            0,
                        ));
                        assert(event_views(out@) + stack_events(event_views(stack@)) =~= all);
                    }
                },
                _ => {
                    proof {
                        assert(frame_events((step, t)) =~= seq![(step, t)]);
                        assert(event_views(out@) + stack_events(event_views(stack@)) =~= all);
                    }
                },
            }
        }
        proof {
            assert(stack_events(event_views(stack@)) =~= Seq::<WalkEvent>::empty());
            assert(event_views(out@) =~= all);
        }
        out
    }

    /// Every node of the plan with its path, each after its children: the
    /// order in which the depth-first walk visits them.
    pub fn post_order_visits(plan: &'a ParsedPlan) -> (r: Vec<(&'a PlanNode, NodePath)>)
        ensures
            entry_visits(r@) == plan_postorder(*plan),
    {
        let events = Self::depth_first_events(plan);
        let ghost ev = event_views(events@);
        let mut out: Vec<(&'a PlanNode, NodePath)> = Vec::new();
        let mut i: usize = 0;
        while i < events.len()
            invariant
                i <= events@.len(),
                ev == event_views(events@),
                ev == plan_walk_events(*plan),
                entry_visits(out@) == steps_of(ev.take(i as int), WalkStep::Visit),
            decreases events@.len() - i,
        {
            let ghost t = ev.take(i as int + 1);
            assert(t.drop_last() =~= ev.take(i as int));
            assert(t.last() == ev[i as int]);
            let step = events[i].0;
            let node = events[i].1;
            let ghost before = out@;
            match step {
                WalkStep::Visit => {
                    let path = events[i].2.clone();
                    out.push((node, path));
                    assert(entry_visits(out@) =~= entry_visits(before).push(ev[i as int].1));
                },
                _ => {},
            }
            i = i + 1;
        }
        proof {
            assert(ev.take(i as int) =~= ev);
            lemma_walk_orders(plan.root, Seq::empty(), root_description());
        }
        out
    }
}

} // verus!
