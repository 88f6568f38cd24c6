use plansight::analysis::traversal::{CountingVisitor, NodeRelationshipAnalyzer, PlanTraversal};
use plansight::analysis::depth_walk::WalkStep;
use plansight::analysis::NodePath;
use plansight::plan::{NodeKind, ParsedPlan, PlanNode};

fn create_deep_plan(depth: usize) -> ParsedPlan {
    let mut node = PlanNode::new(NodeKind::SeqScan, 1000, format!("Leaf node {}", depth));
    for i in (0..depth).rev() {
        let mut parent = PlanNode::new(NodeKind::SeqScan, 1000, format!("Node {}", i));
        parent.add_child(node);
        node = parent;
    }
    ParsedPlan::new(node)
}

fn small_tree() -> ParsedPlan {
    // Root -> [Child 0 -> [Grandchild 0], Child 1 -> [Grandchild 1]]
    let mut root = PlanNode::new(NodeKind::HashJoin, 1000, "Root".to_string());
    for i in 0..2 {
        let mut child = PlanNode::new(NodeKind::Sort, 1000, format!("Child {}", i));
        child.add_child(PlanNode::new(NodeKind::SeqScan, 1000, format!("Grandchild {}", i)));
        root.add_child(child);
    }
    ParsedPlan::new(root)
}

#[test]
fn test_stack_safe_find_nodes() {
    let plan = create_deep_plan(500);
    let found_nodes = PlanTraversal::find_nodes(&plan, |node: &PlanNode| node.description().contains("Node"));
    assert_eq!(found_nodes.len(), 500); // every non-leaf node
}

#[test]
fn test_stack_safe_get_nodes_at_depth() {
    let plan = create_deep_plan(100);
    assert_eq!(PlanTraversal::get_nodes_at_depth(&plan, 0).len(), 1);
    assert_eq!(PlanTraversal::get_nodes_at_depth(&plan, 50).len(), 1);
    assert_eq!(PlanTraversal::get_nodes_at_depth(&plan, 100).len(), 1);
    assert_eq!(PlanTraversal::get_nodes_at_depth(&plan, 101).len(), 0);
}

#[test]
fn test_stack_safe_parent_child_pairs() {
    let plan = create_deep_plan(50);
    let pairs = PlanTraversal::get_parent_child_pairs(&plan);
    assert_eq!(pairs.len(), 50); // each node but the leaf has exactly one child
}

#[test]
fn depth_first_visits_in_preorder_with_paths() {
    let plan = small_tree();
    let visits = PlanTraversal::depth_first_visits(&plan);
    let names: Vec<String> = visits.iter().map(|(n, _)| n.description()).collect();
    assert_eq!(names, vec!["Root", "Child 0", "Grandchild 0", "Child 1", "Grandchild 1"]);
    assert_eq!(visits[4].1.path, vec![1usize, 0usize]);
    assert_eq!(visits[4].1.description, "Root node -> Child 1 -> Grandchild 1");
}

#[test]
fn deep_walk_visits_every_node() {
    let plan = create_deep_plan(1000);
    let visits = PlanTraversal::depth_first_visits(&plan);
    assert_eq!(visits.len(), 1001);
    assert_eq!(visits[1000].1.path.len(), 1000);
}

#[test]
fn leaves_and_levels() {
    let plan = small_tree();
    let leaves = PlanTraversal::get_leaf_nodes(&plan);
    let names: Vec<String> = leaves.iter().map(|(n, _)| n.description()).collect();
    assert_eq!(names, vec!["Grandchild 0", "Grandchild 1"]);
    let level1 = PlanTraversal::get_nodes_at_depth(&plan, 1);
    assert_eq!(level1.len(), 2);
    assert_eq!(level1[0].1.path, vec![0usize]);
}

#[test]
fn parent_child_pairs_of_a_tree() {
    let plan = small_tree();
    let pairs = PlanTraversal::get_parent_child_pairs(&plan);
    let named: Vec<(String, String)> =
        pairs.iter().map(|((p, _), (c, _))| (p.description(), c.description())).collect();
    assert_eq!(
        named,
        vec![
            ("Root".to_string(), "Child 0".to_string()),
            ("Root".to_string(), "Child 1".to_string()),
            ("Child 1".to_string(), "Grandchild 1".to_string()),
            ("Child 0".to_string(), "Grandchild 0".to_string()),
        ]
    );
}

#[test]
fn counting_visitor_counts_matches() {
    let plan = small_tree();
    let mut v = CountingVisitor::new(|n: &PlanNode| n.kind == NodeKind::Sort);
    assert_eq!(v.count, 0);
    for (node, _) in PlanTraversal::depth_first_visits(&plan) {
        v.visit_node(node);
    }
    assert_eq!(v.count, 2);
}

#[test]
fn relationships() {
    let plan = small_tree();
    let rel = NodeRelationshipAnalyzer::new(&plan);
    let grandchild = NodePath::root().child_of(1, "Child 1".to_string()).child_of(0, "Grandchild 1".to_string());
    assert_eq!(rel.get_node_at_path(&[1, 0]).map(|n| n.description()), Some("Grandchild 1".to_string()));
    assert!(rel.get_node_at_path(&[2]).is_none());
    assert_eq!(rel.get_parent(&grandchild).map(|n| n.description()), Some("Child 1".to_string()));
    let child1 = NodePath::root().child_of(1, "Child 1".to_string());
    let sibs: Vec<String> = rel.get_siblings(&child1).iter().map(|n| n.description()).collect();
    assert_eq!(sibs, vec!["Child 0"]);
    let anc: Vec<String> = rel.get_ancestors(&grandchild).iter().map(|n| n.description()).collect();
    assert_eq!(anc, vec!["Child 1", "Root"]);
    assert_eq!(rel.get_descendants(&plan.root).len(), 4);
    assert!(rel.is_ancestor(&child1, &grandchild));
    assert!(!rel.is_ancestor(&grandchild, &child1));
}

#[test]
fn test_breadth_first_vs_depth_first_ordering() {
    let plan = small_tree();
    // The order in which the depth-first walk visits the nodes.
    let depth: Vec<String> = PlanTraversal::post_order_visits(&plan).iter().map(|(n, _)| n.description()).collect();
    let breadth: Vec<String> =
        PlanTraversal::breadth_first_visits(&plan).iter().map(|(n, _)| n.description()).collect();
    assert_eq!(depth.len(), breadth.len());
    assert_eq!(depth.len(), 5); // root + 2 children + 2 grandchildren
    assert_ne!(depth, breadth);
}

#[test]
fn breadth_first_visits_level_by_level() {
    let plan = small_tree();
    let visits = PlanTraversal::breadth_first_visits(&plan);
    let names: Vec<String> = visits.iter().map(|(n, _)| n.description()).collect();
    assert_eq!(names, vec!["Root", "Child 0", "Child 1", "Grandchild 0", "Grandchild 1"]);
    assert_eq!(visits[3].1.path, vec![0usize, 0usize]);
    assert_eq!(visits[3].1.description, "Root node -> Child 0 -> Grandchild 0");
    let depths: Vec<usize> = visits.iter().map(|(_, p)| p.path.len()).collect();
    assert_eq!(depths, vec![0, 1, 1, 2, 2]);
}

#[test]
fn breadth_first_on_a_chain_matches_depth_first() {
    let plan = create_deep_plan(30);
    let depth: Vec<String> = PlanTraversal::depth_first_visits(&plan).iter().map(|(n, _)| n.description()).collect();
    let breadth: Vec<String> =
        PlanTraversal::breadth_first_visits(&plan).iter().map(|(n, _)| n.description()).collect();
    assert_eq!(depth, breadth);
    assert_eq!(breadth.len(), 31);
}

#[test]
fn test_stack_safe_depth_first_traversal() {
    // A 1000-level chain must not exhaust the call stack.
    let plan = create_deep_plan(1000);
    let events = PlanTraversal::depth_first_events(&plan);
    let count = |s: WalkStep| events.iter().filter(|(step, _, _)| *step == s).count();
    assert_eq!(count(WalkStep::Visit), 1001); // root + 1000 nested nodes
    assert_eq!(count(WalkStep::Enter), 1001);
    assert_eq!(count(WalkStep::Exit), 1001);
    assert_eq!(events.len(), 3 * 1001);
}

#[test]
fn test_stack_safe_collect() {
    let plan = create_deep_plan(200);
    let results: Vec<String> = PlanTraversal::find_nodes(&plan, |n: &PlanNode| n.description().starts_with("Node"))
        .iter()
        .map(|(n, _)| n.description())
        .collect();
    assert_eq!(results.len(), 200); // every non-leaf node
}

#[test]
fn depth_first_events_enter_before_and_visit_after_the_children() {
    let plan = small_tree();
    let events: Vec<(WalkStep, String)> = PlanTraversal::depth_first_events(&plan)
        .iter()
        .map(|(s, n, _)| (*s, n.description()))
        .collect();
    let e = |s: WalkStep, n: &str| (s, n.to_string());
    let (enter, visit, exit) = (WalkStep::Enter, WalkStep::Visit, WalkStep::Exit);
    assert_eq!(
        events,
        vec![
            e(enter, "Root"),
            e(enter, "Child 0"),
            e(enter, "Grandchild 0"),
            e(visit, "Grandchild 0"),
            e(exit, "Grandchild 0"),
            e(visit, "Child 0"),
            e(exit, "Child 0"),
            e(enter, "Child 1"),
            e(enter, "Grandchild 1"),
            e(visit, "Grandchild 1"),
            e(exit, "Grandchild 1"),
            e(visit, "Child 1"),
            e(exit, "Child 1"),
            e(visit, "Root"),
            e(exit, "Root"),
        ]
    );
}

#[test]
fn post_order_visits_children_first() {
    let plan = small_tree();
    let visits = PlanTraversal::post_order_visits(&plan);
    let names: Vec<String> = visits.iter().map(|(n, _)| n.description()).collect();
    assert_eq!(names, vec!["Grandchild 0", "Child 0", "Grandchild 1", "Child 1", "Root"]);
    assert_eq!(visits[2].1.path, vec![1usize, 0usize]);
    assert_eq!(visits[4].1.path, Vec::<usize>::new());
}

#[test]
fn counting_walk_counts_every_matching_node() {
    let plan = small_tree();
    let mut v = CountingVisitor::new(|n: &PlanNode| n.kind == NodeKind::SeqScan);
    v.walk(&plan);
    assert_eq!(v.count, 2);
    // A second walk adds the same number again.
    v.walk(&plan);
    assert_eq!(v.count, 4);
    let mut all = CountingVisitor::new(|_: &PlanNode| true);
    all.walk(&create_deep_plan(200));
    assert_eq!(all.count, 201);
}

#[test]
fn every_plan_has_a_leaf() {
    let single = ParsedPlan::new(PlanNode::new(NodeKind::SeqScan, 1, "Seq Scan on t".to_string()));
    let leaves = PlanTraversal::get_leaf_nodes(&single);
    assert_eq!(leaves.len(), 1);
    assert!(leaves[0].1.path.is_empty());
    assert_eq!(PlanTraversal::get_leaf_nodes(&small_tree()).len(), 2);
}
