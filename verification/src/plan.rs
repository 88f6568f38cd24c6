//! The plan tree that the analysers walk: nodes with a kind, the text of
//! their plan line, their `key: value` properties, row counts and children.
use vstd::prelude::*;
use crate::text::{chars_of, parse_u64, parse_u64_spec};

verus! {

/// The operation a plan node performs.
#[derive(Debug, Clone, Copy, PartialEq, Eq, Structural)]
pub enum NodeKind {
    SeqScan,
    IndexScan,
    IndexOnlyScan,
    BitmapHeapScan,
    BitmapIndexScan,
    OtherScan,
    NestedLoop,
    HashJoin,
    MergeJoin,
    Aggregate,
    Sort,
    Materialize,
    Other,
}

impl NodeKind {
    pub open spec fn spec_is_scan(self) -> bool {
        match self {
            NodeKind::SeqScan | NodeKind::IndexScan | NodeKind::IndexOnlyScan
            | NodeKind::BitmapHeapScan | NodeKind::BitmapIndexScan | NodeKind::OtherScan => true,
            _ => false,
        }
    }

    pub open spec fn spec_is_join(self) -> bool {
        match self {
            NodeKind::NestedLoop | NodeKind::HashJoin | NodeKind::MergeJoin => true,
            _ => false,
        }
    }

    /// Whether the node reads a relation.
    pub fn is_scan(&self) -> (r: bool)
        ensures
            r == self.spec_is_scan(),
    {
        match self {
            NodeKind::SeqScan | NodeKind::IndexScan | NodeKind::IndexOnlyScan
            | NodeKind::BitmapHeapScan | NodeKind::BitmapIndexScan | NodeKind::OtherScan => true,
            _ => false,
        }
    }

    /// Whether the node joins two inputs.
    pub fn is_join(&self) -> (r: bool)
        ensures
            r == self.spec_is_join(),
    {
        match self {
            NodeKind::NestedLoop | NodeKind::HashJoin | NodeKind::MergeJoin => true,
            _ => false,
        }
    }
}

/// The `key: value` properties attached to a plan node (`Filter`,
/// `Rows Removed by Filter`, `Buffers`, ...), in the order they were set.
#[derive(Debug)]
pub struct PlanProperties {
    pub entries: Vec<(String, String)>,
}

/// The properties as pairs of character sequences.
pub open spec fn entries_view(e: Seq<(String, String)>) -> Seq<(Seq<char>, Seq<char>)> {
    e.map_values(|p: (String, String)| (p.0@, p.1@))
}

/// Value of the first entry whose key is `key`.
pub open spec fn lookup(e: Seq<(Seq<char>, Seq<char>)>, key: Seq<char>) -> Option<Seq<char>>
    decreases e.len(),
{
    if e.len() == 0 {
        None
    } else {
        match lookup(e.drop_last(), key) {
            Some(v) => Some(v),
            None => if e.last().0 == key {
                Some(e.last().1)
            } else {
                None
            },
        }
    }
}

/// Index of the first entry whose key is `key`.
pub open spec fn lookup_index(e: Seq<(Seq<char>, Seq<char>)>, key: Seq<char>) -> Option<int>
    decreases e.len(),
{
    if e.len() == 0 {
        None
    } else {
        match lookup_index(e.drop_last(), key) {
            Some(i) => Some(i),
            None => if e.last().0 == key {
                Some(e.len() - 1)
            } else {
                None
            },
        }
    }
}

proof fn lemma_lookup_index(e: Seq<(Seq<char>, Seq<char>)>, key: Seq<char>)
    ensures
        match lookup_index(e, key) {
            Some(i) => 0 <= i < e.len() && e[i].0 == key && lookup(e, key) == Some(e[i].1)
                && forall|j: int| 0 <= j < i ==> e[j].0 != key,
            None => lookup(e, key) is None && forall|j: int| 0 <= j < e.len() ==> e[j].0 != key,
        },
    decreases e.len(),
{
    if e.len() > 0 {
        let p = e.drop_last();
        lemma_lookup_index(p, key);
        assert forall|j: int| 0 <= j < p.len() implies #[trigger] p[j] == e[j] by {}
        match lookup_index(p, key) {
            Some(i) => {
                assert(p[i] == e[i]);
                assert forall|j: int| 0 <= j < i implies #[trigger] e[j].0 != key by {
                    assert(p[j] == e[j]);
                }
            },
            None => {
                assert forall|j: int| 0 <= j < p.len() implies #[trigger] e[j].0 != key by {
                    assert(p[j] == e[j]);
                }
                if e.last().0 != key {
                    assert forall|j: int| 0 <= j < e.len() implies #[trigger] e[j].0 != key by {
                        if j < p.len() {
                            assert(p[j] == e[j]);
                        }
                    }
                }
            },
        }
    }
}

proof fn lemma_lookup_first(e: Seq<(Seq<char>, Seq<char>)>, key: Seq<char>, i: int)
    requires
        0 <= i < e.len(),
        e[i].0 == key,
        forall|j: int| 0 <= j < i ==> e[j].0 != key,
    ensures
        lookup_index(e, key) == Some(i),
    decreases e.len(),
{
    lemma_lookup_index(e, key);
    if i < e.len() - 1 {
        lemma_lookup_first(e.drop_last(), key, i);
    } else {
        lemma_lookup_index(e.drop_last(), key);
    }
}

proof fn lemma_lookup_absent(e: Seq<(Seq<char>, Seq<char>)>, key: Seq<char>)
    requires
        forall|j: int| 0 <= j < e.len() ==> e[j].0 != key,
    ensures
        lookup_index(e, key) is None,
        lookup(e, key) is None,
    decreases e.len(),
{
    if e.len() > 0 {
        lemma_lookup_absent(e.drop_last(), key);
    }
}

/// Replacing the value of an entry changes the lookup of its key only.
proof fn lemma_lookup_update(
    e: Seq<(Seq<char>, Seq<char>)>,
    i: int,
    key: Seq<char>,
    value: Seq<char>,
    other: Seq<char>,
)
    requires
        0 <= i < e.len(),
        e[i].0 == key,
    ensures
        other != key ==> lookup(e.update(i, (key, value)), other) == lookup(e, other),
    decreases e.len(),
{
    if other != key {
        let f = e.update(i, (key, value));
        lemma_lookup_index(e, other);
        lemma_lookup_index(f, other);
        match lookup_index(e, other) {
            Some(j) => {
                assert(f[j].0 == other);
                assert forall|k: int| 0 <= k < j implies f[k].0 != other by {
                    assert(f[k].0 == e[k].0 || k == i);
                }
                lemma_lookup_first(f, other, j);
            },
            None => {
                assert forall|k: int| 0 <= k < f.len() implies f[k].0 != other by {
                    assert(f[k].0 == e[k].0 || k == i);
                }
                lemma_lookup_absent(f, other);
            },
        }
    }
}

/// Appending an entry for a new key changes the lookup of that key only.
proof fn lemma_lookup_push(
    e: Seq<(Seq<char>, Seq<char>)>,
    key: Seq<char>,
    value: Seq<char>,
    other: Seq<char>,
)
    requires
        lookup(e, key) is None,
    ensures
        lookup(e.push((key, value)), key) == Some(value),
        other != key ==> lookup(e.push((key, value)), other) == lookup(e, other),
{
    let f = e.push((key, value));
    assert(f.drop_last() =~= e);
}

impl View for PlanProperties {
    type V = Seq<(Seq<char>, Seq<char>)>;

    open spec fn view(&self) -> Seq<(Seq<char>, Seq<char>)> {
        entries_view(self.entries@)
    }
}

impl PlanProperties {
    pub fn new() -> (r: Self)
        ensures
            r@ == Seq::<(Seq<char>, Seq<char>)>::empty(),
    {
        let r = PlanProperties { entries: Vec::new() };
        assert(r@ =~= Seq::<(Seq<char>, Seq<char>)>::empty());
        r
    }

    fn position(&self, key: &str) -> (r: Option<usize>)
        ensures
            match r {
                Some(i) => lookup_index(self@, key@) == Some(i as int),
                None => lookup_index(self@, key@) is None,
            },
    {
        let k = chars_of(key);
        let mut i: usize = 0;
        while i < self.entries.len()
            invariant
                i <= self.entries.len(),
                k@ == key@,
                forall|j: int| 0 <= j < i ==> #[trigger] self@[j].0 != key@,
            decreases self.entries.len() - i,
        {
            let kc = chars_of(self.entries[i].0.as_str());
            if crate::text::chars_eq(kc.as_slice(), k.as_slice()) {
                proof {
                    lemma_lookup_first(self@, key@, i as int);
                }
                return Some(i);
            }
            i = i + 1;
        }
        proof {
            lemma_lookup_absent(self@, key@);
        }
        None
    }

    /// Value of the property `key`, if it is set.
    pub fn get(&self, key: &str) -> (r: Option<&String>)
        ensures
            match r {
                Some(v) => lookup(self@, key@) == Some(v@),
                None => lookup(self@, key@) is None,
            },
    {
        proof {
            lemma_lookup_index(self@, key@);
        }
        match self.position(key) {
            Some(i) => Some(&self.entries[i].1),
            None => None,
        }
    }

    /// Sets the property `key` to `value`, replacing an earlier value.
    pub fn set(&mut self, key: &str, value: &str)
        ensures
            lookup(final(self)@, key@) == Some(value@),
            forall|other: Seq<char>|
                other != key@ ==> #[trigger] lookup(final(self)@, other) == lookup(old(self)@, other),
    {
        proof {
            lemma_lookup_index(self@, key@);
        }
        let k = crate::text::owned(key);
        let v = crate::text::owned(value);
        match self.position(key) {
            Some(i) => {
                let ghost before = self@;
                self.entries.set(i, (k, v));
                proof {
                    assert(self@ =~= before.update(i as int, (key@, value@)));
                    assert forall|other: Seq<char>| other != key@ implies #[trigger] lookup(
                        self@,
                        other,
                    ) == lookup(before, other) by {
                        lemma_lookup_update(before, i as int, key@, value@, other);
                    }
                    lemma_lookup_index(self@, key@);
                    assert(self@[i as int].0 == key@);
                    lemma_lookup_first(self@, key@, i as int);
                }
            },
            None => {
                let ghost before = self@;
                self.entries.push((k, v));
                proof {
                    assert(self@ =~= before.push((key@, value@)));
                    assert forall|other: Seq<char>| other != key@ implies #[trigger] lookup(
                        self@,
                        other,
                    ) == lookup(before, other) by {
                        lemma_lookup_push(before, key@, value@, other);
                    }
                    lemma_lookup_push(before, key@, value@, key@);
                }
            },
        }
    }

    /// The property `key` read as an unsigned integer.
    pub fn get_u64(&self, key: &str) -> (r: Option<u64>)
        ensures
            r == match lookup(self@, key@) {
                Some(v) => parse_u64_spec(v),
                None => None,
            },
    {
        match self.get(key) {
            Some(v) => parse_u64(v.as_str()),
            None => None,
        }
    }
}

/// One node of a query plan.
#[derive(Debug)]
pub struct PlanNode {
    pub kind: NodeKind,
    /// The plan line this node was read from.
    pub original_text: String,
    pub properties: PlanProperties,
    /// Rows the planner expected the node to produce.
    pub estimated_rows: u64,
    /// Average row width in bytes that the planner expected.
    pub estimated_width: u32,
    /// Estimated cost before the first row, in hundredths of a cost unit
    /// (PostgreSQL prints costs with two decimals).
    pub startup_cost: u64,
    /// Estimated total cost, in hundredths of a cost unit.
    pub total_cost: u64,
    /// Rows the node actually produced, when the plan was executed.
    pub actual_rows: Option<u64>,
    pub children: Vec<PlanNode>,
}

impl PlanNode {
    pub fn new(kind: NodeKind, estimated_rows: u64, original_text: String) -> (r: Self)
        ensures
            r.kind == kind,
            r.estimated_rows == estimated_rows,
            r.original_text@ == original_text@,
            r.properties@.len() == 0,
            r.actual_rows is None,
            r.estimated_width == 0,
            r.startup_cost == 0,
            r.total_cost == 0,
            r.children@.len() == 0,
    {
        PlanNode {
            kind,
            original_text,
            properties: PlanProperties::new(),
            estimated_rows,
            estimated_width: 0,
            startup_cost: 0,
            total_cost: 0,
            actual_rows: None,
            children: Vec::new(),
        }
    }

    pub fn add_child(&mut self, child: PlanNode)
        ensures
            final(self).children@ == old(self).children@.push(child),
            final(self).kind == old(self).kind,
            final(self).original_text == old(self).original_text,
            final(self).properties == old(self).properties,
            final(self).estimated_rows == old(self).estimated_rows,
            final(self).estimated_width == old(self).estimated_width,
            final(self).startup_cost == old(self).startup_cost,
            final(self).total_cost == old(self).total_cost,
            final(self).actual_rows == old(self).actual_rows,
    {
        self.children.push(child);
    }

    pub fn set_property(&mut self, key: &str, value: &str)
        ensures
            lookup(final(self).properties@, key@) == Some(value@),
            forall|other: Seq<char>|
                other != key@ ==> #[trigger] lookup(final(self).properties@, other) == lookup(
                    old(self).properties@,
                    other,
                ),
            final(self).children == old(self).children,
            final(self).original_text == old(self).original_text,
    {
        self.properties.set(key, value);
    }

    pub fn get_property(&self, key: &str) -> (r: Option<&String>)
        ensures
            match r {
                Some(v) => lookup(self.properties@, key@) == Some(v@),
                None => lookup(self.properties@, key@) is None,
            },
    {
        self.properties.get(key)
    }

    pub fn set_actual_rows(&mut self, rows: u64)
        ensures
            final(self).actual_rows == Some(rows),
            final(self).children == old(self).children,
            final(self).original_text == old(self).original_text,
            final(self).properties == old(self).properties,
    {
        self.actual_rows = Some(rows);
    }

    pub fn set_estimated_width(&mut self, width: u32)
        ensures
            final(self).estimated_width == width,
            final(self).estimated_rows == old(self).estimated_rows,
            final(self).kind == old(self).kind,
            final(self).actual_rows == old(self).actual_rows,
            final(self).children == old(self).children,
            final(self).original_text == old(self).original_text,
            final(self).properties == old(self).properties,
    {
        self.estimated_width = width;
    }

    /// Set the startup and total cost, in hundredths of a cost unit.
    pub fn set_costs(&mut self, startup_cost: u64, total_cost: u64)
        ensures
            final(self).startup_cost == startup_cost,
            final(self).total_cost == total_cost,
            final(self).estimated_rows == old(self).estimated_rows,
            final(self).estimated_width == old(self).estimated_width,
            final(self).kind == old(self).kind,
            final(self).actual_rows == old(self).actual_rows,
            final(self).children == old(self).children,
            final(self).original_text == old(self).original_text,
            final(self).properties == old(self).properties,
    {
        self.startup_cost = startup_cost;
        self.total_cost = total_cost;
    }

    /// Human-readable description: the node's plan line.
    pub fn description(&self) -> (r: String)
        ensures
            r@ == self.original_text@,
    {
        self.original_text.clone()
    }
}

/// A parsed plan: its root node.
#[derive(Debug)]
pub struct ParsedPlan {
    pub root: PlanNode,
}

impl ParsedPlan {
    pub fn new(root: PlanNode) -> (r: Self)
        ensures
            r.root == root,
    {
        ParsedPlan { root }
    }
}

} // verus!
