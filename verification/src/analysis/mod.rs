//! Findings, their severities, node paths and the overall assessment.
use vstd::prelude::*;
use vstd::string::StringExecFns;
use std::collections::HashMap;

pub mod analyzers;
pub mod config;
pub mod consolidated_config;
pub mod depth_walk;
pub mod engine;
pub mod level_order;
pub mod traversal;
pub mod unified_config;

verus! {

/// Severity levels for analysis findings, least urgent first.
#[derive(Debug, Clone, Copy, PartialEq, Eq, Structural, PartialOrd, Ord, Hash)]
pub enum Severity {
    Low,
    Medium,
    High,
    Critical,
}

impl Severity {
    /// Position in the order `Low < Medium < High < Critical`.
    pub open spec fn spec_rank(self) -> nat {
        match self {
            Severity::Low => 0,
            Severity::Medium => 1,
            Severity::High => 2,
            Severity::Critical => 3,
        }
    }

    pub fn rank(&self) -> (r: u8)
        ensures
            r == self.spec_rank(),
    {
        match self {
            Severity::Low => 0,
            Severity::Medium => 1,
            Severity::High => 2,
            Severity::Critical => 3,
        }
    }
}

/// Categories of performance findings.
#[derive(Debug, Clone, PartialEq, Eq, Hash)]
pub enum FindingType {
    ExcessiveRowProcessing,
    RowEstimationError,
    CartesianProduct,
    LargeSequentialScan,
    InefficiientScan,
    MissingIndex,
    PoorIndexSelectivity,
    IneffectiveJoinAlgorithm,
    LargeNestedLoop,
    HashJoinMemorySpill,
    HighStartupCost,
    ExpensiveOperation,
    HighCostVariability,
    MemorySpill,
    LargeSort,
    LargeAggregation,
    InefficientParallelism,
    MissedParallelization,
    Custom(String),
}

/// Path to a node of the plan tree: the child indices from the root, and a
/// human-readable description of the way there.
#[derive(Debug, PartialEq, Eq)]
pub struct NodePath {
    pub path: Vec<usize>,
    pub description: String,
}

impl View for NodePath {
    type V = (Seq<usize>, Seq<char>);

    open spec fn view(&self) -> (Seq<usize>, Seq<char>) {
        (self.path@, self.description@)
    }
}

/// Description of the root node's path.
pub open spec fn root_description() -> Seq<char> {
    "Root node"@
}

/// Description of the path to a child: the parent's, then ` -> ` and the child's.
pub open spec fn child_description(parent: Seq<char>, child: Seq<char>) -> Seq<char> {
    parent + " -> "@ + child
}

impl Clone for NodePath {
    fn clone(&self) -> (r: Self)
        ensures
            r@ == self@,
    {
        NodePath { path: self.path.clone(), description: self.description.clone() }
    }
}

impl NodePath {
    pub fn root() -> (r: Self)
        ensures
            r@ == (Seq::<usize>::empty(), root_description()),
    {
        NodePath { path: Vec::new(), description: String::from_str("Root node") }
    }

    pub fn child_of(&self, index: usize, description: String) -> (r: Self)
        ensures
            r.path@ == self.path@.push(index),
            r.description@ == child_description(self.description@, description@),
    {
        let mut path = self.path.clone();
        assert(path@ =~= self.path@);
        path.push(index);
        let mut text = self.description.clone();
        text.append(" -> ");
        text.append(description.as_str());
        NodePath { path, description: text }
    }
}

// ---------------------------------------------------------------------------
// Severity tallies and the overall assessment
// ---------------------------------------------------------------------------

/// Number of entries of `s` with the given severity.
pub open spec fn count_of(s: Seq<Severity>, sev: Severity) -> nat
    decreases s.len(),
{
    if s.len() == 0 {
        0
    } else {
        count_of(s.drop_last(), sev) + if s.last() == sev {
            1nat
        } else {
            0nat
        }
    }
}

proof fn lemma_count_of_bound(s: Seq<Severity>, sev: Severity)
    ensures
        count_of(s, sev) <= s.len(),
    decreases s.len(),
{
    if s.len() > 0 {
        lemma_count_of_bound(s.drop_last(), sev);
    }
}

/// How many findings there are of each severity.
#[derive(Debug, Clone, Copy, PartialEq, Eq)]
pub struct SeverityCounts {
    pub low: usize,
    pub medium: usize,
    pub high: usize,
    pub critical: usize,
}

/// Tallies a list of finding severities.
pub fn severity_counts(severities: &[Severity]) -> (r: SeverityCounts)
    ensures
        r.low == count_of(severities@, Severity::Low),
        r.medium == count_of(severities@, Severity::Medium),
        r.high == count_of(severities@, Severity::High),
        r.critical == count_of(severities@, Severity::Critical),
{
    let mut r = SeverityCounts { low: 0, medium: 0, high: 0, critical: 0 };
    let mut i: usize = 0;
    while i < severities.len()
        invariant
            i <= severities.len(),
            r.low == count_of(severities@.take(i as int), Severity::Low),
            r.medium == count_of(severities@.take(i as int), Severity::Medium),
            r.high == count_of(severities@.take(i as int), Severity::High),
            r.critical == count_of(severities@.take(i as int), Severity::Critical),
        decreases severities.len() - i,
    {
        let ghost t = severities@.take(i as int + 1);
        assert(t.drop_last() =~= severities@.take(i as int));
        proof {
            lemma_count_of_bound(severities@.take(i as int), Severity::Low);
            lemma_count_of_bound(severities@.take(i as int), Severity::Medium);
            lemma_count_of_bound(severities@.take(i as int), Severity::High);
            lemma_count_of_bound(severities@.take(i as int), Severity::Critical);
        }
        match severities[i] {
            Severity::Low => r.low = r.low + 1,
            Severity::Medium => r.medium = r.medium + 1,
            Severity::High => r.high = r.high + 1,
            Severity::Critical => r.critical = r.critical + 1,
        }
        i = i + 1;
    }
    assert(severities@.take(severities.len() as int) =~= severities@);
    r
}

/// The most urgent severity in the list, if there is any.
pub open spec fn max_severity_spec(s: Seq<Severity>) -> Option<Severity>
    decreases s.len(),
{
    if s.len() == 0 {
        None
    } else {
        match max_severity_spec(s.drop_last()) {
            Some(m) => if s.last().spec_rank() >= m.spec_rank() {
                Some(s.last())
            } else {
                Some(m)
            },
            None => Some(s.last()),
        }
    }
}

/// The highest severity among the findings (`AnalysisReport::max_severity`).
pub fn max_severity(severities: &[Severity]) -> (r: Option<Severity>)
    ensures
        r == max_severity_spec(severities@),
{
    let mut best: Option<Severity> = None;
    let mut i: usize = 0;
    while i < severities.len()
        invariant
            i <= severities.len(),
            best == max_severity_spec(severities@.take(i as int)),
        decreases severities.len() - i,
    {
        let ghost t = severities@.take(i as int + 1);
        assert(t.drop_last() =~= severities@.take(i as int));
        let s = severities[i];
        best = match best {
            Some(m) => if s.rank() >= m.rank() {
                Some(s)
            } else {
                Some(m)
            },
            None => Some(s),
        };
        i = i + 1;
    }
    assert(severities@.take(severities.len() as int) =~= severities@);
    best
}

/// Overall performance assessment based on analysis.
#[derive(Debug, Clone, Copy, PartialEq, Eq, Structural)]
pub enum PerformanceAssessment {
    Excellent,
    Good,
    Fair,
    Poor,
    Critical,
}

impl PerformanceAssessment {
    /// Position in the order `Excellent < Good < Fair < Poor < Critical`.
    pub open spec fn spec_rank(self) -> nat {
        match self {
            PerformanceAssessment::Excellent => 0,
            PerformanceAssessment::Good => 1,
            PerformanceAssessment::Fair => 2,
            PerformanceAssessment::Poor => 3,
            PerformanceAssessment::Critical => 4,
        }
    }
}

/// The assessment that the counts of critical, high and medium findings earn.
pub open spec fn assessment_for(critical: nat, high: nat, medium: nat) -> PerformanceAssessment {
    if critical >= 3 {
        PerformanceAssessment::Critical
    } else if critical >= 1 || high >= 5 {
        PerformanceAssessment::Poor
    } else if high >= 2 || medium >= 5 {
        PerformanceAssessment::Fair
    } else if high >= 1 || medium >= 2 {
        PerformanceAssessment::Good
    } else {
        PerformanceAssessment::Excellent
    }
}

/// Overall assessment of a set of findings from their severity tallies.
pub fn assess_performance(counts: &SeverityCounts) -> (r: PerformanceAssessment)
    ensures
        r == assessment_for(counts.critical as nat, counts.high as nat, counts.medium as nat),
{
    let c = counts.critical;
    let h = counts.high;
    let m = counts.medium;
    if c >= 3 {
        PerformanceAssessment::Critical
    } else if c >= 1 || h >= 5 {
        PerformanceAssessment::Poor
    } else if c == 0 && (h >= 2 || m >= 5) {
        PerformanceAssessment::Fair
    } else if c == 0 && (h >= 1 || m >= 2) {
        PerformanceAssessment::Good
    } else {
        PerformanceAssessment::Excellent
    }
}

/// More findings of any severity never earn a better assessment.
pub proof fn lemma_assessment_monotone(c1: nat, h1: nat, m1: nat, c2: nat, h2: nat, m2: nat)
    requires
        c1 <= c2,
        h1 <= h2,
        m1 <= m2,
    ensures
        assessment_for(c1, h1, m1).spec_rank() <= assessment_for(c2, h2, m2).spec_rank(),
{
}

// ---------------------------------------------------------------------------
// The most urgent findings first
// ---------------------------------------------------------------------------

/// Indices of the entries of `s` that have severity `sev`, in order.
pub open spec fn indices_with(s: Seq<Severity>, sev: Severity) -> Seq<int>
    decreases s.len(),
{
    if s.len() == 0 {
        Seq::empty()
    } else if s.last() == sev {
        indices_with(s.drop_last(), sev).push(s.len() - 1)
    } else {
        indices_with(s.drop_last(), sev)
    }
}

/// Indices of all entries, most severe first and in their original order
/// within a severity: the order that a stable descending sort by severity gives.
pub open spec fn by_severity_desc(s: Seq<Severity>) -> Seq<int> {
    indices_with(s, Severity::Critical) + indices_with(s, Severity::High) + indices_with(
        s,
        Severity::Medium,
    ) + indices_with(s, Severity::Low)
}

/// Number of findings kept as top issues.
pub const TOP_ISSUE_COUNT: usize = 5;

proof fn lemma_indices_with_bounds(s: Seq<Severity>, sev: Severity)
    ensures
        indices_with(s, sev).len() <= s.len(),
        forall|k: int|
            0 <= k < indices_with(s, sev).len() ==> 0 <= #[trigger] indices_with(s, sev)[k] < s.len(),
    decreases s.len(),
{
    if s.len() > 0 {
        lemma_indices_with_bounds(s.drop_last(), sev);
    }
}

pub open spec fn as_ints(v: Seq<usize>) -> Seq<int> {
    v.map_values(|x: usize| x as int)
}

pub open spec fn clamp(n: int, limit: int) -> int {
    if n <= limit {
        n
    } else {
        limit
    }
}

/// Appends to `out` the indices of entries with severity `sev`, stopping once
/// `out` holds `limit` indices.
fn collect_with(severities: &[Severity], sev: Severity, out: &mut Vec<usize>, limit: usize)
    requires
        old(out)@.len() <= limit,
    ensures
        final(out)@.len() <= limit,
        as_ints(final(out)@) == (as_ints(old(out)@) + indices_with(severities@, sev)).take(
            clamp((old(out)@.len() + indices_with(severities@, sev).len()) as int, limit as int),
        ),
{
    let ghost start = as_ints(out@);
    let mut i: usize = 0;
    while i < severities.len() && out.len() < limit
        invariant
            i <= severities.len(),
            out@.len() <= limit,
            start == as_ints(old(out)@),
            as_ints(out@) == start + indices_with(severities@.take(i as int), sev),
        decreases severities.len() - i,
    {
        let ghost t = severities@.take(i as int + 1);
        assert(t.drop_last() =~= severities@.take(i as int));
        assert(t.last() == severities@[i as int]);
        if severities[i] == sev {
            assert(indices_with(t, sev) == indices_with(t.drop_last(), sev).push(i as int));
            let ghost prev = out@;
            out.push(i);
            assert(as_ints(out@) =~= as_ints(prev).push(i as int));
            assert(as_ints(out@) =~= start + indices_with(t, sev));
        } else {
            assert(indices_with(t, sev) == indices_with(t.drop_last(), sev));
        }
        i = i + 1;
    }
    proof {
        lemma_indices_with_prefix(severities@, i as int, sev);
        let full = indices_with(severities@, sev);
        let part = indices_with(severities@.take(i as int), sev);
        if i == severities.len() {
            assert(severities@.take(i as int) =~= severities@);
            assert((start + full).take((start + full).len() as int) =~= start + full);
        } else {
            assert(out@.len() == limit);
            assert(as_ints(out@) =~= (start + full).take(limit as int));
        }
    }
}

/// The matches in a prefix are a prefix of the matches in the whole.
proof fn lemma_indices_with_prefix(s: Seq<Severity>, i: int, sev: Severity)
    requires
        0 <= i <= s.len(),
    ensures
        indices_with(s.take(i), sev).len() <= indices_with(s, sev).len(),
        forall|k: int|
            0 <= k < indices_with(s.take(i), sev).len() ==> #[trigger] indices_with(s.take(i), sev)[k]
                == indices_with(s, sev)[k],
    decreases s.len() - i,
{
    if i < s.len() {
        let p = s.drop_last();
        assert(p.take(i) =~= s.take(i));
        lemma_indices_with_prefix(p, i, sev);
    } else {
        assert(s.take(i) =~= s);
    }
}

/// Indices of the (at most five) most urgent findings, most severe first
/// and in their original order within a severity.
pub fn top_issue_indices(severities: &[Severity]) -> (r: Vec<usize>)
    ensures
        as_ints(r@) == by_severity_desc(severities@).take(
            clamp(by_severity_desc(severities@).len() as int, TOP_ISSUE_COUNT as int),
        ),
{
    let ghost s = severities@;
    let mut out: Vec<usize> = Vec::new();
    assert(as_ints(out@) =~= Seq::<int>::empty());
    collect_with(severities, Severity::Critical, &mut out, TOP_ISSUE_COUNT);
    let ghost m1 = as_ints(out@);
    collect_with(severities, Severity::High, &mut out, TOP_ISSUE_COUNT);
    let ghost m2 = as_ints(out@);
    collect_with(severities, Severity::Medium, &mut out, TOP_ISSUE_COUNT);
    let ghost m3 = as_ints(out@);
    collect_with(severities, Severity::Low, &mut out, TOP_ISSUE_COUNT);
    proof {
        let c = indices_with(s, Severity::Critical);
        let h = indices_with(s, Severity::High);
        let m = indices_with(s, Severity::Medium);
        let l = indices_with(s, Severity::Low);
        let all = c + h + m + l;
        let k = clamp(all.len() as int, 5);
        assert(Seq::<int>::empty() + c =~= c);
        if c.len() >= 5 {
            assert(m1 =~= all.take(5));
            assert(m2 =~= m1);
            assert(m3 =~= m1);
        } else if c.len() + h.len() >= 5 {
            assert(m1 =~= c);
            assert(m2 =~= all.take(5));
            assert(m3 =~= m2);
        } else if c.len() + h.len() + m.len() >= 5 {
            assert(m2 =~= c + h);
            assert(m3 =~= all.take(5));
        } else {
            assert(m2 =~= c + h);
            assert(m3 =~= c + h + m);
        }
        assert(as_ints(out@) =~= all.take(k));
    }
    out
}

/// An analyser whose behaviour is set by a configuration value.
pub trait ConfigurableAnalyzer {
    type Config: Clone + Send + Sync;

    /// Configure this analyser with the given configuration.
    fn configure(&mut self, config: Self::Config);

    /// The default configuration of this analyser.
    fn default_config() -> Self::Config;

    /// The current configuration.
    fn current_config(&self) -> &Self::Config;
}

/// Statistics about the registered analysers: how many there are, and the
/// version of each by name.
#[derive(Debug)]
pub struct AnalyzerStats {
    pub total_count: usize,
    pub analyzer_versions: HashMap<String, String>,
}

impl AnalyzerStats {
    /// No analyser recorded.
    pub fn new() -> (r: Self)
        ensures
            r.total_count == 0,
            r.analyzer_versions@ == Map::<String, String>::empty(),
    {
        AnalyzerStats { total_count: 0, analyzer_versions: HashMap::new() }
    }

    /// Record one registered analyser with its version.
    pub fn record(&mut self, name: String, version: String)
        requires
            old(self).total_count < usize::MAX,
        ensures
            final(self).total_count == old(self).total_count + 1,
    {
        self.total_count = self.total_count + 1;
        self.analyzer_versions.insert(name, version);
    }
}

impl Default for AnalyzerStats {
    fn default() -> (r: Self)
        ensures
            r.total_count == 0,
    {
        AnalyzerStats::new()
    }
}

} // verus!
