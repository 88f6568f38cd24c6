//! Export-file rules: the format version, the plan-format tag, and the
//! redaction that strips literal-bearing text before an export leaves the
//! machine.
use vstd::prelude::*;
use std::collections::HashMap;
use crate::models::PlanSourceFormat;
use crate::text::{chars_of, char_is_ascii_digit, is_ascii_digit};

verus! {

/// Current export format version; files with a newer version are rejected.
pub const EXPORT_FORMAT_VERSION: u32 = 2;

/// Format version assumed for files that carry none: the first format, from
/// before the version field existed.
pub fn default_format_version() -> (v: u32)
    ensures
        v == 1,
{
    1
}

/// Format of an exported plan string.
#[derive(Debug, Clone, Copy, PartialEq, Eq)]
pub enum ExportedPlanFormat {
    Text,
    Json,
}

/// The export tag of a plan's source format.
pub fn exported_plan_format(source: PlanSourceFormat) -> (r: ExportedPlanFormat)
    ensures
        r == (match source {
            PlanSourceFormat::Text => ExportedPlanFormat::Text,
            PlanSourceFormat::Json => ExportedPlanFormat::Json,
        }),
{
    match source {
        PlanSourceFormat::Text => ExportedPlanFormat::Text,
        PlanSourceFormat::Json => ExportedPlanFormat::Json,
    }
}

/// Metadata of an export.
#[derive(Debug, Clone)]
pub struct ExportMetadata {
    /// Source log files.
    pub source_files: Vec<String>,
    /// Hostname where the analysis was performed.
    pub hostname: Option<String>,
    /// User who performed the analysis.
    pub user: Option<String>,
    /// Custom tags.
    pub tags: HashMap<String, String>,
}

/// `text` holds a `$` immediately followed by an ASCII digit: the `$1`-style
/// placeholder that the normaliser emits.
pub open spec fn has_placeholder(text: Seq<char>) -> bool {
    exists|i: int| 0 <= i && i + 1 < text.len() && text[i] == '$' && is_ascii_digit(#[trigger] text[i + 1])
}

/// Whether normalisation visibly replaced literals: `normalized` contains a
/// `$` directly followed by an ASCII digit.
pub fn looks_parameterised(normalized: &str) -> (r: bool)
    ensures
        r == has_placeholder(normalized@),
{
    let v = chars_of(normalized);
    let n = v.len();
    let mut i: usize = 0;
    while i < n
        invariant
            n == v@.len(),
            v@ == normalized@,
            i <= n,
            forall|j: int| 0 <= j < i && j + 1 < n ==> !(v@[j] == '$' && is_ascii_digit(#[trigger] v@[j + 1])),
        decreases n - i,
    {
        if i + 1 < n && v[i] == '$' && char_is_ascii_digit(v[i + 1]) {
            return true;
        }
        i = i + 1;
    }
    false
}

/// The text fields of an exported query that can carry literal values,
/// together with the fingerprint they are filed under.
#[derive(Debug, Clone)]
pub struct QueryTexts {
    pub query_hash: String,
    pub original_query: String,
    pub normalized_query: String,
    pub formatted_query: String,
    pub plan: String,
    pub plan_format: Option<ExportedPlanFormat>,
}

/// The state of one query's texts after redaction: fingerprint kept, raw
/// texts and plan dropped, and the normalised text kept only when it
/// carries a placeholder.
pub open spec fn redacted_texts(before: QueryTexts, after: QueryTexts) -> bool {
    &&& after.query_hash@ == before.query_hash@
    &&& after.original_query@ == Seq::<char>::empty()
    &&& after.formatted_query@ == Seq::<char>::empty()
    &&& after.plan@ == Seq::<char>::empty()
    &&& after.plan_format is None
    &&& after.normalized_query@ == (if has_placeholder(before.normalized_query@) {
        before.normalized_query@
    } else {
        Seq::<char>::empty()
    })
}

/// The state of export metadata after redaction: host and user cleared,
/// source files and tags kept.
pub open spec fn redacted_metadata(before: ExportMetadata, after: ExportMetadata) -> bool {
    &&& after.hostname is None
    &&& after.user is None
    &&& after.source_files@ == before.source_files@
    &&& after.tags@ == before.tags@
}

impl QueryTexts {
    /// This query with everything that can carry literal values stripped.
    pub fn redacted(&self) -> (r: QueryTexts)
        ensures
            redacted_texts(*self, r),
    {
        let keep = looks_parameterised(self.normalized_query.as_str());
        QueryTexts {
            query_hash: self.query_hash.clone(),
            original_query: String::new(),
            normalized_query: if keep {
                self.normalized_query.clone()
            } else {
                String::new()
            },
            formatted_query: String::new(),
            plan: String::new(),
            plan_format: None,
        }
    }

    /// Strip everything from this query that can carry literal values.
    pub fn redact(&mut self)
        ensures
            redacted_texts(*old(self), *final(self)),
    {
        let r = self.redacted();
        *self = r;
    }
}

impl ExportMetadata {
    /// Clear the fields that identify the environment.
    pub fn redact(&mut self)
        ensures
            redacted_metadata(*old(self), *final(self)),
    {
        self.hostname = None;
        self.user = None;
    }
}

/// Redact every query of an export and its metadata.
pub fn redact_export(queries: &mut Vec<QueryTexts>, metadata: &mut ExportMetadata)
    ensures
        final(queries)@.len() == old(queries)@.len(),
        forall|i: int|
            0 <= i < old(queries)@.len() ==> redacted_texts(
                #[trigger] old(queries)@[i],
                final(queries)@[i],
            ),
        redacted_metadata(*old(metadata), *final(metadata)),
{
    let n = queries.len();
    let mut i: usize = 0;
    while i < n
        invariant
            n == queries@.len(),
            n == old(queries)@.len(),
            i <= n,
            forall|j: int| 0 <= j < i ==> redacted_texts(#[trigger] old(queries)@[j], queries@[j]),
            forall|j: int| i <= j < n ==> #[trigger] queries@[j] == old(queries)@[j],
        decreases n - i,
    {
        let q = queries[i].redacted();
        queries.set(i, q);
        i = i + 1;
    }
    metadata.redact();
}


/// Why an export file cannot be imported.
#[derive(Debug, Clone, Copy, PartialEq, Eq)]
pub enum ImportError {
    /// The file was written in a format version newer than this build reads.
    NewerFormat { found: u32, supported: u32 },
}

impl ImportError {
    /// A one-line description of the error.
    pub fn summary(&self) -> (s: &'static str)
        ensures
            s@ == "export format is newer than this build supports"@,
    {
        match self {
            ImportError::NewerFormat { .. } => "export format is newer than this build supports",
        }
    }
}

/// Accept an export's format version if this build can read it.
pub fn check_format_version(found: u32) -> (r: Result<u32, ImportError>)
    ensures
        found <= EXPORT_FORMAT_VERSION ==> r == Ok::<u32, ImportError>(found),
        found > EXPORT_FORMAT_VERSION ==> r == Err::<u32, ImportError>(
            ImportError::NewerFormat { found, supported: EXPORT_FORMAT_VERSION },
        ),
{
    if found > EXPORT_FORMAT_VERSION {
        Err(ImportError::NewerFormat { found, supported: EXPORT_FORMAT_VERSION })
    } else {
        Ok(found)
    }
}

/// Execution count and time span of one query group (timestamps in
/// microseconds since the Unix epoch, UTC).
#[derive(Debug, Clone, Copy, PartialEq, Eq)]
pub struct GroupSpan {
    pub count: usize,
    pub min_timestamp: i64,
    pub max_timestamp: i64,
}

/// The span as plain values: (execution count, earliest, latest).
pub open spec fn span_values(g: GroupSpan) -> (nat, i64, i64) {
    (g.count as nat, g.min_timestamp, g.max_timestamp)
}

/// The earlier of two timestamps.
pub open spec fn earlier(a: i64, b: i64) -> i64 {
    if b < a {
        b
    } else {
        a
    }
}

/// The later of two timestamps.
pub open spec fn later(a: i64, b: i64) -> i64 {
    if b > a {
        b
    } else {
        a
    }
}

/// A span after one more execution at `t`.
pub open spec fn with_execution(v: (nat, i64, i64), t: i64) -> (nat, i64, i64) {
    (v.0 + 1, earlier(v.1, t), later(v.2, t))
}

/// Two spans taken together.
pub open spec fn combined(a: (nat, i64, i64), b: (nat, i64, i64)) -> (nat, i64, i64) {
    (a.0 + b.0, earlier(a.1, b.1), later(a.2, b.2))
}

/// The span of a non-empty run of execution timestamps: how many, the
/// earliest and the latest.
pub open spec fn span_of_run(ts: Seq<i64>) -> (nat, i64, i64)
    recommends
        ts.len() > 0,
    decreases ts.len(),
{
    if ts.len() <= 1 {
        (1, ts[0], ts[0])
    } else {
        with_execution(span_of_run(ts.drop_last()), ts.last())
    }
}

impl GroupSpan {
    /// The span of a group's first execution, at `timestamp`.
    pub fn starting_at(timestamp: i64) -> (r: Self)
        ensures
            span_values(r) == span_of_run(seq![timestamp]),
    {
        GroupSpan { count: 1, min_timestamp: timestamp, max_timestamp: timestamp }
    }

    /// Counts one more execution, at `timestamp`.
    pub fn record(&mut self, timestamp: i64)
        requires
            old(self).count < usize::MAX,
        ensures
            span_values(*final(self)) == with_execution(span_values(*old(self)), timestamp),
    {
        self.count = self.count + 1;
        if timestamp < self.min_timestamp {
            self.min_timestamp = timestamp;
        }
        if timestamp > self.max_timestamp {
            self.max_timestamp = timestamp;
        }
    }

    /// Takes in the span of another group of the same query.
    pub fn absorb(&mut self, other: &GroupSpan)
        requires
            old(self).count + other.count <= usize::MAX,
        ensures
            span_values(*final(self)) == combined(span_values(*old(self)), span_values(*other)),
    {
        self.count = self.count + other.count;
        if other.min_timestamp < self.min_timestamp {
            self.min_timestamp = other.min_timestamp;
        }
        if other.max_timestamp > self.max_timestamp {
            self.max_timestamp = other.max_timestamp;
        }
    }
}

/// Taking in the span of the executions that followed gives the span of the
/// whole run: grouping two consecutive ranges of the input and merging the
/// results is grouping the input at once.
pub proof fn lemma_absorb_is_concatenation(a: Seq<i64>, b: Seq<i64>)
    requires
        a.len() > 0,
        b.len() > 0,
    ensures
        combined(span_of_run(a), span_of_run(b)) == span_of_run(a + b),
    decreases b.len(),
{
    if b.len() == 1 {
        assert((a + b).drop_last() =~= a);
        assert((a + b).last() == b[0]);
    } else {
        lemma_absorb_is_concatenation(a, b.drop_last());
        assert((a + b).drop_last() =~= a + b.drop_last());
        assert((a + b).last() == b.last());
    }
}

/// Recording executions one by one gives the span of the run: its length,
/// its earliest and its latest timestamp.
pub proof fn lemma_run_span_bounds(ts: Seq<i64>)
    requires
        ts.len() > 0,
    ensures
        span_of_run(ts).0 == ts.len(),
        forall|i: int| 0 <= i < ts.len() ==> span_of_run(ts).1 <= #[trigger] ts[i] <= span_of_run(ts).2,
        exists|i: int| 0 <= i < ts.len() && #[trigger] ts[i] == span_of_run(ts).1,
        exists|i: int| 0 <= i < ts.len() && #[trigger] ts[i] == span_of_run(ts).2,
    decreases ts.len(),
{
    if ts.len() > 1 {
        let p = ts.drop_last();
        lemma_run_span_bounds(p);
        assert forall|i: int| 0 <= i < ts.len() implies span_of_run(ts).1 <= #[trigger] ts[i] <= span_of_run(
            ts,
        ).2 by {
            if i < p.len() {
                assert(ts[i] == p[i]);
            }
        }
        let j = choose|i: int| 0 <= i < p.len() && #[trigger] p[i] == span_of_run(p).1;
        let k = choose|i: int| 0 <= i < p.len() && #[trigger] p[i] == span_of_run(p).2;
        assert(ts[j] == p[j]);
        assert(ts[k] == p[k]);
        assert(ts[ts.len() - 1] == ts.last());
    } else {
        assert(ts[0] == span_of_run(ts).1);
    }
}

/// Totals written at the head of an export.
#[derive(Debug, Clone, Copy, PartialEq, Eq)]
pub struct ExportTotals {
    /// Number of query groups.
    pub query_count: usize,
    /// Executions over all groups.
    pub execution_count: usize,
    /// Earliest execution over all groups (`None` without groups).
    pub start: Option<i64>,
    /// Latest execution over all groups (`None` without groups).
    pub end: Option<i64>,
}

/// Sum of the execution counts.
pub open spec fn total_count(groups: Seq<GroupSpan>) -> int
    decreases groups.len(),
{
    if groups.len() == 0 {
        0
    } else {
        total_count(groups.drop_last()) + groups.last().count
    }
}

/// Smallest `min_timestamp`, if any.
pub open spec fn earliest(groups: Seq<GroupSpan>) -> Option<i64>
    decreases groups.len(),
{
    if groups.len() == 0 {
        None
    } else {
        let t = groups.last().min_timestamp;
        match earliest(groups.drop_last()) {
            Some(e) if e <= t => Some(e),
            _ => Some(t),
        }
    }
}

/// Largest `max_timestamp`, if any.
pub open spec fn latest(groups: Seq<GroupSpan>) -> Option<i64>
    decreases groups.len(),
{
    if groups.len() == 0 {
        None
    } else {
        let t = groups.last().max_timestamp;
        match latest(groups.drop_last()) {
            Some(l) if l >= t => Some(l),
            _ => Some(t),
        }
    }
}

proof fn lemma_total_count_monotone(groups: Seq<GroupSpan>, i: int)
    requires
        0 <= i <= groups.len(),
    ensures
        total_count(groups.take(i)) <= total_count(groups),
    decreases groups.len() - i,
{
    if i < groups.len() {
        lemma_total_count_monotone(groups, i + 1);
        assert(groups.take(i + 1).drop_last() =~= groups.take(i));
    } else {
        assert(groups.take(i) =~= groups);
    }
}

/// The export's start is the earliest first execution over all groups: no
/// later than any group's `min_timestamp` and equal to one of them; there is
/// none without groups.
pub proof fn lemma_start_is_earliest_first_execution(groups: Seq<GroupSpan>)
    ensures
        earliest(groups) is None <==> groups.len() == 0,
        groups.len() > 0 ==> {
            &&& forall|i: int| 0 <= i < groups.len() ==> earliest(groups)->0 <= #[trigger] groups[i].min_timestamp
            &&& exists|i: int| 0 <= i < groups.len() && earliest(groups)->0 == #[trigger] groups[i].min_timestamp
        },
    decreases groups.len(),
{
    if groups.len() > 0 {
        let p = groups.drop_last();
        lemma_start_is_earliest_first_execution(p);
        let n = groups.len() - 1;
        let e = earliest(groups)->0;
        assert forall|i: int| 0 <= i < groups.len() implies e <= #[trigger] groups[i].min_timestamp by {
            if i < n {
                assert(groups[i] == p[i]);
            }
        }
        if e == groups[n].min_timestamp {
        } else {
            let j = choose|j: int| 0 <= j < p.len() && earliest(p)->0 == #[trigger] p[j].min_timestamp;
            assert(groups[j] == p[j]);
        }
    }
}

/// The export's end is the latest last execution over all groups: no earlier
/// than any group's `max_timestamp` and equal to one of them; there is none
/// without groups.
pub proof fn lemma_end_is_latest_last_execution(groups: Seq<GroupSpan>)
    ensures
        latest(groups) is None <==> groups.len() == 0,
        groups.len() > 0 ==> {
            &&& forall|i: int| 0 <= i < groups.len() ==> latest(groups)->0 >= #[trigger] groups[i].max_timestamp
            &&& exists|i: int| 0 <= i < groups.len() && latest(groups)->0 == #[trigger] groups[i].max_timestamp
        },
    decreases groups.len(),
{
    if groups.len() > 0 {
        let p = groups.drop_last();
        lemma_end_is_latest_last_execution(p);
        let n = groups.len() - 1;
        let e = latest(groups)->0;
        assert forall|i: int| 0 <= i < groups.len() implies e >= #[trigger] groups[i].max_timestamp by {
            if i < n {
                assert(groups[i] == p[i]);
            }
        }
        if e == groups[n].max_timestamp {
        } else {
            let j = choose|j: int| 0 <= j < p.len() && latest(p)->0 == #[trigger] p[j].max_timestamp;
            assert(groups[j] == p[j]);
        }
    }
}

/// The execution total is at least every group's count.
pub proof fn lemma_total_covers_each_group(groups: Seq<GroupSpan>, i: int)
    requires
        0 <= i < groups.len(),
    ensures
        total_count(groups) >= groups[i].count,
    decreases groups.len(),
{
    let p = groups.drop_last();
    if i < groups.len() - 1 {
        lemma_total_covers_each_group(p, i);
        assert(groups[i] == p[i]);
        lemma_total_nonneg(p);
    } else {
        lemma_total_nonneg(p);
    }
}

proof fn lemma_total_nonneg(groups: Seq<GroupSpan>)
    ensures
        total_count(groups) >= 0,
    decreases groups.len(),
{
    if groups.len() > 0 {
        lemma_total_nonneg(groups.drop_last());
    }
}

/// The group count, execution total and covered period of an export.
pub fn export_totals(groups: &Vec<GroupSpan>) -> (r: ExportTotals)
    requires
        total_count(groups@) <= usize::MAX,
    ensures
        r.query_count == groups@.len(),
        r.execution_count == total_count(groups@),
        r.start == earliest(groups@),
        r.end == latest(groups@),
{
    let mut executions: usize = 0;
    let mut start: Option<i64> = None;
    let mut end: Option<i64> = None;
    let mut i: usize = 0;
    while i < groups.len()
        invariant
            i <= groups@.len(),
            total_count(groups@) <= usize::MAX,
            executions == total_count(groups@.take(i as int)),
            start == earliest(groups@.take(i as int)),
            end == latest(groups@.take(i as int)),
        decreases groups@.len() - i,
    {
        let g = groups[i];
        proof {
            let t = groups@.take(i + 1);
            assert(t.drop_last() =~= groups@.take(i as int));
            assert(t.last() == g);
            lemma_total_count_monotone(groups@, i + 1);
        }
        executions = executions + g.count;
        start = match start {
            Some(e) => if e <= g.min_timestamp {
                Some(e)
            } else {
                Some(g.min_timestamp)
            },
            None => Some(g.min_timestamp),
        };
        end = match end {
            Some(l) => if l >= g.max_timestamp {
                Some(l)
            } else {
                Some(g.max_timestamp)
            },
            None => Some(g.max_timestamp),
        };
        i = i + 1;
    }
    assert(groups@.take(groups@.len() as int) =~= groups@);
    ExportTotals { query_count: groups.len(), execution_count: executions, start, end }
}

/// Redacting twice changes nothing more than redacting once.
pub proof fn lemma_redaction_idempotent(a: QueryTexts, b: QueryTexts, c: QueryTexts)
    requires
        redacted_texts(a, b),
        redacted_texts(b, c),
    ensures
        c.query_hash@ == b.query_hash@,
        c.original_query@ == b.original_query@,
        c.normalized_query@ == b.normalized_query@,
        c.formatted_query@ == b.formatted_query@,
        c.plan@ == b.plan@,
        c.plan_format == b.plan_format,
{
    if !has_placeholder(a.normalized_query@) {
        assert(b.normalized_query@.len() == 0);
        assert(!has_placeholder(b.normalized_query@));
    }
}

/// After redaction every text field but the fingerprint is either empty or
/// a normalised query that carries a placeholder.
pub proof fn lemma_redacted_text_is_parameterised_or_empty(a: QueryTexts, b: QueryTexts)
    requires
        redacted_texts(a, b),
    ensures
        b.normalized_query@.len() == 0 || has_placeholder(b.normalized_query@),
        b.original_query@.len() == 0,
        b.formatted_query@.len() == 0,
        b.plan@.len() == 0,
{
}

} // verus!
