//! Buffer & WAL hot spots from the `Buffers:` and `WAL:` lines that
//! `EXPLAIN (ANALYZE, BUFFERS, WAL)` attaches to each node: temp-file spills,
//! heavy disk reads and high WAL generation.
use vstd::prelude::*;
use crate::analysis::Severity;
use crate::analysis::traversal::{PlanTraversal, Visit, entry_visits, plan_preorder};
use crate::plan::{ParsedPlan, PlanNode};
use crate::text::{
    Separators, before_first, chars_eq, chars_eq_str, chars_of, find_char, find_pattern,
    index_of_char, parse_u64_chars, parse_u64_spec, string_from_chars, tokenize, tokens, trim,
    trim_bounds, views,
};

verus! {

/// Counters read from a `Buffers:` value.
#[derive(Debug, Clone, Copy, PartialEq, Eq, Structural)]
pub struct Buffers {
    pub shared_hit: u64,
    pub shared_read: u64,
    pub temp_read: u64,
    pub temp_written: u64,
}

/// The group (`shared`, `local`, `temp`) that the following counters of a
/// `Buffers:` value belong to.
#[derive(Debug, Clone, Copy, PartialEq, Eq, Structural)]
pub enum BufferGroup {
    Unset,
    Shared,
    Local,
    Temp,
}

pub open spec fn no_buffers() -> Buffers {
    Buffers { shared_hit: 0, shared_read: 0, temp_read: 0, temp_written: 0 }
}

/// The group a token names, if it is one of the group words.
pub open spec fn group_word(tok: Seq<char>) -> Option<BufferGroup> {
    if tok == "shared"@ {
        Some(BufferGroup::Shared)
    } else if tok == "local"@ {
        Some(BufferGroup::Local)
    } else if tok == "temp"@ {
        Some(BufferGroup::Temp)
    } else {
        None
    }
}

/// `tok.split_once('=')`.
pub open spec fn split_at_eq(tok: Seq<char>) -> Option<(Seq<char>, Seq<char>)> {
    match index_of_char(tok, '=') {
        Some(i) => Some((tok.take(i), tok.skip(i + 1))),
        None => None,
    }
}

/// Records counter `key = n` read in `group`.
pub open spec fn record_counter(b: Buffers, group: BufferGroup, key: Seq<char>, n: u64) -> Buffers {
    if group == BufferGroup::Shared && key == "hit"@ {
        Buffers { shared_hit: n, ..b }
    } else if group == BufferGroup::Shared && key == "read"@ {
        Buffers { shared_read: n, ..b }
    } else if group == BufferGroup::Temp && key == "read"@ {
        Buffers { temp_read: n, ..b }
    } else if group == BufferGroup::Temp && key == "written"@ {
        Buffers { temp_written: n, ..b }
    } else {
        b
    }
}

/// Effect of one token: a group word switches the group; `key=n` with a
/// decimal `n` records a counter of the current group; anything else is
/// ignored.
pub open spec fn buffers_step(st: (BufferGroup, Buffers), tok: Seq<char>) -> (BufferGroup, Buffers) {
    match group_word(tok) {
        Some(g) => (g, st.1),
        None => match split_at_eq(tok) {
            Some(kv) => match parse_u64_spec(kv.1) {
                Some(n) => (st.0, record_counter(st.1, st.0, kv.0, n)),
                None => st,
            },
            None => st,
        },
    }
}

pub open spec fn buffers_fold(toks: Seq<Seq<char>>) -> (BufferGroup, Buffers)
    decreases toks.len(),
{
    if toks.len() == 0 {
        (BufferGroup::Unset, no_buffers())
    } else {
        buffers_step(buffers_fold(toks.drop_last()), toks.last())
    }
}

/// The counters of a `Buffers:` value: its tokens, split at spaces and commas,
/// read left to right.
pub open spec fn buffers_of(s: Seq<char>) -> Buffers {
    buffers_fold(tokens(s, Separators::SpaceOrComma)).1
}

/// Whether `v[lo..hi]` spells `lit`.
fn range_eq_str(v: &[char], lo: usize, hi: usize, lit: &str) -> (r: bool)
    requires
        lo <= hi <= v.len(),
    ensures
        r == (v@.subrange(lo as int, hi as int) == lit@),
{
    let mut part: Vec<char> = Vec::new();
    let mut i = lo;
    while i < hi
        invariant
            lo <= i <= hi <= v.len(),
            part@ == v@.subrange(lo as int, i as int),
        decreases hi - i,
    {
        part.push(v[i]);
        assert(part@ =~= v@.subrange(lo as int, i as int + 1));
        i = i + 1;
    }
    chars_eq_str(part.as_slice(), lit)
}

fn buffers_apply(st: (BufferGroup, Buffers), tok: &[char]) -> (r: (BufferGroup, Buffers))
    ensures
        r == buffers_step(st, tok@),
{
    if chars_eq_str(tok, "shared") {
        return (BufferGroup::Shared, st.1);
    }
    if chars_eq_str(tok, "local") {
        return (BufferGroup::Local, st.1);
    }
    if chars_eq_str(tok, "temp") {
        return (BufferGroup::Temp, st.1);
    }
    match find_char(tok, '=') {
        None => st,
        Some(i) => {
            assert(tok@.skip(i + 1) =~= tok@.subrange(i + 1, tok@.len() as int));
            assert(tok@.take(i as int) =~= tok@.subrange(0, i as int));
            match parse_u64_chars(tok, i + 1, tok.len()) {
                None => st,
                Some(n) => {
                    let (group, mut b) = st;
                    let is_shared = match group {
                        BufferGroup::Shared => true,
                        _ => false,
                    };
                    let is_temp = match group {
                        BufferGroup::Temp => true,
                        _ => false,
                    };
                    if is_shared && range_eq_str(tok, 0, i, "hit") {
                        b.shared_hit = n;
                    } else if is_shared && range_eq_str(tok, 0, i, "read") {
                        b.shared_read = n;
                    } else if is_temp && range_eq_str(tok, 0, i, "read") {
                        b.temp_read = n;
                    } else if is_temp && range_eq_str(tok, 0, i, "written") {
                        b.temp_written = n;
                    }
                    (group, b)
                },
            }
        },
    }
}

/// Parses a `Buffers:` value such as
/// `shared hit=3 read=350 dirtied=2, temp read=483 written=525`.
pub fn parse_buffers(s: &str) -> (b: Buffers)
    ensures
        b == buffers_of(s@),
{
    let v = chars_of(s);
    let toks = tokenize(v.as_slice(), Separators::SpaceOrComma);
    let ghost ts = tokens(s@, Separators::SpaceOrComma);
    let mut st = (BufferGroup::Unset, Buffers { shared_hit: 0, shared_read: 0, temp_read: 0, temp_written: 0 });
    let mut i: usize = 0;
    while i < toks.len()
        invariant
            i <= toks@.len(),
            views(toks@) == ts,
            ts == tokens(s@, Separators::SpaceOrComma),
            st == buffers_fold(ts.take(i as int)),
        decreases toks@.len() - i,
    {
        assert(ts.take(i as int + 1).drop_last() =~= ts.take(i as int));
        assert(ts[i as int] == toks@[i as int]@);
        st = buffers_apply(st, toks[i].as_slice());
        i = i + 1;
    }
    assert(ts.take(i as int) =~= ts);
    st.1
}

// ---------------------------------------------------------------------------
// WAL
// ---------------------------------------------------------------------------

/// The number in a `bytes=N` token.
pub open spec fn wal_token_bytes(tok: Seq<char>) -> Option<u64> {
    if tok.len() >= 6 && tok.take(6) == "bytes="@ {
        parse_u64_spec(tok.skip(6))
    } else {
        None
    }
}

/// The first `bytes=N` token with a decimal `N`.
pub open spec fn first_wal_bytes(toks: Seq<Seq<char>>) -> Option<u64>
    decreases toks.len(),
{
    if toks.len() == 0 {
        None
    } else {
        match first_wal_bytes(toks.drop_last()) {
            Some(n) => Some(n),
            None => wal_token_bytes(toks.last()),
        }
    }
}

/// The WAL bytes of a `WAL:` value: the first whitespace-separated
/// `bytes=N` field, or 0 when there is none.
pub open spec fn wal_bytes_of(s: Seq<char>) -> u64 {
    match first_wal_bytes(tokens(s, crate::text::Separators::Whitespace)) {
        Some(n) => n,
        None => 0,
    }
}

fn wal_bytes_in_token(tok: &[char]) -> (r: Option<u64>)
    ensures
        r == wal_token_bytes(tok@),
{
    if tok.len() < 6 {
        return None;
    }
    if !range_eq_str(tok, 0, 6, "bytes=") {
        assert(tok@.take(6) =~= tok@.subrange(0, 6));
        return None;
    }
    assert(tok@.take(6) =~= tok@.subrange(0, 6));
    assert(tok@.skip(6) =~= tok@.subrange(6, tok@.len() as int));
    parse_u64_chars(tok, 6, tok.len())
}

/// Parses the `bytes=N` field from a `WAL:` value such as
/// `records=525 fpi=3 bytes=98765`.
pub fn parse_wal_bytes(s: &str) -> (r: u64)
    ensures
        r == wal_bytes_of(s@),
{
    let v = chars_of(s);
    let toks = tokenize(v.as_slice(), Separators::Whitespace);
    let ghost ts = tokens(s@, Separators::Whitespace);
    let mut i: usize = 0;
    while i < toks.len()
        invariant
            i <= toks@.len(),
            views(toks@) == ts,
            ts == tokens(s@, Separators::Whitespace),
            first_wal_bytes(ts.take(i as int)) is None,
        decreases toks@.len() - i,
    {
        assert(ts.take(i as int + 1).drop_last() =~= ts.take(i as int));
        assert(ts[i as int] == toks@[i as int]@);
        match wal_bytes_in_token(toks[i].as_slice()) {
            Some(n) => {
                proof {
                    lemma_first_wal_bytes_prefix(ts, i as int + 1);
                }
                return n;
            },
            None => {},
        }
        i = i + 1;
    }
    assert(ts.take(i as int) =~= ts);
    0
}

/// Once a prefix holds a match, the whole does, with the same number.
proof fn lemma_first_wal_bytes_prefix(toks: Seq<Seq<char>>, j: int)
    requires
        0 <= j <= toks.len(),
        first_wal_bytes(toks.take(j)) is Some,
    ensures
        first_wal_bytes(toks) == first_wal_bytes(toks.take(j)),
    decreases toks.len() - j,
{
    if j < toks.len() {
        let p = toks.drop_last();
        assert(p.take(j) =~= toks.take(j));
        lemma_first_wal_bytes_prefix(p, j);
    } else {
        assert(toks.take(j) =~= toks);
    }
}

// ---------------------------------------------------------------------------
// Node labels
// ---------------------------------------------------------------------------

/// Short human label for a node: its plan line up to the cost, trimmed, or
/// `node` when that is empty.
pub open spec fn label_of(text: Seq<char>) -> Seq<char> {
    let head = trim(before_first(text, "  (cost"@));
    if head.len() == 0 {
        "node"@
    } else {
        head
    }
}

/// `text[lo..hi]` as a `String`.
fn string_of_range(v: &[char], lo: usize, hi: usize) -> (s: String)
    requires
        lo <= hi <= v.len(),
    ensures
        s@ == v@.subrange(lo as int, hi as int),
{
    let mut part: Vec<char> = Vec::new();
    let mut i = lo;
    while i < hi
        invariant
            lo <= i <= hi <= v.len(),
            part@ == v@.subrange(lo as int, i as int),
        decreases hi - i,
    {
        part.push(v[i]);
        assert(part@ =~= v@.subrange(lo as int, i as int + 1));
        i = i + 1;
    }
    string_from_chars(part.as_slice())
}

/// Short human label for a node, taken from its plan line (before the cost).
pub fn node_label(node: &PlanNode) -> (r: String)
    ensures
        r@ == label_of(node.original_text@),
{
    let v = chars_of(node.original_text.as_str());
    let pat = chars_of("  (cost");
    let found = find_pattern(v.as_slice(), pat.as_slice());
    let end = match found {
        Some(i) => i,
        None => v.len(),
    };
    proof {
        match found {
            Some(i) => {
                assert(crate::text::first_occurrence(v@, pat@) == Some(i as int));
                assert(v@.take(end as int) == before_first(v@, pat@));
            },
            None => {
                assert(v@.take(end as int) =~= v@);
            },
        }
        assert(v@.subrange(0, end as int) =~= v@.take(end as int));
    }
    let (a, b) = trim_bounds(v.as_slice(), 0, end);
    if a == b {
        crate::text::owned("node")
    } else {
        string_of_range(v.as_slice(), a, b)
    }
}


// ---------------------------------------------------------------------------
// The analyser's rules
// ---------------------------------------------------------------------------

/// Bytes in a PostgreSQL buffer block.
pub const BLOCK_BYTES: u64 = 8192;

/// Severity of a temp-file spill of `temp` blocks: by its size in (decimal)
/// megabytes, at least 100 MB critical, 10 MB high, 1 MB medium.
pub open spec fn spill_severity(temp: int) -> Severity {
    let bytes = temp * 8192;
    if bytes >= 100_000_000 {
        Severity::Critical
    } else if bytes >= 10_000_000 {
        Severity::High
    } else if bytes >= 1_000_000 {
        Severity::Medium
    } else {
        Severity::Low
    }
}

/// Severity of reading `blocks` shared blocks from disk: at least 512 MB high,
/// 64 MB medium.
pub open spec fn read_severity(blocks: int) -> Severity {
    let bytes = blocks * 8192;
    if bytes >= 512_000_000 {
        Severity::High
    } else if bytes >= 64_000_000 {
        Severity::Medium
    } else {
        Severity::Low
    }
}

/// Severity of generating `bytes` of WAL: at least 64 MB high, 8 MB medium.
pub open spec fn wal_severity(bytes: int) -> Severity {
    if bytes >= 64_000_000 {
        Severity::High
    } else if bytes >= 8_000_000 {
        Severity::Medium
    } else {
        Severity::Low
    }
}

/// Flags buffer/WAL hot spots from `EXPLAIN (BUFFERS, WAL)` output.
#[derive(Debug)]
pub struct BufferWalAnalyzer {
    /// Minimum temp blocks (read + written) to flag a spill.
    min_temp_blocks: u64,
    /// Minimum shared-read blocks to flag heavy disk reads.
    min_read_blocks: u64,
    /// Minimum WAL bytes to flag high WAL generation.
    min_wal_bytes: u64,
}

/// What one node's `Buffers:` and `WAL:` values amount to.
#[derive(Debug, Clone, Copy, PartialEq, Eq)]
pub struct BufferWalVerdict {
    /// The counters read from `Buffers:`, when the node has that property.
    pub buffers: Option<Buffers>,
    /// Temp blocks read plus written.
    pub temp_blocks: u128,
    /// WAL bytes read from `WAL:`, when the node has that property.
    pub wal_bytes: Option<u64>,
    /// Severity of the temp-file spill, when there is one to flag.
    pub spill: Option<Severity>,
    /// Severity of the disk reads, when they are heavy enough to flag.
    pub heavy_reads: Option<Severity>,
    /// Severity of the WAL volume, when it is high enough to flag.
    pub high_wal: Option<Severity>,
}

impl BufferWalAnalyzer {
    pub closed spec fn spec_min_temp_blocks(&self) -> u64 {
        self.min_temp_blocks
    }

    pub closed spec fn spec_min_read_blocks(&self) -> u64 {
        self.min_read_blocks
    }

    pub closed spec fn spec_min_wal_bytes(&self) -> u64 {
        self.min_wal_bytes
    }

    /// Any spill is worth noting; ~8 MiB read from disk; 1 MiB of WAL.
    pub fn new() -> (r: Self)
        ensures
            r.spec_min_temp_blocks() == 1,
            r.spec_min_read_blocks() == 1024,
            r.spec_min_wal_bytes() == 1_048_576,
    {
        BufferWalAnalyzer { min_temp_blocks: 1, min_read_blocks: 1024, min_wal_bytes: 1_048_576 }
    }

    /// The verdict on a node with the given `Buffers:` and `WAL:` values.
    pub open spec fn verdict_for(
        &self,
        buffers: Option<Seq<char>>,
        wal: Option<Seq<char>>,
    ) -> BufferWalVerdict {
        let b = match buffers {
            Some(text) => Some(buffers_of(text)),
            None => None,
        };
        let temp: int = match b {
            Some(b) => b.temp_read + b.temp_written,
            None => 0,
        };
        let w = match wal {
            Some(text) => Some(wal_bytes_of(text)),
            None => None,
        };
        BufferWalVerdict {
            buffers: b,
            temp_blocks: temp as u128,
            wal_bytes: w,
            spill: match b {
                Some(_) => if temp >= self.spec_min_temp_blocks() {
                    Some(spill_severity(temp))
                } else {
                    None
                },
                None => None,
            },
            heavy_reads: match b {
                Some(b) => if b.shared_read >= self.spec_min_read_blocks() {
                    Some(read_severity(b.shared_read as int))
                } else {
                    None
                },
                None => None,
            },
            high_wal: match w {
                Some(n) => if n >= self.spec_min_wal_bytes() {
                    Some(wal_severity(n as int))
                } else {
                    None
                },
                None => None,
            },
        }
    }

    /// Reads a node's `Buffers:` and `WAL:` values (either may be absent) and
    /// decides which hot spots to flag and how severe each is.
    pub fn assess(&self, buffers: Option<&str>, wal: Option<&str>) -> (r: BufferWalVerdict)
        ensures
            r == self.verdict_for(
                match buffers {
                    Some(t) => Some(t@),
                    None => None,
                },
                match wal {
                    Some(t) => Some(t@),
                    None => None,
                },
            ),
    {
        let b = match buffers {
            Some(text) => Some(parse_buffers(text)),
            None => None,
        };
        let temp: u128 = match b {
            Some(b) => b.temp_read as u128 + b.temp_written as u128,
            None => 0,
        };
        let w = match wal {
            Some(text) => Some(parse_wal_bytes(text)),
            None => None,
        };
        let spill = match b {
            Some(_) => if temp >= self.min_temp_blocks as u128 {
                let bytes = temp * 8192;
                Some(
                    if bytes >= 100_000_000 {
                        Severity::Critical
                    } else if bytes >= 10_000_000 {
                        Severity::High
                    } else if bytes >= 1_000_000 {
                        Severity::Medium
                    } else {
                        Severity::Low
                    },
                )
            } else {
                None
            },
            None => None,
        };
        let heavy_reads = match b {
            Some(b) => if b.shared_read >= self.min_read_blocks {
                let bytes = b.shared_read as u128 * 8192;
                Some(
                    if bytes >= 512_000_000 {
                        Severity::High
                    } else if bytes >= 64_000_000 {
                        Severity::Medium
                    } else {
                        Severity::Low
                    },
                )
            } else {
                None
            },
            None => None,
        };
        let high_wal = match w {
            Some(n) => if n >= self.min_wal_bytes {
                Some(
                    if n >= 64_000_000 {
                        Severity::High
                    } else if n >= 8_000_000 {
                        Severity::Medium
                    } else {
                        Severity::Low
                    },
                )
            } else {
                None
            },
            None => None,
        };
        BufferWalVerdict { buffers: b, temp_blocks: temp, wal_bytes: w, spill, heavy_reads, high_wal }
    }

    /// The verdict on a plan node, from its `Buffers` and `WAL` properties.
    pub fn assess_node(&self, node: &PlanNode) -> (r: BufferWalVerdict)
        ensures
            r == self.verdict_for(
                crate::plan::lookup(node.properties@, "Buffers"@),
                crate::plan::lookup(node.properties@, "WAL"@),
            ),
    {
        let buffers = node.get_property("Buffers");
        let wal = node.get_property("WAL");
        self.assess(
            match buffers {
                Some(t) => Some(t.as_str()),
                None => None,
            },
            match wal {
                Some(t) => Some(t.as_str()),
                None => None,
            },
        )
    }
}

/// Totals over the nodes of a plan.
#[derive(Debug, Clone, Copy, PartialEq, Eq)]
pub struct BufferWalTally {
    pub nodes_analyzed: usize,
    /// Temp blocks read and written, saturating at `u128::MAX`.
    pub temp_blocks: u128,
    /// Shared blocks read from disk.
    pub shared_read_blocks: u128,
    pub wal_bytes: u128,
}

/// `n`, or `u128::MAX` when it is larger.
pub open spec fn capped(n: nat) -> nat {
    if n <= u128::MAX {
        n
    } else {
        u128::MAX as nat
    }
}

/// (temp blocks, saturating; shared blocks read; WAL bytes) summed over some
/// visits.
pub open spec fn buffer_tally(a: BufferWalAnalyzer, s: Seq<Visit>) -> (nat, nat, nat)
    decreases s.len(),
{
    if s.len() == 0 {
        (0, 0, 0)
    } else {
        let t = buffer_tally(a, s.drop_last());
        let n = s.last().0;
        let v = a.verdict_for(
            crate::plan::lookup(n.properties@, "Buffers"@),
            crate::plan::lookup(n.properties@, "WAL"@),
        );
        (
            capped(t.0 + v.temp_blocks as nat),
            t.1 + match v.buffers {
                Some(b) => b.shared_read as nat,
                None => 0,
            },
            t.2 + match v.wal_bytes {
                Some(w) => w as nat,
                None => 0,
            },
        )
    }
}

proof fn lemma_buffer_tally_bounded(a: BufferWalAnalyzer, s: Seq<Visit>)
    ensures
        buffer_tally(a, s).0 <= u128::MAX,
        buffer_tally(a, s).1 <= s.len() * (u64::MAX as nat),
        buffer_tally(a, s).2 <= s.len() * (u64::MAX as nat),
    decreases s.len(),
{
    if s.len() > 0 {
        lemma_buffer_tally_bounded(a, s.drop_last());
        let k = s.len();
        assert((k - 1) * (u64::MAX as nat) + u64::MAX == k * (u64::MAX as nat)) by (nonlinear_arith)
            requires
                k >= 1,
        ;
    }
}

impl BufferWalAnalyzer {
    /// Sums the temp blocks, shared blocks read and WAL bytes of the plan's
    /// nodes.
    pub fn tally(&self, plan: &ParsedPlan) -> (r: BufferWalTally)
        ensures
            r.nodes_analyzed == plan_preorder(*plan).len(),
            (r.temp_blocks as nat, r.shared_read_blocks as nat, r.wal_bytes as nat) == buffer_tally(
                *self,
                plan_preorder(*plan),
            ),
    {
        let visits = PlanTraversal::depth_first_visits(plan);
        let ghost pre = plan_preorder(*plan);
        let mut r = BufferWalTally { nodes_analyzed: 0, temp_blocks: 0, shared_read_blocks: 0, wal_bytes: 0 };
        let mut i: usize = 0;
        while i < visits.len()
            invariant
                i <= visits@.len(),
                entry_visits(visits@) == pre,
                r.nodes_analyzed == i,
                (r.temp_blocks as nat, r.shared_read_blocks as nat, r.wal_bytes as nat) == buffer_tally(
                    *self,
                    pre.take(i as int),
                ),
            decreases visits@.len() - i,
        {
            let ghost t = pre.take(i as int + 1);
            assert(t.drop_last() =~= pre.take(i as int));
            assert(t.last() == pre[i as int]);
            proof {
                lemma_buffer_tally_bounded(*self, pre.take(i as int));
                assert(i * (u64::MAX as nat) <= usize::MAX * (u64::MAX as nat)) by (nonlinear_arith)
                    requires
                        i <= usize::MAX,
                ;
            }
            let node = visits[i].0;
            assert(pre[i as int].0 == *node);
            let v = self.assess_node(node);
            r.nodes_analyzed = r.nodes_analyzed + 1;
            r.temp_blocks = if r.temp_blocks > u128::MAX - v.temp_blocks {
                u128::MAX
            } else {
                r.temp_blocks + v.temp_blocks
            };
            match v.buffers {
                Some(b) => r.shared_read_blocks = r.shared_read_blocks + b.shared_read as u128,
                None => {},
            }
            match v.wal_bytes {
                Some(w) => r.wal_bytes = r.wal_bytes + w as u128,
                None => {},
            }
            i = i + 1;
        }
        assert(pre.take(i as int) =~= pre);
        r
    }
}

/// More temp blocks never lower the spill severity.
pub proof fn lemma_spill_severity_monotone(a: int, b: int)
    requires
        0 <= a <= b,
    ensures
        spill_severity(a).spec_rank() <= spill_severity(b).spec_rank(),
{
    assert(a * 8192 <= b * 8192) by (nonlinear_arith)
        requires
            0 <= a <= b,
    ;
}

/// The buffer/WAL rules on a node, stated from the counters read off its
/// `Buffers:` and `WAL:` values: reading `r` shared blocks (8192 bytes each)
/// from disk is flagged from the analyser's minimum on, high from 512 MB,
/// medium from 64 MB and low below; a temp spill of `t` blocks (read plus
/// written) is flagged from the minimum on, critical from 100 MB, high from
/// 10 MB, medium from 1 MB; WAL of `w` bytes is flagged from the minimum on,
/// high from 64 MB, medium from 8 MB.
pub proof fn lemma_buffer_wal_rules(a: BufferWalAnalyzer, buffers: Option<Seq<char>>, wal: Option<Seq<char>>)
    ensures
        ({
            let v = a.verdict_for(buffers, wal);
            &&& match buffers {
                Some(text) => {
                    let b = buffers_of(text);
                    let r = b.shared_read as int;
                    let t = b.temp_read + b.temp_written;
                    &&& v.buffers == Some(b)
                    &&& v.temp_blocks == t
                    &&& (v.heavy_reads is Some <==> r >= a.spec_min_read_blocks())
                    &&& (v.heavy_reads == Some(Severity::High) <==> r >= a.spec_min_read_blocks() && r
                        * 8192 >= 512_000_000)
                    &&& (v.heavy_reads == Some(Severity::Medium) <==> r >= a.spec_min_read_blocks() && 64_000_000
                        <= r * 8192 < 512_000_000)
                    &&& (v.heavy_reads == Some(Severity::Low) <==> r >= a.spec_min_read_blocks() && r * 8192
                        < 64_000_000)
                    &&& (v.spill is Some <==> t >= a.spec_min_temp_blocks())
                    &&& (v.spill == Some(Severity::Critical) <==> t >= a.spec_min_temp_blocks() && t * 8192
                        >= 100_000_000)
                    &&& (v.spill == Some(Severity::High) <==> t >= a.spec_min_temp_blocks() && 10_000_000
                        <= t * 8192 < 100_000_000)
                    &&& (v.spill == Some(Severity::Medium) <==> t >= a.spec_min_temp_blocks() && 1_000_000
                        <= t * 8192 < 10_000_000)
                    &&& (v.spill == Some(Severity::Low) <==> t >= a.spec_min_temp_blocks() && t * 8192
                        < 1_000_000)
                },
                None => v.buffers is None && v.temp_blocks == 0 && v.heavy_reads is None && v.spill is None,
            }
            &&& match wal {
                Some(text) => {
                    let w = wal_bytes_of(text) as int;
                    &&& v.wal_bytes == Some(wal_bytes_of(text))
                    &&& (v.high_wal is Some <==> w >= a.spec_min_wal_bytes())
                    &&& (v.high_wal == Some(Severity::High) <==> w >= a.spec_min_wal_bytes() && w
                        >= 64_000_000)
                    &&& (v.high_wal == Some(Severity::Medium) <==> w >= a.spec_min_wal_bytes() && 8_000_000
                        <= w < 64_000_000)
                    &&& (v.high_wal == Some(Severity::Low) <==> w >= a.spec_min_wal_bytes() && w
                        < 8_000_000)
                },
                None => v.wal_bytes is None && v.high_wal is None,
            }
        }),
{
}

} // verus!
