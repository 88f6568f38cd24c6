//! Sorts and hashes that exceeded `work_mem` and spilled to disk, read from
//! the `Sort Space Type`, `Sort Method` and `Batches` properties that
//! `EXPLAIN (ANALYZE)` attaches to a node.
use vstd::prelude::*;
use crate::analysis::Severity;
use crate::analysis::traversal::{PlanTraversal, Visit, entry_visits, plan_preorder};
use crate::plan::{ParsedPlan, PlanNode, lookup};
use crate::text::{
    all_digits, char_is_ascii_digit, chars_of, contains_seq, contains_str, decimal_value, digit_value,
    find_char, first_word, index_of_char, is_ascii_digit, leading_whitespace, lowercase, parse_u64_chars,
    parse_u64_spec, to_lowercase, trim_start, unsigned_digits, word_end,
};

verus! {

/// Whether a sort with the given `Sort Space Type` and `Sort Method` ran on
/// disk: the space type is `Disk`, or the method, lowercased, mentions
/// `external`.
pub open spec fn sort_spilled(space_type: Option<Seq<char>>, method: Option<Seq<char>>) -> bool {
    space_type == Some("Disk"@) || match method {
        Some(m) => contains_seq(lowercase(m), "external"@),
        None => false,
    }
}

/// A kB amount read from plan text, such as `524288` or `150000.5`: its
/// whole kB, the first three decimals as thousandths, and whether any later
/// decimal is nonzero.
#[derive(Debug, Clone, Copy, PartialEq, Eq, Structural)]
pub struct KbAmount {
    pub whole: u64,
    /// The first three decimals, read as a number of thousandths (0 to 999).
    pub thousandths: u64,
    /// Some decimal after the third is nonzero.
    pub finer: bool,
}

/// The amount zero.
pub open spec fn zero_kb() -> KbAmount {
    KbAmount { whole: 0, thousandths: 0, finer: false }
}

/// The amount, truncated to thousandths of a kB.
pub open spec fn kb_thousandths(k: KbAmount) -> nat {
    k.whole as nat * 1000 + k.thousandths as nat
}

/// The value of decimal `i` of the fraction digits `f` (zero past its end).
pub open spec fn decimal_at(f: Seq<char>, i: int) -> int {
    if 0 <= i < f.len() {
        digit_value(f[i])
    } else {
        0
    }
}

/// The first three fraction digits of `f` as thousandths.
pub open spec fn thousandths_of(f: Seq<char>) -> int {
    100 * decimal_at(f, 0) + 10 * decimal_at(f, 1) + decimal_at(f, 2)
}

/// Whether some digit of `f` after the third is nonzero.
pub open spec fn finer_nonzero(f: Seq<char>) -> bool {
    exists|i: int| 3 <= i < f.len() && f[i] != '0'
}

/// The amount written by `d` (a number without its sign): digits, or digits
/// around a decimal point with at least one digit on either side; the whole
/// part must fit in a `u64`.
pub open spec fn kb_amount_of(d: Seq<char>) -> Option<KbAmount> {
    match index_of_char(d, '.') {
        None => if d.len() > 0 && all_digits(d) && decimal_value(d) <= u64::MAX {
            Some(KbAmount { whole: decimal_value(d) as u64, thousandths: 0, finer: false })
        } else {
            None
        },
        Some(k) => {
            let w = d.take(k);
            let f = d.skip(k + 1);
            if (w.len() > 0 || f.len() > 0) && all_digits(w) && all_digits(f) && decimal_value(w)
                <= u64::MAX {
                Some(
                    KbAmount {
                        whole: decimal_value(w) as u64,
                        thousandths: thousandths_of(f) as u64,
                        finer: finer_nonzero(f),
                    },
                )
            } else {
                None
            }
        },
    }
}

/// The kB amount of a `Sort Space Used` value such as `"524288 kB"`,
/// `"524288"` or `"150000.5 kB"`: its first whitespace-separated word, an
/// optional `+` and then a decimal number; `None` when there is no word or
/// it is not such a number.
pub open spec fn kb_value(s: Seq<char>) -> Option<KbAmount> {
    kb_amount_of(unsigned_digits(first_word(trim_start(s))))
}

/// Whether `v[lo..hi]` is all ASCII digits.
fn digits_only(v: &[char], lo: usize, hi: usize) -> (r: bool)
    requires
        lo <= hi <= v@.len(),
    ensures
        r == all_digits(v@.subrange(lo as int, hi as int)),
{
    let mut i = lo;
    while i < hi
        invariant
            lo <= i <= hi <= v@.len(),
            forall|j: int| lo <= j < i ==> is_ascii_digit(#[trigger] v@[j]),
        decreases hi - i,
    {
        if !char_is_ascii_digit(v[i]) {
            assert(v@.subrange(lo as int, hi as int)[i - lo] == v@[i as int]);
            return false;
        }
        i = i + 1;
    }
    assert forall|j: int| 0 <= j < hi - lo implies is_ascii_digit(#[trigger] v@.subrange(lo as int, hi as int)[j]) by {
        assert(v@.subrange(lo as int, hi as int)[j] == v@[lo + j]);
    }
    true
}

/// The value of decimal `i` of the digits of `v` from `start` on, zero past
/// the end.
fn decimal_digit(v: &[char], start: usize, i: usize) -> (r: u64)
    requires
        start <= v@.len(),
        all_digits(v@.skip(start as int)),
    ensures
        r == decimal_at(v@.skip(start as int), i as int),
{
    if i < v.len() - start {
        assert(v@.skip(start as int)[i as int] == v@[start + i]);
        assert(is_ascii_digit(v@.skip(start as int)[i as int]));
        (v[start + i] as u32 - 48) as u64
    } else {
        0
    }
}

/// Whether some digit of `v` from `start` on, after the third, is nonzero.
fn finer_decimals(v: &[char], start: usize) -> (r: bool)
    requires
        start <= v@.len(),
    ensures
        r == finer_nonzero(v@.skip(start as int)),
{
    let ghost f = v@.skip(start as int);
    let n = v.len() - start;
    let mut x: usize = 3;
    while x < n
        invariant
            3 <= x,
            n == f.len(),
            start <= v@.len(),
            start + n == v@.len(),
            start + n <= usize::MAX,
            f == v@.skip(start as int),
            forall|y: int| 3 <= y < x && y < f.len() ==> f[y] == '0',
        decreases n - x,
    {
        assert(f[x as int] == v@[start + x]);
        if v[start + x] != '0' {
            return true;
        }
        x = x + 1;
    }
    false
}

/// The amount written by `d`, a number without its sign.
fn kb_amount(d: &[char]) -> (r: Option<KbAmount>)
    ensures
        r == kb_amount_of(d@),
{
    match find_char(d, '.') {
        None => {
            if d.len() == 0 || !digits_only(d, 0, d.len()) {
                assert(d@.subrange(0, d@.len() as int) =~= d@);
                return None;
            }
            assert(d@.subrange(0, d@.len() as int) =~= d@);
            assert(unsigned_digits(d@) == d@);
            match parse_u64_chars(d, 0, d.len()) {
                Some(w) => Some(KbAmount { whole: w, thousandths: 0, finer: false }),
                None => None,
            }
        },
        Some(k) => {
            let ghost w = d@.take(k as int);
            let ghost f = d@.skip(k as int + 1);
            assert(d@.subrange(0, k as int) =~= w);
            assert(d@.subrange(k + 1, d@.len() as int) =~= f);
            if k == 0 && k + 1 == d.len() {
                return None;
            }
            if !digits_only(d, 0, k) || !digits_only(d, k + 1, d.len()) {
                return None;
            }
            let whole: u64 = if k == 0 {
                0
            } else {
                assert(unsigned_digits(w) == w);
                match parse_u64_chars(d, 0, k) {
                    Some(x) => x,
                    None => {
                        return None;
                    },
                }
            };
            let start = k + 1;
            let d0 = decimal_digit(d, start, 0);
            let d1 = decimal_digit(d, start, 1);
            let d2 = decimal_digit(d, start, 2);
            let thousandths = 100 * d0 + 10 * d1 + d2;
            let finer = finer_decimals(d, start);
            Some(KbAmount { whole, thousandths, finer })
        },
    }
}

/// Parses a PostgreSQL kB value such as `"524288 kB"`, `"524288"` or
/// `"150000.5 kB"`: the leading decimal number, or `None` when there is none.
pub fn parse_kb(value: &str) -> (r: Option<KbAmount>)
    ensures
        r == kb_value(value@),
{
    let v = chars_of(value);
    let a = leading_whitespace(v.as_slice());
    let j = word_end(v.as_slice(), a);
    let t = &v.as_slice()[a..j];
    assert(t@ =~= first_word(trim_start(v@)));
    let s0: usize = if t.len() > 0 && t[0] == '+' {
        1
    } else {
        0
    };
    let d = &t[s0..t.len()];
    assert(d@ =~= unsigned_digits(t@));
    kb_amount(d)
}

/// Sort space above which a disk sort is of high severity (100,000 kB).
pub const LARGE_SORT_SPILL_KB: u64 = 100_000;

/// Severity of a disk sort that used `k` kB: high above 100,000 kB,
/// otherwise medium.
pub open spec fn sort_spill_severity(k: KbAmount) -> Severity {
    if k.whole > LARGE_SORT_SPILL_KB || (k.whole == LARGE_SORT_SPILL_KB && (k.thousandths > 0
        || k.finer)) {
        Severity::High
    } else {
        Severity::Medium
    }
}

/// The sort space a node used: its `Sort Space Used` value read by
/// [`kb_value`], zero when absent or unreadable.
pub open spec fn space_used(n: PlanNode) -> KbAmount {
    match lookup(n.properties@, "Sort Space Used"@) {
        Some(v) => match kb_value(v) {
            Some(k) => k,
            None => zero_kb(),
        },
        None => zero_kb(),
    }
}

/// Severity of a hash that used `batches` batches, when that is more than one.
pub open spec fn hash_spill_severity(batches: Option<u64>) -> Option<Severity> {
    match batches {
        Some(n) => if n > 1 {
            Some(
                if n > 8 {
                    Severity::High
                } else {
                    Severity::Medium
                },
            )
        } else {
            None
        },
        None => None,
    }
}

/// What one node's sort and hash properties amount to.
#[derive(Debug, Clone, Copy, PartialEq, Eq)]
pub struct SortMemoryVerdict {
    /// The sort spilled to disk.
    pub sort_spill: bool,
    /// Severity of the disk sort, when the sort spilled.
    pub sort_severity: Option<Severity>,
    /// Sort space used (zero when unknown).
    pub space_used: KbAmount,
    /// Severity of a multi-batch hash, when there is one.
    pub hash_spill: Option<Severity>,
}

/// Whether node `n` sorted on disk.
pub open spec fn node_sort_spilled(n: PlanNode) -> bool {
    sort_spilled(lookup(n.properties@, "Sort Space Type"@), lookup(n.properties@, "Sort Method"@))
}

/// Whether node `n` hashed in more than one batch.
pub open spec fn node_hash_spilled(n: PlanNode) -> bool {
    hash_spill_severity(
        match lookup(n.properties@, "Batches"@) {
            Some(v) => parse_u64_spec(v),
            None => None,
        },
    ) is Some
}

/// Counts over the nodes of a plan.
#[derive(Debug, Clone, Copy, PartialEq, Eq)]
pub struct SortMemoryTally {
    pub nodes_analyzed: usize,
    pub nodes_with_sort_spill: usize,
    pub nodes_with_hash_spill: usize,
    /// Largest sort space used by any node, in thousandths of a kB (later
    /// decimals dropped).
    pub max_sort_space_used_thousandths: u128,
}

/// (sorts on disk, multi-batch hashes, largest sort space in thousandths of
/// a kB) among some visits.
pub open spec fn spill_tally(s: Seq<Visit>) -> (nat, nat, nat)
    decreases s.len(),
{
    if s.len() == 0 {
        (0, 0, 0)
    } else {
        let t = spill_tally(s.drop_last());
        let n = s.last().0;
        (t.0 + if node_sort_spilled(n) {
            1nat
        } else {
            0nat
        }, t.1 + if node_hash_spilled(n) {
            1nat
        } else {
            0nat
        }, if kb_thousandths(space_used(n)) > t.2 {
            kb_thousandths(space_used(n))
        } else {
            t.2
        })
    }
}

proof fn lemma_spill_tally_bounded(s: Seq<Visit>)
    ensures
        spill_tally(s).0 <= s.len(),
        spill_tally(s).1 <= s.len(),
    decreases s.len(),
{
    if s.len() > 0 {
        lemma_spill_tally_bounded(s.drop_last());
    }
}

/// Detects sorts and hashes that spilled to disk.
#[derive(Debug, Clone, Copy)]
pub struct SortMemoryAnalyzer;

impl SortMemoryAnalyzer {
    pub fn new() -> (r: Self) {
        SortMemoryAnalyzer
    }

    /// Applies the disk-sort and hash-batch rules to a node's `Sort Space
    /// Type`, `Sort Method`, sort space used (kB) and `Batches`.
    pub fn assess(
        &self,
        space_type: Option<&str>,
        method: Option<&str>,
        space_used: Option<KbAmount>,
        batches: Option<u64>,
    ) -> (r: SortMemoryVerdict)
        ensures
            r.space_used == match space_used {
                Some(k) => k,
                None => zero_kb(),
            },
            r.sort_severity == if r.sort_spill {
                Some(sort_spill_severity(r.space_used))
            } else {
                None
            },
            r.sort_spill == sort_spilled(
                match space_type {
                    Some(t) => Some(t@),
                    None => None,
                },
                match method {
                    Some(m) => Some(m@),
                    None => None,
                },
            ),
            r.hash_spill == hash_spill_severity(batches),
    {
        let is_disk = match space_type {
            Some(t) => {
                let v = chars_of(t);
                crate::text::chars_eq_str(v.as_slice(), "Disk")
            },
            None => false,
        };
        let external = match method {
            Some(m) => {
                let lower = to_lowercase(m);
                let v = chars_of(lower.as_str());
                contains_str(v.as_slice(), "external")
            },
            None => false,
        };
        let hash_spill = match batches {
            Some(n) => if n > 1 {
                Some(
                    if n > 8 {
                        Severity::High
                    } else {
                        Severity::Medium
                    },
                )
            } else {
                None
            },
            None => None,
        };
        let kb: KbAmount = match space_used {
            Some(k) => k,
            None => KbAmount { whole: 0, thousandths: 0, finer: false },
        };
        let sort_spill = is_disk || external;
        let sort_severity = if sort_spill {
            Some(
                if kb.whole > LARGE_SORT_SPILL_KB || (kb.whole == LARGE_SORT_SPILL_KB && (kb.thousandths > 0
                    || kb.finer)) {
                    Severity::High
                } else {
                    Severity::Medium
                },
            )
        } else {
            None
        };
        SortMemoryVerdict { sort_spill, sort_severity, space_used: kb, hash_spill }
    }

    pub fn assess_node(&self, node: &PlanNode) -> (r: SortMemoryVerdict)
        ensures
            r.space_used == space_used(*node),
            r.sort_severity == if r.sort_spill {
                Some(sort_spill_severity(space_used(*node)))
            } else {
                None
            },
            r.sort_spill == sort_spilled(
                lookup(node.properties@, "Sort Space Type"@),
                lookup(node.properties@, "Sort Method"@),
            ),
            r.hash_spill == hash_spill_severity(
                match lookup(node.properties@, "Batches"@) {
                    Some(v) => parse_u64_spec(v),
                    None => None,
                },
            ),
    {
        let space_type = node.get_property("Sort Space Type");
        let method = node.get_property("Sort Method");
        let batches = node.properties.get_u64("Batches");
        let used = node.get_property("Sort Space Used");
        let kb = match used {
            Some(u) => parse_kb(u.as_str()),
            None => None,
        };
        self.assess(
            match space_type {
                Some(t) => Some(t.as_str()),
                None => None,
            },
            match method {
                Some(m) => Some(m.as_str()),
                None => None,
            },
            match kb {
                Some(k) => Some(k),
                None => Some(KbAmount { whole: 0, thousandths: 0, finer: false }),
            },
            batches,
        )
    }

    /// Counts the nodes of the plan that sorted on disk or hashed in
    /// several batches.
    pub fn tally(&self, plan: &ParsedPlan) -> (r: SortMemoryTally)
        ensures
            r.nodes_analyzed == plan_preorder(*plan).len(),
            (
                r.nodes_with_sort_spill as nat,
                r.nodes_with_hash_spill as nat,
                r.max_sort_space_used_thousandths as nat,
            ) == spill_tally(plan_preorder(*plan)),
    {
        let visits = PlanTraversal::depth_first_visits(plan);
        let ghost pre = plan_preorder(*plan);
        let mut r = SortMemoryTally {
            nodes_analyzed: 0,
            nodes_with_sort_spill: 0,
            nodes_with_hash_spill: 0,
            max_sort_space_used_thousandths: 0,
        };
        let mut i: usize = 0;
        while i < visits.len()
            invariant
                i <= visits@.len(),
                entry_visits(visits@) == pre,
                r.nodes_analyzed == i,
                (
                    r.nodes_with_sort_spill as nat,
                    r.nodes_with_hash_spill as nat,
                    r.max_sort_space_used_thousandths as nat,
                ) == spill_tally(pre.take(i as int)),
            decreases visits@.len() - i,
        {
            let ghost t = pre.take(i as int + 1);
            assert(t.drop_last() =~= pre.take(i as int));
            assert(t.last() == pre[i as int]);
            proof {
                lemma_spill_tally_bounded(pre.take(i as int));
            }
            let node = visits[i].0;
            assert(pre[i as int].0 == *node);
            let v = self.assess_node(node);
            r.nodes_analyzed = r.nodes_analyzed + 1;
            if v.sort_spill {
                r.nodes_with_sort_spill = r.nodes_with_sort_spill + 1;
            }
            if v.hash_spill.is_some() {
                r.nodes_with_hash_spill = r.nodes_with_hash_spill + 1;
            }
            let used: u128 = (v.space_used.whole as u128) * 1000 + (v.space_used.thousandths as u128);
            if used > r.max_sort_space_used_thousandths {
                r.max_sort_space_used_thousandths = used;
            }
            i = i + 1;
        }
        assert(pre.take(i as int) =~= pre);
        r
    }
}

/// The sort and hash rules, stated from the node's values: a sort spilled
/// when its space type is `Disk` or its method, lowercased, mentions
/// `external`; a spilled sort of more than 100,000 kB (counting every
/// decimal) is high, otherwise medium; a hash in more than one batch spilled,
/// high above eight batches and medium otherwise.
pub proof fn lemma_sort_memory_rules(space_type: Option<Seq<char>>, method: Option<Seq<char>>, k: KbAmount, batches: Option<u64>)
    ensures
        sort_spilled(space_type, method) <==> space_type == Some("Disk"@) || (method is Some
            && contains_seq(lowercase(method->0), "external"@)),
        sort_spill_severity(k) == Severity::High <==> k.whole > 100_000 || (k.whole == 100_000 && (
        k.thousandths > 0 || k.finer)),
        sort_spill_severity(k) == Severity::High || sort_spill_severity(k) == Severity::Medium,
        hash_spill_severity(batches) is Some <==> batches is Some && batches->0 > 1,
        hash_spill_severity(batches) == Some(Severity::High) <==> batches is Some && batches->0 > 8,
        hash_spill_severity(batches) == Some(Severity::Medium) <==> batches is Some && 1 < batches->0 <= 8,
{
}

} // verus!
