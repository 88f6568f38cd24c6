//! Character-level helpers shared by the plan-text parsers: decimal parsing,
//! whitespace trimming, tokenisation and substring search, each stated over
//! the `Seq<char>` view of the text.
use vstd::prelude::*;

verus! {

// ---------------------------------------------------------------------------
// Character classes
// ---------------------------------------------------------------------------

/// ASCII decimal digit.
pub open spec fn is_ascii_digit(c: char) -> bool {
    48 <= (c as u32) && (c as u32) <= 57
}

/// Numeric value of an ASCII digit.
pub open spec fn digit_value(c: char) -> int {
    (c as u32) - 48
}

/// Unicode `White_Space`, the set that `char::is_whitespace` tests.
pub open spec fn is_whitespace(c: char) -> bool {
    let u = c as u32;
    ||| u == 32
    ||| (9 <= u && u <= 13)
    ||| u == 0x85
    ||| u == 0xA0
    ||| u == 0x1680
    ||| (0x2000 <= u && u <= 0x200A)
    ||| u == 0x2028
    ||| u == 0x2029
    ||| u == 0x202F
    ||| u == 0x205F
    ||| u == 0x3000
}

pub fn char_is_ascii_digit(c: char) -> (r: bool)
    ensures
        r == is_ascii_digit(c),
{
    let u = c as u32;
    48 <= u && u <= 57
}

pub fn char_is_whitespace(c: char) -> (r: bool)
    ensures
        r == is_whitespace(c),
{
    let u = c as u32;
    u == 32 || (9 <= u && u <= 13) || u == 0x85 || u == 0xA0 || u == 0x1680 || (0x2000 <= u
        && u <= 0x200A) || u == 0x2028 || u == 0x2029 || u == 0x202F || u == 0x205F || u == 0x3000
}

// ---------------------------------------------------------------------------
// Conversions between `str`/`String` and `Vec<char>`
// ---------------------------------------------------------------------------

/// The characters of `s`, in order.
pub fn chars_of(s: &str) -> (out: Vec<char>)
    ensures
        out@ == s@,
{
    let mut out: Vec<char> = Vec::new();
    for c in it: s.chars()
        invariant
            out@ == it.seq().take(it.index()),
    {
        out.push(c);
    }
    out
}

/// `String::from_iter` over the characters of `v` (std's `FromIterator<&char>`
/// for `String`): the string made of those characters, in order.
#[verifier::external_body]
pub(crate) fn string_from_chars(v: &[char]) -> (s: String)
    ensures
        s@ == v@,
{
    String::from_iter(v)
}

/// An owned copy of `s`.
pub fn owned(s: &str) -> (out: String)
    ensures
        out@ == s@,
{
    s.to_owned()
}

/// Whether two character sequences are equal.
pub fn chars_eq(a: &[char], b: &[char]) -> (r: bool)
    ensures
        r == (a@ == b@),
{
    if a.len() != b.len() {
        return false;
    }
    let mut i: usize = 0;
    while i < a.len()
        invariant
            a.len() == b.len(),
            i <= a.len(),
            forall|j: int| 0 <= j < i ==> a@[j] == b@[j],
        decreases a.len() - i,
    {
        if a[i] != b[i] {
            return false;
        }
        i += 1;
    }
    assert(a@ =~= b@);
    true
}

/// Whether the characters of `a` spell out the string `lit`.
pub fn chars_eq_str(a: &[char], lit: &str) -> (r: bool)
    ensures
        r == (a@ == lit@),
{
    let b = chars_of(lit);
    chars_eq(a, b.as_slice())
}

// ---------------------------------------------------------------------------
// Decimal integers, as `str::parse::<u64>` reads them
// ---------------------------------------------------------------------------

pub open spec fn all_digits(s: Seq<char>) -> bool {
    forall|i: int| 0 <= i < s.len() ==> is_ascii_digit(#[trigger] s[i])
}

/// Value of a string of decimal digits, most significant first.
pub open spec fn decimal_value(s: Seq<char>) -> int
    decreases s.len(),
{
    if s.len() == 0 {
        0
    } else {
        10 * decimal_value(s.drop_last()) + digit_value(s.last())
    }
}

/// The digits of an unsigned literal: one leading `+` is allowed.
pub open spec fn unsigned_digits(s: Seq<char>) -> Seq<char> {
    if s.len() > 0 && s[0] == '+' {
        s.drop_first()
    } else {
        s
    }
}

/// What `str::parse::<u64>` accepts: an optional `+`, then one or more ASCII
/// digits whose value fits in a `u64`.
pub open spec fn parse_u64_spec(s: Seq<char>) -> Option<u64> {
    let d = unsigned_digits(s);
    if d.len() > 0 && all_digits(d) && decimal_value(d) <= u64::MAX {
        Some(decimal_value(d) as u64)
    } else {
        None
    }
}

proof fn lemma_decimal_value_nonneg(s: Seq<char>)
    requires
        all_digits(s),
    ensures
        decimal_value(s) >= 0,
    decreases s.len(),
{
    if s.len() > 0 {
        lemma_decimal_value_nonneg(s.drop_last());
        assert(is_ascii_digit(s[s.len() - 1]));
    }
}

/// A prefix of a digit string never has a larger value than the whole.
proof fn lemma_decimal_value_prefix(s: Seq<char>, j: int)
    requires
        all_digits(s),
        0 <= j <= s.len(),
    ensures
        decimal_value(s.take(j)) <= decimal_value(s),
    decreases s.len(),
{
    if j < s.len() {
        let p = s.drop_last();
        assert(p.take(j) =~= s.take(j));
        lemma_decimal_value_prefix(p, j);
        lemma_decimal_value_nonneg(p);
        assert(is_ascii_digit(s[s.len() - 1]));
    } else {
        assert(s.take(j) =~= s);
    }
}

/// Parses `v[lo..hi]` as a `u64`.
pub fn parse_u64_chars(v: &[char], lo: usize, hi: usize) -> (r: Option<u64>)
    requires
        lo <= hi <= v.len(),
    ensures
        r == parse_u64_spec(v@.subrange(lo as int, hi as int)),
{
    let ghost s = v@.subrange(lo as int, hi as int);
    let mut start = lo;
    if start < hi && v[start] == '+' {
        start = start + 1;
    }
    let ghost d = v@.subrange(start as int, hi as int);
    assert(d =~= unsigned_digits(s));
    if start == hi {
        return None;
    }
    let mut acc: u64 = 0;
    let mut i = start;
    while i < hi
        invariant
            lo <= start < hi <= v.len(),
            start <= i <= hi,
            s == v@.subrange(lo as int, hi as int),
            d == v@.subrange(start as int, hi as int),
            d =~= unsigned_digits(s),
            all_digits(v@.subrange(start as int, i as int)),
            acc == decimal_value(v@.subrange(start as int, i as int)),
        decreases hi - i,
    {
        let c = v[i];
        if !char_is_ascii_digit(c) {
            assert(d[i - start] == c);
            assert(!all_digits(d));
            return None;
        }
        let digit: u32 = c as u32 - 48;
        let next: u128 = (acc as u128) * 10 + (digit as u128);
        let ghost p = v@.subrange(start as int, i as int + 1);
        assert(p.drop_last() =~= v@.subrange(start as int, i as int));
        assert(p.last() == c);
        assert(all_digits(p));
        assert(decimal_value(p) == next);
        if next > u64::MAX as u128 {
            proof {
                if all_digits(d) {
                    assert(d.take(i - start + 1) =~= p);
                    lemma_decimal_value_prefix(d, i - start + 1);
                    assert(decimal_value(d) > u64::MAX);
                }
            }
            return None;
        }
        acc = next as u64;
        i = i + 1;
    }
    assert(v@.subrange(start as int, i as int) =~= d);
    Some(acc)
}

/// `s.parse::<u64>().ok()`.
pub fn parse_u64(s: &str) -> (r: Option<u64>)
    ensures
        r == parse_u64_spec(s@),
{
    let v = chars_of(s);
    let r = parse_u64_chars(v.as_slice(), 0, v.len());
    assert(v@.subrange(0, v@.len() as int) =~= v@);
    r
}

// ---------------------------------------------------------------------------
// Trimming
// ---------------------------------------------------------------------------

/// `s` without its leading whitespace.
pub open spec fn trim_start(s: Seq<char>) -> Seq<char>
    decreases s.len(),
{
    if s.len() > 0 && is_whitespace(s[0]) {
        trim_start(s.drop_first())
    } else {
        s
    }
}

/// `s` without its trailing whitespace.
pub open spec fn trim_end(s: Seq<char>) -> Seq<char>
    decreases s.len(),
{
    if s.len() > 0 && is_whitespace(s.last()) {
        trim_end(s.drop_last())
    } else {
        s
    }
}

/// `str::trim`: leading and trailing whitespace removed.
pub open spec fn trim(s: Seq<char>) -> Seq<char> {
    trim_end(trim_start(s))
}

proof fn lemma_trim_start_skip(s: Seq<char>, i: int)
    requires
        0 <= i <= s.len(),
        forall|j: int| 0 <= j < i ==> is_whitespace(#[trigger] s[j]),
    ensures
        trim_start(s) == trim_start(s.skip(i)),
    decreases i,
{
    if i > 0 {
        assert(s.skip(1) =~= s.drop_first());
        assert forall|j: int| 0 <= j < i - 1 implies is_whitespace(#[trigger] s.drop_first()[j]) by {
            assert(s.drop_first()[j] == s[j + 1]);
        }
        lemma_trim_start_skip(s.drop_first(), i - 1);
        assert(s.drop_first().skip(i - 1) =~= s.skip(i));
    } else {
        assert(s.skip(0) =~= s);
    }
}

proof fn lemma_trim_end_take(s: Seq<char>, k: int)
    requires
        0 <= k <= s.len(),
        forall|j: int| k <= j < s.len() ==> is_whitespace(#[trigger] s[j]),
    ensures
        trim_end(s) == trim_end(s.take(k)),
    decreases s.len() - k,
{
    if k < s.len() {
        let p = s.drop_last();
        assert forall|j: int| k <= j < p.len() implies is_whitespace(#[trigger] p[j]) by {
            assert(p[j] == s[j]);
        }
        lemma_trim_end_take(p, k);
        assert(p.take(k) =~= s.take(k));
    } else {
        assert(s.take(k) =~= s);
    }
}

/// Number of leading whitespace characters of `v`.
pub fn leading_whitespace(v: &[char]) -> (n: usize)
    ensures
        n + trim_start(v@).len() == v@.len(),
        v@.skip(n as int) == trim_start(v@),
{
    let mut a: usize = 0;
    while a < v.len() && char_is_whitespace(v[a])
        invariant
            a <= v.len(),
            forall|j: int| 0 <= j < a ==> is_whitespace(#[trigger] v@[j]),
        decreases v.len() - a,
    {
        a = a + 1;
    }
    proof {
        lemma_trim_start_skip(v@, a as int);
        let t = v@.skip(a as int);
        if a < v.len() {
            assert(t[0] == v@[a as int]);
        }
        assert(trim_start(t) == t);
    }
    a
}

/// The bounds `(a, b)` of `trim(v[lo..hi])` inside `v`.
pub fn trim_bounds(v: &[char], lo: usize, hi: usize) -> (r: (usize, usize))
    requires
        lo <= hi <= v.len(),
    ensures
        lo <= r.0 <= r.1 <= hi,
        v@.subrange(r.0 as int, r.1 as int) == trim(v@.subrange(lo as int, hi as int)),
{
    let ghost s = v@.subrange(lo as int, hi as int);
    let mut a = lo;
    while a < hi && char_is_whitespace(v[a])
        invariant
            lo <= a <= hi <= v.len(),
            forall|j: int| lo <= j < a ==> is_whitespace(#[trigger] v@[j]),
        decreases hi - a,
    {
        a = a + 1;
    }
    proof {
        assert forall|j: int| 0 <= j < a - lo implies is_whitespace(#[trigger] s[j]) by {
            assert(s[j] == v@[lo + j]);
        }
        lemma_trim_start_skip(s, a - lo);
        assert(s.skip(a - lo) =~= v@.subrange(a as int, hi as int));
        let t = v@.subrange(a as int, hi as int);
        if a < hi {
            assert(t[0] == v@[a as int]);
            assert(trim_start(t) == t);
        } else {
            assert(t.len() == 0);
        }
    }
    let mut b = hi;
    while b > a && char_is_whitespace(v[b - 1])
        invariant
            lo <= a <= b <= hi <= v.len(),
            forall|j: int| b <= j < hi ==> is_whitespace(#[trigger] v@[j]),
        decreases b - a,
    {
        b = b - 1;
    }
    proof {
        let t = v@.subrange(a as int, hi as int);
        assert forall|j: int| b - a <= j < t.len() implies is_whitespace(#[trigger] t[j]) by {
            assert(t[j] == v@[a + j]);
        }
        lemma_trim_end_take(t, b - a);
        let u = t.take(b - a);
        assert(u =~= v@.subrange(a as int, b as int));
        if b > a {
            assert(u.last() == v@[b - 1]);
        }
    }
    (a, b)
}

// ---------------------------------------------------------------------------
// Tokens
// ---------------------------------------------------------------------------

/// The separator sets that the plan-text parsers split on.
#[derive(Clone, Copy, Debug, PartialEq, Eq)]
pub enum Separators {
    /// `' '` and `','`, as in `str::split([' ', ','])`.
    SpaceOrComma,
    /// Unicode whitespace, as in `str::split_whitespace`.
    Whitespace,
}

impl Separators {
    pub open spec fn spec_is_sep(self, c: char) -> bool {
        match self {
            Separators::SpaceOrComma => c == ' ' || c == ',',
            Separators::Whitespace => is_whitespace(c),
        }
    }

    pub fn is_sep(&self, c: char) -> (r: bool)
        ensures
            r == self.spec_is_sep(c),
    {
        match self {
            Separators::SpaceOrComma => c == ' ' || c == ',',
            Separators::Whitespace => char_is_whitespace(c),
        }
    }
}

/// The non-empty maximal runs of non-separator characters of `s`, in order:
/// what `split(..)` followed by dropping the empty pieces yields.
pub open spec fn tokens(s: Seq<char>, sep: Separators) -> Seq<Seq<char>>
    decreases s.len(),
{
    if s.len() == 0 {
        Seq::empty()
    } else {
        let t = tokens(s.drop_last(), sep);
        let c = s.last();
        if sep.spec_is_sep(c) {
            t
        } else if s.len() > 1 && !sep.spec_is_sep(s[s.len() - 2]) {
            t.update(t.len() - 1, t.last().push(c))
        } else {
            t.push(seq![c])
        }
    }
}

/// A text whose last character is not a separator has at least one token.
proof fn lemma_tokens_nonempty(s: Seq<char>, sep: Separators)
    requires
        s.len() > 0,
        !sep.spec_is_sep(s.last()),
    ensures
        tokens(s, sep).len() > 0,
    decreases s.len(),
{
    if s.len() > 1 && !sep.spec_is_sep(s[s.len() - 2]) {
        let p = s.drop_last();
        assert(p.last() == s[s.len() - 2]);
        lemma_tokens_nonempty(p, sep);
    }
}

pub open spec fn views(v: Seq<Vec<char>>) -> Seq<Seq<char>> {
    v.map_values(|t: Vec<char>| t@)
}

/// Splits `v` into its tokens.
pub fn tokenize(v: &[char], sep: Separators) -> (out: Vec<Vec<char>>)
    ensures
        views(out@) == tokens(v@, sep),
{
    let mut out: Vec<Vec<char>> = Vec::new();
    let mut i: usize = 0;
    while i < v.len()
        invariant
            i <= v.len(),
            views(out@) == tokens(v@.take(i as int), sep),
        decreases v.len() - i,
    {
        let c = v[i];
        let ghost s = v@.take(i as int + 1);
        assert(s.drop_last() =~= v@.take(i as int));
        assert(s.last() == c);
        if sep.is_sep(c) {
        } else if i > 0 && !sep.is_sep(v[i - 1]) {
            proof {
                let p = v@.take(i as int);
                assert(p.last() == v@[i - 1]);
                lemma_tokens_nonempty(p, sep);
                assert(s[s.len() - 2] == v@[i - 1]);
            }
            let mut last = out.pop().unwrap();
            last.push(c);
            out.push(last);
            assert(views(out@) =~= tokens(s, sep));
        } else {
            proof {
                if i > 0 {
                    assert(s[s.len() - 2] == v@[i - 1]);
                }
            }
            let mut fresh: Vec<char> = Vec::new();
            fresh.push(c);
            out.push(fresh);
            assert(fresh@ =~= seq![c]);
            assert(views(out@) =~= tokens(s, sep));
        }
        i = i + 1;
    }
    assert(v@.take(v@.len() as int) =~= v@);
    out
}

// ---------------------------------------------------------------------------
// Searching
// ---------------------------------------------------------------------------

/// Index of the first occurrence of `c` in `s`.
pub open spec fn index_of_char(s: Seq<char>, c: char) -> Option<int>
    decreases s.len(),
{
    if s.len() == 0 {
        None
    } else {
        match index_of_char(s.drop_last(), c) {
            Some(i) => Some(i),
            None => if s.last() == c {
                Some(s.len() - 1)
            } else {
                None
            },
        }
    }
}

proof fn lemma_index_of_char_none(s: Seq<char>, c: char)
    requires
        forall|j: int| 0 <= j < s.len() ==> s[j] != c,
    ensures
        index_of_char(s, c) is None,
    decreases s.len(),
{
    if s.len() > 0 {
        lemma_index_of_char_none(s.drop_last(), c);
    }
}

proof fn lemma_index_of_char_found(s: Seq<char>, c: char, i: int)
    requires
        0 <= i < s.len(),
        s[i] == c,
        forall|j: int| 0 <= j < i ==> s[j] != c,
    ensures
        index_of_char(s, c) == Some(i),
    decreases s.len(),
{
    if i < s.len() - 1 {
        lemma_index_of_char_found(s.drop_last(), c, i);
    } else {
        lemma_index_of_char_none(s.drop_last(), c);
    }
}

/// Position of the first `c` in `v`, as `str::find` / `split_once` see it.
pub fn find_char(v: &[char], c: char) -> (r: Option<usize>)
    ensures
        match r {
            Some(i) => i < v.len() && v@[i as int] == c && index_of_char(v@, c) == Some(i as int),
            None => index_of_char(v@, c) is None,
        },
{
    let mut i: usize = 0;
    while i < v.len()
        invariant
            i <= v.len(),
            forall|j: int| 0 <= j < i ==> v@[j] != c,
        decreases v.len() - i,
    {
        if v[i] == c {
            proof {
                lemma_index_of_char_found(v@, c, i as int);
            }
            return Some(i);
        }
        i = i + 1;
    }
    proof {
        lemma_index_of_char_none(v@, c);
    }
    None
}

/// Whether `pat` occurs in `s` starting at `i`.
pub open spec fn occurs_at(s: Seq<char>, pat: Seq<char>, i: int) -> bool {
    0 <= i && i + pat.len() <= s.len() && s.subrange(i, i + pat.len()) == pat
}

/// The first position at which `pat` occurs in `s`.
pub open spec fn first_occurrence(s: Seq<char>, pat: Seq<char>) -> Option<int> {
    if exists|i: int| occurs_at(s, pat, i) {
        Some(
            choose|i: int|
                occurs_at(s, pat, i) && forall|j: int| 0 <= j < i ==> !occurs_at(s, pat, j),
        )
    } else {
        None
    }
}

/// What `str::split(pat).next()` yields: the text before the first
/// occurrence of `pat`, or all of it.
pub open spec fn before_first(s: Seq<char>, pat: Seq<char>) -> Seq<char> {
    match first_occurrence(s, pat) {
        Some(i) => s.take(i),
        None => s,
    }
}

fn matches_at(v: &[char], pat: &[char], i: usize) -> (r: bool)
    requires
        i <= v.len(),
    ensures
        r == occurs_at(v@, pat@, i as int),
{
    if pat.len() > v.len() - i {
        return false;
    }
    let mut k: usize = 0;
    while k < pat.len()
        invariant
            i + pat.len() <= v.len(),
            k <= pat.len(),
            forall|j: int| 0 <= j < k ==> v@[i + j] == pat@[j],
        decreases pat.len() - k,
    {
        if v[i + k] != pat[k] {
            assert(v@.subrange(i as int, i + pat.len())[k as int] == v@[i + k]);
            return false;
        }
        k = k + 1;
    }
    assert(v@.subrange(i as int, i + pat.len()) =~= pat@);
    true
}

proof fn lemma_first_occurrence_at(s: Seq<char>, pat: Seq<char>, i: int)
    requires
        occurs_at(s, pat, i),
        forall|j: int| 0 <= j < i ==> !occurs_at(s, pat, j),
    ensures
        first_occurrence(s, pat) == Some(i),
{
    let w = choose|k: int| occurs_at(s, pat, k) && forall|j: int| 0 <= j < k ==> !occurs_at(s, pat, j);
    assert(occurs_at(s, pat, w));
    if w < i {
    } else if w > i {
        assert(!occurs_at(s, pat, i));
    }
}

/// Position of the first occurrence of `pat` in `v`.
pub fn find_pattern(v: &[char], pat: &[char]) -> (r: Option<usize>)
    ensures
        match r {
            Some(i) => i <= v.len() && occurs_at(v@, pat@, i as int) && first_occurrence(v@, pat@) == Some(
                i as int,
            ),
            None => first_occurrence(v@, pat@) is None,
        },
{
    let mut i: usize = 0;
    while i < v.len()
        invariant
            i <= v.len(),
            forall|j: int| 0 <= j < i ==> !occurs_at(v@, pat@, j),
        decreases v.len() - i,
    {
        if matches_at(v, pat, i) {
            proof {
                lemma_first_occurrence_at(v@, pat@, i as int);
            }
            return Some(i);
        }
        i = i + 1;
    }
    if matches_at(v, pat, i) {
        proof {
            lemma_first_occurrence_at(v@, pat@, i as int);
        }
        return Some(i);
    }
    proof {
        assert forall|k: int| !occurs_at(v@, pat@, k) by {
            if 0 <= k && k + pat@.len() <= v@.len() {
                assert(k <= i);
            }
        }
    }
    None
}


/// The characters of `t` up to its first whitespace.
pub open spec fn first_word(t: Seq<char>) -> Seq<char>
    decreases t.len(),
{
    if t.len() == 0 || is_whitespace(t[0]) {
        Seq::empty()
    } else {
        seq![t[0]] + first_word(t.drop_first())
    }
}

/// The word that follows the first occurrence of `marker` in `s`, if it
/// occurs.
#[verifier::opaque]
pub open spec fn word_after_spec(s: Seq<char>, marker: Seq<char>) -> Option<Seq<char>> {
    match first_occurrence(s, marker) {
        Some(i) => Some(first_word(s.skip(i + marker.len()))),
        None => None,
    }
}

proof fn lemma_first_word_step(t: Seq<char>, a: int, j: int)
    requires
        0 <= a <= j < t.len(),
        !is_whitespace(t[j]),
        first_word(t.skip(a)) == t.subrange(a, j) + first_word(t.skip(j)),
    ensures
        first_word(t.skip(a)) == t.subrange(a, j + 1) + first_word(t.skip(j + 1)),
{
    let u = t.skip(j);
    assert(u[0] == t[j]);
    assert(u.drop_first() =~= t.skip(j + 1));
    assert(t.subrange(a, j) + seq![t[j]] =~= t.subrange(a, j + 1));
}

/// Where the word starting at `start` ends: the first whitespace at or after
/// `start`, or the end.
pub(crate) fn word_end(v: &[char], start: usize) -> (j: usize)
    requires
        start <= v@.len(),
    ensures
        start <= j <= v@.len(),
        first_word(v@.skip(start as int)) == v@.subrange(start as int, j as int),
{
    let mut j = start;
    assert(v@.subrange(start as int, j as int) + first_word(v@.skip(j as int)) =~= first_word(
        v@.skip(start as int),
    ));
    while j < v.len() && !char_is_whitespace(v[j])
        invariant
            start <= j <= v@.len(),
            first_word(v@.skip(start as int)) == v@.subrange(start as int, j as int) + first_word(
                v@.skip(j as int),
            ),
        decreases v@.len() - j,
    {
        proof {
            lemma_first_word_step(v@, start as int, j as int);
        }
        j = j + 1;
    }
    let ghost rest = v@.skip(j as int);
    if j < v.len() {
        assert(rest[0] == v@[j as int]);
    }
    assert(first_word(rest) =~= Seq::<char>::empty());
    assert(v@.subrange(start as int, j as int) + first_word(rest) =~= v@.subrange(start as int, j as int));
    j
}

proof fn lemma_word_after(s: Seq<char>, pat: Seq<char>, i: int, j: int)
    requires
        first_occurrence(s, pat) == Some(i),
        i + pat.len() <= j <= s.len(),
        first_word(s.skip(i + pat.len())) == s.subrange(i + pat.len(), j),
    ensures
        word_after_spec(s, pat) == Some(s.subrange(i + pat.len(), j)),
{
    reveal(word_after_spec);
}

proof fn lemma_no_word_after(s: Seq<char>, pat: Seq<char>)
    requires
        first_occurrence(s, pat) is None,
    ensures
        word_after_spec(s, pat) is None,
{
    reveal(word_after_spec);
}

/// The word that follows the first occurrence of `marker` in `text` (up to
/// the next whitespace), such as the relation after `" on "` in a plan line.
#[verifier::spinoff_prover]
#[verifier::rlimit(100)]
pub fn word_after(text: &str, marker: &str) -> (r: Option<String>)
    ensures
        match r {
            Some(w) => word_after_spec(text@, marker@) == Some(w@),
            None => word_after_spec(text@, marker@) is None,
        },
{
    let v = chars_of(text);
    let m = chars_of(marker);
    match find_pattern(v.as_slice(), m.as_slice()) {
        None => {
            proof {
                lemma_no_word_after(v@, m@);
            }
            None
        },
        Some(i) => {
            let start = i + m.len();
            let j = word_end(v.as_slice(), start);
            let w = string_from_chars(&v.as_slice()[start..j]);
            proof {
                assert(w@ =~= v@.subrange(start as int, j as int));
                lemma_word_after(v@, m@, i as int, j as int);
            }
            Some(w)
        },
    }
}

// ---------------------------------------------------------------------------
// Case folding and containment
// ---------------------------------------------------------------------------

/// What `str::to_lowercase` makes of a text (Unicode lowercase mapping).
pub uninterp spec fn lowercase(s: Seq<char>) -> Seq<char>;

/// `s.to_lowercase()`: the Unicode lowercase form of `s`.
#[verifier::external_body]
pub(crate) fn to_lowercase(s: &str) -> (r: String)
    ensures
        r@ == lowercase(s@),
{
    s.to_lowercase()
}

/// Whether `pat` occurs anywhere in `s`.
pub open spec fn contains_seq(s: Seq<char>, pat: Seq<char>) -> bool {
    exists|i: int| occurs_at(s, pat, i)
}

/// Whether `pat` occurs anywhere in `v` (`str::contains`).
pub fn contains_str(v: &[char], pat: &str) -> (r: bool)
    ensures
        r == contains_seq(v@, pat@),
{
    let p = chars_of(pat);
    match find_pattern(v, p.as_slice()) {
        Some(i) => {
            assert(first_occurrence(v@, p@) is Some);
            true
        },
        None => false,
    }
}

} // verus!
