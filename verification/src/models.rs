//! Plain records shared by the log reader and the grouper: a line of a text
//! plan, the format a plan arrived in, and the time-window filter.
use vstd::prelude::*;
use crate::text::{chars_of, leading_whitespace, string_from_chars, trim, trim_bounds, trim_start};

verus! {

/// One line of a text-format plan: its indentation and its trimmed text.
#[derive(Debug, Clone, PartialEq, Eq)]
pub struct PlanLine {
    pub indentation: usize,
    pub query: String,
}

/// Indentation of a plan line: the number of leading whitespace characters.
pub open spec fn indent_level(line: Seq<char>) -> nat {
    (line.len() - trim_start(line).len()) as nat
}

impl PlanLine {
    /// The indentation of `line` and its text with surrounding whitespace removed.
    pub fn new(line: &str) -> (r: Self)
        ensures
            r.indentation == indent_level(line@),
            r.query@ == trim(line@),
    {
        let v = chars_of(line);
        let indent = leading_whitespace(v.as_slice());
        let (a, b) = trim_bounds(v.as_slice(), 0, v.len());
        assert(v@.subrange(0, v@.len() as int) =~= v@);
        let text = string_from_chars(&v.as_slice()[a..b]);
        PlanLine { indentation: indent, query: text }
    }
}

/// The format a plan was logged in.
#[derive(Debug, Clone, Copy, PartialEq, Eq)]
pub enum PlanSourceFormat {
    Text,
    Json,
}

/// Optional time window on plan timestamps (microseconds since the Unix
/// epoch, UTC); both bounds are inclusive.
#[derive(Debug, Clone, Copy)]
pub struct DateFilter {
    pub since: Option<i64>,
    pub until: Option<i64>,
}

impl DateFilter {
    /// Whether `timestamp` lies in the window.
    pub open spec fn covers(self, timestamp: i64) -> bool {
        &&& (self.since matches Some(s) ==> s <= timestamp)
        &&& (self.until matches Some(u) ==> timestamp <= u)
    }

    pub fn new(since: Option<i64>, until: Option<i64>) -> (r: Self)
        ensures
            r.since == since,
            r.until == until,
    {
        DateFilter { since, until }
    }

    /// Whether `timestamp` is neither before `since` nor after `until`.
    pub fn matches(&self, timestamp: i64) -> (r: bool)
        ensures
            r == self.covers(timestamp),
    {
        match self.since {
            Some(since) => {
                if timestamp < since {
                    return false;
                }
            },
            None => {},
        }
        match self.until {
            Some(until) => {
                if timestamp > until {
                    return false;
                }
            },
            None => {},
        }
        true
    }
}

} // verus!
