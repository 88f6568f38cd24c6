//! Limits of the log reader against hostile input: the cap on one line, the
//! cap on one accumulated entry, and the bookkeeping that decides when a
//! line was cut short or an entry must be discarded.
use vstd::prelude::*;

verus! {

/// Default cap on a single log line (64 MiB).
pub const MAX_LINE_BYTES: u64 = 67_108_864;

/// Default cap on one accumulated entry: query text plus plan lines (256 MiB).
pub const MAX_ENTRY_BYTES: u64 = 268_435_456;

/// Retained-plan count at which the materialising reader warns.
pub const PLAN_RETENTION_WARN_THRESHOLD: usize = 500_000;

/// A byte cap as configured: zero disables the cap.
pub open spec fn cap_of(limit: u64) -> u64 {
    if limit == 0 {
        u64::MAX
    } else {
        limit
    }
}

/// The per-line and per-entry byte caps.
#[derive(Debug, Clone, Copy, PartialEq, Eq)]
pub struct ByteLimits {
    pub max_line_bytes: u64,
    pub max_entry_bytes: u64,
}

impl ByteLimits {
    /// The default caps.
    pub fn new() -> (r: Self)
        ensures
            r.max_line_bytes == MAX_LINE_BYTES,
            r.max_entry_bytes == MAX_ENTRY_BYTES,
    {
        ByteLimits { max_line_bytes: MAX_LINE_BYTES, max_entry_bytes: MAX_ENTRY_BYTES }
    }

    /// Override both caps; zero disables a cap.
    pub fn with_byte_limits(self, max_line: u64, max_entry: u64) -> (r: Self)
        ensures
            r.max_line_bytes == cap_of(max_line),
            r.max_entry_bytes == cap_of(max_entry),
    {
        ByteLimits {
            max_line_bytes: if max_line == 0 {
                u64::MAX
            } else {
                max_line
            },
            max_entry_bytes: if max_entry == 0 {
                u64::MAX
            } else {
                max_entry
            },
        }
    }

    /// Whether a read of `bytes_read` bytes stopped at the line cap rather
    /// than at a newline, so that the rest of the line must be skipped.
    pub fn line_was_cut(&self, bytes_read: u64, ends_with_newline: bool) -> (r: bool)
        ensures
            r == (bytes_read == self.max_line_bytes && !ends_with_newline),
    {
        bytes_read == self.max_line_bytes && !ends_with_newline
    }
}

/// Bytes accumulated by the entry being read.
#[derive(Debug, Clone, Copy, PartialEq, Eq)]
pub struct EntryBudget {
    pub used: u64,
}

impl EntryBudget {
    pub fn new() -> (r: Self)
        ensures
            r.used == 0,
    {
        EntryBudget { used: 0 }
    }

    /// Account for a line of `bytes_read` bytes. Outside an entry the count
    /// restarts at zero; inside one the line is added, and when the total
    /// passes the entry cap the entry is to be discarded (`true`) and the
    /// count restarts.
    pub fn account(&mut self, in_entry: bool, bytes_read: u64, limits: &ByteLimits) -> (discard: bool)
        requires
            !in_entry || old(self).used + bytes_read <= u64::MAX,
        ensures
            discard == (in_entry && old(self).used + bytes_read > limits.max_entry_bytes),
            final(self).used == if in_entry && !discard {
                old(self).used + bytes_read
            } else {
                0
            },
    {
        if !in_entry {
            self.used = 0;
            return false;
        }
        self.used = self.used + bytes_read;
        if self.used > limits.max_entry_bytes {
            self.used = 0;
            return true;
        }
        false
    }
}

/// Plans accepted since the last progress report: the current count less
/// the count last reported, and zero if the count went down.
pub fn progress_delta(current: usize, reported: usize) -> (d: usize)
    ensures
        d == if current >= reported {
            current - reported
        } else {
            0
        },
{
    current.saturating_sub(reported)
}

/// Whether a progress report is due after `line_count` lines (every 10,000).
pub fn progress_due(line_count: u64) -> (r: bool)
    ensures
        r == (line_count % 10_000 == 0),
{
    line_count % 10_000 == 0
}

} // verus!
