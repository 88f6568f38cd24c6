//! The decisions of the analysis engine: whether an analyser takes its turn,
//! how a run ended, and the tally of the turns.
use vstd::prelude::*;
use crate::text::{chars_eq_str, chars_of};

verus! {

/// Why an analyser was not run.
#[derive(Debug, Clone, Copy, PartialEq, Eq, Structural)]
pub enum SkipReason {
    /// The caller's predicate left it out.
    FilteredOut,
    /// It does not support the plan.
    UnsupportedPlan,
}

/// Why a run failed.
#[derive(Debug, Clone, Copy, PartialEq, Eq, Structural)]
pub enum RunFailure {
    /// It ran longer than the time allowed to one analyser.
    TimedOut,
    /// It panicked.
    Panicked,
}

/// How one analyser's turn ended.
#[derive(Debug, Clone, Copy, PartialEq, Eq, Structural)]
pub enum RunOutcome {
    Succeeded,
    Failed(RunFailure),
    Skipped(SkipReason),
}

impl RunOutcome {
    /// The analyser produced a report.
    pub fn is_success(&self) -> (r: bool)
        ensures
            r == (*self is Succeeded),
    {
        match self {
            RunOutcome::Succeeded => true,
            _ => false,
        }
    }

    /// The analyser ran and failed.
    pub fn is_error(&self) -> (r: bool)
        ensures
            r == (*self is Failed),
    {
        match self {
            RunOutcome::Failed(_) => true,
            _ => false,
        }
    }

    /// The analyser was not run.
    pub fn is_skipped(&self) -> (r: bool)
        ensures
            r == (*self is Skipped),
    {
        match self {
            RunOutcome::Skipped(_) => true,
            _ => false,
        }
    }
}

/// Removing the analysers named `name` from those named `names`: for each
/// analyser whether it stays, and whether any was removed.
pub fn removal(names: &[String], name: &str) -> (r: (Vec<bool>, bool))
    ensures
        r.0@.len() == names@.len(),
        forall|i: int| 0 <= i < names@.len() ==> r.0@[i] == (names@[i]@ != name@),
        r.1 == exists|i: int| 0 <= i < names@.len() && #[trigger] names@[i]@ == name@,
{
    let mut keep: Vec<bool> = Vec::new();
    let mut removed = false;
    let mut i: usize = 0;
    while i < names.len()
        invariant
            i <= names@.len(),
            keep@.len() == i,
            forall|j: int| 0 <= j < i ==> keep@[j] == (names@[j]@ != name@),
            removed == exists|j: int| 0 <= j < i && #[trigger] names@[j]@ == name@,
        decreases names@.len() - i,
    {
        let v = chars_of(names[i].as_str());
        let same = chars_eq_str(v.as_slice(), name);
        keep.push(!same);
        if same {
            removed = true;
        }
        i = i + 1;
    }
    (keep, removed)
}

/// The position of the first analyser named `name` among those named
/// `names`, if any is.
pub fn position_of(names: &[String], name: &str) -> (r: Option<usize>)
    ensures
        match r {
            Some(i) => i < names@.len() && names@[i as int]@ == name@ && forall|j: int|
                0 <= j < i ==> #[trigger] names@[j]@ != name@,
            None => forall|j: int| 0 <= j < names@.len() ==> #[trigger] names@[j]@ != name@,
        },
{
    let mut i: usize = 0;
    while i < names.len()
        invariant
            i <= names@.len(),
            forall|j: int| 0 <= j < i ==> #[trigger] names@[j]@ != name@,
        decreases names@.len() - i,
    {
        let v = chars_of(names[i].as_str());
        if chars_eq_str(v.as_slice(), name) {
            return Some(i);
        }
        i = i + 1;
    }
    None
}

/// Whether an analyser takes its turn: not when the caller's predicate leaves
/// it out, and otherwise not when it does not support the plan.
pub fn launch_decision(selected: bool, supports_plan: bool) -> (r: Option<SkipReason>)
    ensures
        r == if !selected {
            Some(SkipReason::FilteredOut)
        } else if !supports_plan {
            Some(SkipReason::UnsupportedPlan)
        } else {
            None
        },
{
    if !selected {
        Some(SkipReason::FilteredOut)
    } else if !supports_plan {
        Some(SkipReason::UnsupportedPlan)
    } else {
        None
    }
}

/// How a run ended that took `elapsed_nanos` against a limit of
/// `limit_nanos`: over the limit it failed by timing out, whether or not it
/// completed; within it, it succeeded if it completed and panicked if not.
pub fn run_outcome(elapsed_nanos: u128, limit_nanos: u128, completed: bool) -> (r: RunOutcome)
    ensures
        r == if elapsed_nanos > limit_nanos {
            RunOutcome::Failed(RunFailure::TimedOut)
        } else if completed {
            RunOutcome::Succeeded
        } else {
            RunOutcome::Failed(RunFailure::Panicked)
        },
{
    if elapsed_nanos > limit_nanos {
        RunOutcome::Failed(RunFailure::TimedOut)
    } else if completed {
        RunOutcome::Succeeded
    } else {
        RunOutcome::Failed(RunFailure::Panicked)
    }
}

/// Counts of the turns by how they ended.
#[derive(Debug, Clone, Copy, PartialEq, Eq)]
pub struct ExecutionCounts {
    pub total_analyzers: usize,
    pub successful_count: usize,
    pub failed_count: usize,
    pub skipped_count: usize,
}

/// (succeeded, failed, skipped) among `s`.
pub open spec fn outcome_counts(s: Seq<RunOutcome>) -> (nat, nat, nat)
    decreases s.len(),
{
    if s.len() == 0 {
        (0, 0, 0)
    } else {
        let c = outcome_counts(s.drop_last());
        match s.last() {
            RunOutcome::Succeeded => (c.0 + 1, c.1, c.2),
            RunOutcome::Failed(_) => (c.0, c.1 + 1, c.2),
            RunOutcome::Skipped(_) => (c.0, c.1, c.2 + 1),
        }
    }
}

/// Every turn ends in exactly one way: the three counts add up to the
/// number of turns.
pub proof fn lemma_every_turn_counted_once(s: Seq<RunOutcome>)
    ensures
        outcome_counts(s).0 + outcome_counts(s).1 + outcome_counts(s).2 == s.len(),
    decreases s.len(),
{
    if s.len() > 0 {
        lemma_every_turn_counted_once(s.drop_last());
    }
}

/// Tallies the turns by how they ended.
pub fn execution_counts(outcomes: &[RunOutcome]) -> (r: ExecutionCounts)
    ensures
        r.total_analyzers == outcomes@.len(),
        (r.successful_count as nat, r.failed_count as nat, r.skipped_count as nat) == outcome_counts(
            outcomes@,
        ),
{
    let mut c = ExecutionCounts { total_analyzers: outcomes.len(), successful_count: 0, failed_count: 0, skipped_count: 0 };
    let mut i: usize = 0;
    while i < outcomes.len()
        invariant
            i <= outcomes@.len(),
            c.total_analyzers == outcomes@.len(),
            (c.successful_count as nat, c.failed_count as nat, c.skipped_count as nat) == outcome_counts(
                outcomes@.take(i as int),
            ),
        decreases outcomes@.len() - i,
    {
        let ghost t = outcomes@.take(i as int + 1);
        assert(t.drop_last() =~= outcomes@.take(i as int));
        assert(t.last() == outcomes@[i as int]);
        proof {
            lemma_every_turn_counted_once(outcomes@.take(i as int));
        }
        match outcomes[i] {
            RunOutcome::Succeeded => c.successful_count = c.successful_count + 1,
            RunOutcome::Failed(_) => c.failed_count = c.failed_count + 1,
            RunOutcome::Skipped(_) => c.skipped_count = c.skipped_count + 1,
        }
        i = i + 1;
    }
    assert(outcomes@.take(i as int) =~= outcomes@);
    c
}

} // verus!
