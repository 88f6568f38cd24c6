use plansight::analysis::engine::{
    execution_counts, launch_decision, position_of, removal, run_outcome, RunFailure, RunOutcome, SkipReason,
};

#[test]
fn launch_decision_asks_the_filter_first() {
    assert_eq!(launch_decision(false, false), Some(SkipReason::FilteredOut));
    assert_eq!(launch_decision(false, true), Some(SkipReason::FilteredOut));
    assert_eq!(launch_decision(true, false), Some(SkipReason::UnsupportedPlan));
    assert_eq!(launch_decision(true, true), None);
}

#[test]
fn run_outcome_checks_the_clock_before_the_panic() {
    let limit = 30_000_000_000u128; // 30 s
    assert_eq!(run_outcome(5, limit, true), RunOutcome::Succeeded);
    assert_eq!(run_outcome(limit, limit, true), RunOutcome::Succeeded);
    assert_eq!(run_outcome(limit + 1, limit, true), RunOutcome::Failed(RunFailure::TimedOut));
    assert_eq!(run_outcome(limit + 1, limit, false), RunOutcome::Failed(RunFailure::TimedOut));
    assert_eq!(run_outcome(5, limit, false), RunOutcome::Failed(RunFailure::Panicked));
}

#[test]
fn execution_counts_tally_every_turn() {
    let outcomes = vec![
        RunOutcome::Succeeded,
        RunOutcome::Skipped(SkipReason::FilteredOut),
        RunOutcome::Failed(RunFailure::Panicked),
        RunOutcome::Succeeded,
        RunOutcome::Failed(RunFailure::TimedOut),
        RunOutcome::Skipped(SkipReason::UnsupportedPlan),
        RunOutcome::Succeeded,
    ];
    let c = execution_counts(&outcomes);
    assert_eq!((c.total_analyzers, c.successful_count, c.failed_count, c.skipped_count), (7, 3, 2, 2));
    let none = execution_counts(&[]);
    assert_eq!((none.total_analyzers, none.successful_count, none.failed_count, none.skipped_count), (0, 0, 0, 0));
}

#[test]
fn outcome_predicates() {
    assert!(RunOutcome::Succeeded.is_success());
    assert!(!RunOutcome::Succeeded.is_error());
    assert!(RunOutcome::Failed(RunFailure::TimedOut).is_error());
    assert!(RunOutcome::Skipped(SkipReason::FilteredOut).is_skipped());
    assert!(!RunOutcome::Skipped(SkipReason::FilteredOut).is_success());
}

#[test]
fn removal_and_lookup_by_name() {
    let names: Vec<String> = vec!["ScanAnalyzer".to_string(), "JoinAnalyzer".to_string(), "ScanAnalyzer".to_string()];
    let (keep, removed) = removal(&names, "ScanAnalyzer");
    assert_eq!(keep, vec![false, true, false]);
    assert!(removed);
    let (keep, removed) = removal(&names, "Missing");
    assert_eq!(keep, vec![true, true, true]);
    assert!(!removed);
    assert_eq!(position_of(&names, "JoinAnalyzer"), Some(1));
    assert_eq!(position_of(&names, "ScanAnalyzer"), Some(0));
    assert_eq!(position_of(&names, "Missing"), None);
}
