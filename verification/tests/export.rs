use plansight::export::{
    check_format_version, default_format_version, export_totals, exported_plan_format,
    looks_parameterised, redact_export, ExportMetadata, ExportedPlanFormat, GroupSpan, ImportError,
    QueryTexts, EXPORT_FORMAT_VERSION,
};
use plansight::models::PlanSourceFormat;
use std::collections::HashMap;

fn texts(original: &str, normalized: &str, plan: &str) -> QueryTexts {
    QueryTexts {
        query_hash: "abc123".to_string(),
        original_query: original.to_string(),
        normalized_query: normalized.to_string(),
        formatted_query: original.to_string(),
        plan: plan.to_string(),
        plan_format: Some(ExportedPlanFormat::Text),
    }
}

fn metadata() -> ExportMetadata {
    ExportMetadata {
        source_files: vec!["pg.log".to_string()],
        hostname: Some("db-prod-1".to_string()),
        user: Some("alice".to_string()),
        tags: HashMap::new(),
    }
}

fn every_text(q: &QueryTexts, m: &ExportMetadata) -> Vec<String> {
    let mut all = vec![
        q.query_hash.clone(),
        q.original_query.clone(),
        q.normalized_query.clone(),
        q.formatted_query.clone(),
        q.plan.clone(),
    ];
    all.extend(m.source_files.iter().cloned());
    all.extend(m.hostname.iter().cloned());
    all.extend(m.user.iter().cloned());
    all
}

#[test]
fn looks_parameterised_detects_placeholders() {
    assert!(looks_parameterised("WHERE a = $1"));
    assert!(looks_parameterised("IN ($1, $2, $3)"));
    assert!(!looks_parameterised("WHERE a = 'x'"));
    assert!(!looks_parameterised("SELECT now()"));
    assert!(!looks_parameterised("cost $ estimate"), "bare $ is not a placeholder");
}

#[test]
fn placeholder_at_the_very_end_and_unicode_text() {
    assert!(looks_parameterised("$9"));
    assert!(!looks_parameterised("$"));
    assert!(!looks_parameterised(""));
    assert!(looks_parameterised("naïve = $2"));
    assert!(!looks_parameterised("price $x"));
}

#[test]
fn redact_removes_literals_from_every_text_field() {
    let mut queries = vec![texts(
        "SELECT * FROM users WHERE email = 'alice@example.com'",
        "SELECT * FROM users WHERE email = $1",
        "Seq Scan on users  (cost=0.00..1.00 rows=1 width=1)\n  Filter: (email = 'alice@example.com'::text)",
    )];
    let mut meta = metadata();

    redact_export(&mut queries, &mut meta);

    for text in every_text(&queries[0], &meta) {
        assert!(!text.contains("alice@example.com"), "redacted export still contains a literal: {text}");
    }

    let q = &queries[0];
    assert!(q.original_query.is_empty());
    assert!(q.formatted_query.is_empty());
    assert!(q.plan.is_empty());
    assert_eq!(q.plan_format, None);
    // The parameterised form is literal-free, so it is worth keeping.
    assert_eq!(q.normalized_query, "SELECT * FROM users WHERE email = $1");
    // The fingerprint must survive.
    assert_eq!(q.query_hash, "abc123");
}

#[test]
fn redact_drops_normalized_query_when_normalization_did_not_run() {
    let raw = "SELECT a::text COLLATE \"C\" FROM t WHERE email = 'bob@example.com'";
    let mut queries = vec![texts(raw, raw, "Seq Scan on t")];
    let mut meta = metadata();

    redact_export(&mut queries, &mut meta);

    assert!(
        queries[0].normalized_query.is_empty(),
        "un-normalised SQL must be dropped, not exported as if parameterised"
    );
    for text in every_text(&queries[0], &meta) {
        assert!(!text.contains("bob@example.com"));
    }
}

#[test]
fn redact_clears_environment_metadata() {
    let mut queries = vec![texts("SELECT 1", "SELECT 1", "Result")];
    let mut meta = metadata();
    redact_export(&mut queries, &mut meta);
    assert!(meta.hostname.is_none());
    assert!(meta.user.is_none());
    // Source file names are retained.
    assert_eq!(meta.source_files, vec!["pg.log".to_string()]);
}

#[test]
fn redaction_is_idempotent() {
    let mut q = texts("SELECT 1 WHERE a = 'x'", "SELECT $1 WHERE a = $2", "Result");
    q.redact();
    let once = q.clone();
    q.redact();
    assert_eq!(q.normalized_query, once.normalized_query);
    assert_eq!(q.query_hash, once.query_hash);
    assert!(q.original_query.is_empty() && q.plan.is_empty() && q.formatted_query.is_empty());
}

#[test]
fn test_newer_format_version_is_rejected_with_clear_error() {
    let err = check_format_version(99).unwrap_err();
    assert!(err.summary().contains("newer"), "unexpected error: {:?}", err);
    assert_eq!(err, ImportError::NewerFormat { found: 99, supported: EXPORT_FORMAT_VERSION });
}

#[test]
fn current_and_older_versions_are_accepted() {
    assert_eq!(default_format_version(), 1);
    assert_eq!(check_format_version(default_format_version()), Ok(1));
    assert_eq!(check_format_version(EXPORT_FORMAT_VERSION), Ok(2));
    assert!(check_format_version(3).is_err());
}

#[test]
fn plan_format_tags() {
    assert_eq!(exported_plan_format(PlanSourceFormat::Json), ExportedPlanFormat::Json);
    assert_eq!(exported_plan_format(PlanSourceFormat::Text), ExportedPlanFormat::Text);
}

#[test]
fn totals_over_groups() {
    let groups = vec![
        GroupSpan { count: 3, min_timestamp: 50, max_timestamp: 90 },
        GroupSpan { count: 7, min_timestamp: 10, max_timestamp: 60 },
        GroupSpan { count: 1, min_timestamp: 70, max_timestamp: 120 },
    ];
    let t = export_totals(&groups);
    assert_eq!(t.query_count, 3);
    assert_eq!(t.execution_count, 11);
    assert_eq!(t.start, Some(10));
    assert_eq!(t.end, Some(120));
    let empty = export_totals(&Vec::new());
    assert_eq!(empty.execution_count, 0);
    assert_eq!(empty.start, None);
    assert_eq!(empty.end, None);
}

#[test]
fn group_span_tracks_count_and_extremes() {
    let mut g = GroupSpan::starting_at(500);
    assert_eq!((g.count, g.min_timestamp, g.max_timestamp), (1, 500, 500));
    g.record(300);
    g.record(900);
    g.record(600);
    assert_eq!((g.count, g.min_timestamp, g.max_timestamp), (4, 300, 900));
}

#[test]
fn group_span_absorb_equals_one_pass() {
    let all = [40i64, -10, 70, 5, 90, 20];
    let mut whole = GroupSpan::starting_at(all[0]);
    for &t in &all[1..] {
        whole.record(t);
    }
    let mut first = GroupSpan::starting_at(all[0]);
    for &t in &all[1..3] {
        first.record(t);
    }
    let mut second = GroupSpan::starting_at(all[3]);
    for &t in &all[4..] {
        second.record(t);
    }
    first.absorb(&second);
    assert_eq!(first, whole);
    assert_eq!((whole.count, whole.min_timestamp, whole.max_timestamp), (6, -10, 90));
}
