use plansight::models::{DateFilter, PlanLine, PlanSourceFormat};

const HOUR: i64 = 3_600_000_000;

#[test]
fn test_date_filter_matches() {
    let now: i64 = 1_700_000_000_000_000;
    let one_hour_ago = now - HOUR;
    let two_hours_ago = now - 2 * HOUR;
    let one_hour_later = now + HOUR;

    // No filter matches everything.
    let filter = DateFilter::new(None, None);
    assert!(filter.matches(two_hours_ago));
    assert!(filter.matches(now));
    assert!(filter.matches(one_hour_later));

    // Since only.
    let filter = DateFilter::new(Some(one_hour_ago), None);
    assert!(!filter.matches(two_hours_ago));
    assert!(filter.matches(now));
    assert!(filter.matches(one_hour_later));

    // Until only.
    let filter = DateFilter::new(None, Some(now));
    assert!(filter.matches(two_hours_ago));
    assert!(filter.matches(now));
    assert!(!filter.matches(one_hour_later));

    // Both.
    let filter = DateFilter::new(Some(one_hour_ago), Some(now));
    assert!(!filter.matches(two_hours_ago));
    assert!(filter.matches(now));
    assert!(!filter.matches(one_hour_later));
}

#[test]
fn plan_line_indentation_and_text() {
    let l = PlanLine::new("   ->  Seq Scan on t  ");
    assert_eq!(l.indentation, 3);
    assert_eq!(l.query, "->  Seq Scan on t");
    let top = PlanLine::new("Hash Join");
    assert_eq!(top.indentation, 0);
    assert_eq!(top.query, "Hash Join");
    let blank = PlanLine::new("    ");
    assert_eq!(blank.indentation, 4);
    assert_eq!(blank.query, "");
    assert_ne!(PlanSourceFormat::Text, PlanSourceFormat::Json);
}
