use notifier::schedule::{check_cron, parse, upcoming, CronError};

const NOON_BEFORE: i64 = 1705319999; // 2024-01-15T11:59:59Z
const NOON_D: i64 = 1705320000; // 2024-01-15T12:00:00Z
const NOON_D1: i64 = 1705406400; // 2024-01-16T12:00:00Z
const NOON_D2: i64 = 1705492800; // 2024-01-17T12:00:00Z

#[test]
fn seven_field_text_is_accepted() {
    assert!(check_cron("0 0 12 * * * *"));
    let s = parse("0 0 12 * * * *").unwrap();
    assert_eq!(s.source(), "0 0 12 * * * *");
}

#[test]
fn five_field_text_is_refused_by_count() {
    assert!(!check_cron("0 0 12 * *"));
    assert!(matches!(parse("0 0 12 * *"), Err(CronError::MalformedFieldCount)));
}

#[test]
fn six_field_text_is_refused_by_count() {
    // cron's grammar takes six fields; this system asks for seven.
    assert!(!check_cron("0 0 12 * * *"));
    assert!(matches!(parse("0 0 12 * * *"), Err(CronError::MalformedFieldCount)));
}

#[test]
fn eight_fields_and_doubled_spaces_are_refused() {
    assert!(!check_cron("0 0 12 * * * * *"));
    assert!(!check_cron("0  0 12 * * * *"));
    assert!(!check_cron(""));
}

#[test]
fn grammar_errors_are_reported_with_seven_fields() {
    assert!(matches!(parse("0 0 25 * * * *"), Err(CronError::InvalidFieldGrammar(_))));
    assert!(matches!(parse("a b c d e f g"), Err(CronError::InvalidFieldGrammar(_))));
    assert!(!check_cron("0 0 25 * * * *"));
}

#[test]
fn cron_grammar_forms_are_accepted() {
    assert!(check_cron("*/5 0-30 1,2,3 * * Mon-Fri *"));
    assert!(check_cron("0 30 9 1 Jan * 2030"));
}

#[test]
fn upcoming_noon_daily() {
    let s = parse("0 0 12 * * * *").unwrap();
    assert_eq!(upcoming(&s, 0, NOON_BEFORE, 3), vec![NOON_D, NOON_D1, NOON_D2]);
}

#[test]
fn upcoming_is_strictly_after_its_start() {
    let s = parse("0 0 12 * * * *").unwrap();
    assert_eq!(upcoming(&s, 0, NOON_D, 1), vec![NOON_D1]);
}

#[test]
fn upcoming_reads_the_wall_clock_offset() {
    // noon on a clock one hour ahead of UTC is 11:00 UTC
    let s = parse("0 0 12 * * * *").unwrap();
    assert_eq!(upcoming(&s, 3600, NOON_BEFORE - 3600, 1), vec![NOON_D - 3600]);
}

#[test]
fn upcoming_is_strictly_increasing() {
    let s = parse("*/15 * * * * * *").unwrap();
    let r = upcoming(&s, 0, NOON_BEFORE, 8);
    assert_eq!(r.len(), 8);
    assert_eq!(r[0], NOON_D);
    for w in r.windows(2) {
        assert!(w[0] < w[1]);
        assert_eq!(w[1] - w[0], 15);
    }
}

#[test]
fn upcoming_of_zero_instants_is_empty() {
    let s = parse("* * * * * * *").unwrap();
    assert!(upcoming(&s, 0, NOON_D, 0).is_empty());
}

#[test]
fn upcoming_ends_when_the_schedule_runs_out() {
    // only 2024-01-01T12:00:00Z matches, which is before the start
    let s = parse("0 0 12 1 Jan * 2024").unwrap();
    assert!(upcoming(&s, 0, NOON_D, 3).is_empty());
    let t = upcoming(&s, 0, 1704067200, 3); // 2024-01-01T00:00:00Z
    assert_eq!(t, vec![1704110400]);
}

#[test]
fn upcoming_can_be_asked_again() {
    let s = parse("0 0 12 * * * *").unwrap();
    let a = upcoming(&s, 0, NOON_BEFORE, 2);
    let b = upcoming(&s, 0, NOON_BEFORE, 2);
    assert_eq!(a, b);
}

#[test]
fn restricted_day_fields_must_both_match() {
    // the 1st of a month that falls on a Monday: after 2024-01-02 that is 2024-04-01
    let s = parse("0 0 12 1 * Mon *").unwrap();
    assert_eq!(upcoming(&s, 0, 1704153600, 1), vec![1711972800]);
}

#[test]
fn a_search_from_before_the_schedules_years_starts_at_the_same_date() {
    // cron carries the start's month and day into the first year that the schedule
    // allows, so two starts before that year can see different first instants.
    let s = parse("0 0 12 * * * 2024").unwrap();
    assert_eq!(upcoming(&s, 0, 1673740800, 1), vec![1705320000]);
    assert_eq!(upcoming(&s, 0, 1685577600, 1), vec![1717243200]);
}
