use notifier::alarm::{make_alarm, AlarmInput, TimeType};

const NOW: i64 = 1705319999; // 2024-01-15T11:59:59Z

fn input(hour: i32, min: i32, message: &str) -> AlarmInput {
    AlarmInput { hour, min, message: message.to_string() }
}

#[test]
fn timer_runs_for_hours_and_minutes() {
    let a = make_alarm(&input(1, 30, "tea"), TimeType::Duration, NOW, 0);
    assert_eq!(a.start_time, NOW);
    assert_eq!(a.duration, 5400);
    assert_eq!(a.end_time, NOW + 5400);
    assert_eq!(a.message, Some("tea".to_string()));
}

#[test]
fn alarm_goes_off_at_a_time_of_the_local_day() {
    // 12:59:59 on a clock one hour ahead of UTC; that day began at 23:00 UTC the day before
    let a = make_alarm(&input(7, 30, ""), TimeType::Time, NOW, 3600);
    assert_eq!(a.end_time, 1705273200 + 7 * 3600 + 30 * 60);
    assert_eq!(a.duration, a.end_time - NOW);
    assert!(a.duration < 0);
}

#[test]
fn alarm_later_today_utc() {
    let a = make_alarm(&input(18, 0, "home"), TimeType::Time, NOW, 0);
    assert_eq!(a.end_time, 1705341600); // 2024-01-15T18:00:00Z
    assert_eq!(a.duration, 1705341600 - NOW);
}

#[test]
fn alarm_before_the_epoch() {
    let a = make_alarm(&input(23, 0, "x"), TimeType::Time, -1, 0);
    assert_eq!(a.end_time, -3600);
}

#[test]
fn blank_message_is_no_message() {
    assert_eq!(make_alarm(&input(0, 5, "   "), TimeType::Duration, NOW, 0).message, None);
    assert_eq!(make_alarm(&input(0, 5, ""), TimeType::Duration, NOW, 0).message, None);
    assert_eq!(
        make_alarm(&input(0, 5, " hi "), TimeType::Duration, NOW, 0).message,
        Some(" hi ".to_string())
    );
}
