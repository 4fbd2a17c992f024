use notifier::alarm::{AlarmInput, TimeType};
use notifier::form::Notifier;
use notifier::notifications::{NotificationDetails, Notifications};

fn detail(label: &str, cron: &str) -> NotificationDetails {
    NotificationDetails { label: label.to_string(), cron: cron.to_string(), level: "Info".to_string(), job_id: None }
}

fn window() -> Notifier {
    Notifier::new_with_data(Notifications {
        notifications: vec![detail("a", "0 0 9 * * * *"), detail("b", "0 0 17 * * * *")],
    })
}

#[test]
fn empty_window_shows_only_the_form() {
    let w = Notifier::new();
    assert!(w.only_form());
    assert!(!w.add_notification);
    assert_eq!(w.selected_index, None);
    assert_eq!(w.time_type, TimeType::Time);
    assert!(!window().only_form());
}

#[test]
fn editing_fills_the_form_and_saving_replaces() {
    let mut w = window();
    w.open_edit(1);
    assert!(w.add_notification);
    assert_eq!(w.selected_index, Some(1));
    assert_eq!(w.notification_detail, detail("b", "0 0 17 * * * *"));
    w.notification_detail.label = "home".to_string();
    assert!(w.save_form());
    w.close_form();
    assert_eq!(w.notifications.notifications[1].label, "home");
    assert_eq!(w.notifications.notifications.len(), 2);
    assert!(!w.add_notification);
    assert_eq!(w.selected_index, None);
    assert_eq!(w.notification_detail, NotificationDetails::default());
}

#[test]
fn saving_a_new_notification_appends_it() {
    let mut w = Notifier::new();
    w.open_add();
    w.notification_detail = NotificationDetails { level: String::new(), ..detail("tea", "0 0 16 * * * *") };
    assert!(w.form_is_valid());
    assert!(w.save_form());
    assert_eq!(w.notifications.notifications.len(), 1);
    assert_eq!(w.notifications.notifications[0].level, "Info");
}

#[test]
fn an_invalid_form_is_not_saved() {
    let mut w = window();
    w.open_add();
    w.notification_detail = detail("", "0 0 16 * * * *");
    assert!(!w.form_is_valid());
    assert!(!w.save_form());
    w.notification_detail = detail("tea", "sixteen o'clock");
    assert!(!w.save_form());
    assert_eq!(w.notifications.notifications.len(), 2);
}

#[test]
fn cancel_empties_the_form() {
    let mut w = window();
    w.open_edit(0);
    w.close_form();
    assert!(!w.add_notification);
    assert_eq!(w.selected_index, None);
    assert_eq!(w.notification_detail, NotificationDetails::default());
    assert_eq!(w.notifications.notifications[0], detail("a", "0 0 9 * * * *"));
}

#[test]
fn removing_gives_up_an_edit_in_progress() {
    let mut w = window();
    w.open_edit(1);
    w.remove_notification(0);
    assert_eq!(w.notifications.notifications.len(), 1);
    assert_eq!(w.notifications.notifications[0].label, "b");
    assert_eq!(w.selected_index, None);
    assert!(!w.add_notification);
}

#[test]
fn removing_without_an_edit_keeps_the_form() {
    let mut w = window();
    w.open_add();
    w.notification_detail.label = "draft".to_string();
    w.remove_notification(1);
    assert!(w.add_notification);
    assert_eq!(w.notification_detail.label, "draft");
    assert_eq!(w.notifications.notifications.len(), 1);
}

#[test]
fn saving_an_alarm_adds_it_and_resets_the_form() {
    let mut w = Notifier::new();
    w.open_alarm();
    assert!(w.add_alarm);
    w.alarm = AlarmInput { hour: 0, min: 25, message: "pasta".to_string() };
    w.time_type = TimeType::Duration;
    w.save_alarm(1705319999, 0);
    assert_eq!(w.alarms.len(), 1);
    assert_eq!(w.alarms[0].end_time, 1705319999 + 1500);
    assert_eq!(w.alarms[0].message, Some("pasta".to_string()));
    assert!(!w.add_alarm);
    assert_eq!(w.alarm.min, 0);
    assert!(w.alarm.message.is_empty());
    assert!(!w.only_form());
}

#[test]
fn cancelling_an_alarm_adds_nothing() {
    let mut w = Notifier::new();
    w.open_alarm();
    w.alarm = AlarmInput { hour: 3, min: 0, message: String::new() };
    w.cancel_alarm();
    assert!(w.alarms.is_empty());
    assert!(!w.add_alarm);
    assert_eq!(w.alarm.hour, 0);
}

#[test]
fn six_field_cron_cannot_be_saved() {
    let mut w = Notifier::new();
    w.open_add();
    w.notification_detail = detail("Lunch", "0 0 12 * * *");
    assert!(!w.form_is_valid());
    assert!(!w.save_form());
    assert!(w.notifications.notifications.is_empty());
    assert!(w.add_notification);
    assert_eq!(w.notification_detail, detail("Lunch", "0 0 12 * * *"));
}

#[test]
fn cancelling_an_alarm_keeps_its_kind() {
    let mut w = Notifier::new();
    w.open_alarm();
    w.time_type = TimeType::Duration;
    w.cancel_alarm();
    assert_eq!(w.time_type, TimeType::Duration);
}
