use notifier::notifications::{can_save, register_pending, NotificationDetails, Notifications};
use notifier::scheduler::{JobId, JobScheduler};

const CURSOR: i64 = 1705319999; // 2024-01-15T11:59:59Z

fn detail(label: &str, cron: &str) -> NotificationDetails {
    NotificationDetails {
        label: label.to_string(),
        cron: cron.to_string(),
        level: "Info".to_string(),
        job_id: None,
    }
}

#[test]
fn pending_notifications_are_scheduled() {
    let mut s = JobScheduler::new(CURSOR, 0);
    let mut n = Notifications {
        notifications: vec![
            detail("lunch", "0 0 12 * * * *"),
            detail("broken", "0 0 12 * *"),
            NotificationDetails { job_id: Some(JobId(7)), ..detail("kept", "* * * * * * *") },
        ],
    };
    register_pending(&mut s, &mut n);
    assert_eq!(s.len(), 1);
    let id = n.notifications[0].job_id.unwrap();
    assert!(s.contains(id));
    assert_eq!(s.jobs()[0].label(), "lunch");
    assert_eq!(n.notifications[1].job_id, None);
    assert_eq!(n.notifications[2].job_id, Some(JobId(7)));
    assert_eq!(n.notifications[0].label, "lunch");
    assert_eq!(s.tick(CURSOR + 2), vec![id]);
}

#[test]
fn registering_again_adds_nothing() {
    let mut s = JobScheduler::new(CURSOR, 0);
    let mut n = Notifications { notifications: vec![detail("a", "* * * * * * *"), detail("b", "0 0 12 * * * *")] };
    register_pending(&mut s, &mut n);
    assert_eq!(s.len(), 2);
    let before = n.clone();
    register_pending(&mut s, &mut n);
    assert_eq!(s.len(), 2);
    assert_eq!(n, before);
}

#[test]
fn reload_after_remove_all_schedules_afresh() {
    let mut s = JobScheduler::new(CURSOR, 0);
    let mut n = Notifications { notifications: vec![detail("a", "* * * * * * *")] };
    register_pending(&mut s, &mut n);
    s.remove_all();
    let mut fresh = Notifications { notifications: vec![detail("b", "0 0 12 * * * *")] };
    register_pending(&mut s, &mut fresh);
    assert_eq!(s.len(), 1);
    assert_eq!(s.jobs()[0].label(), "b");
}

#[test]
fn form_needs_a_label_and_seven_field_cron() {
    assert!(can_save(&detail("lunch", "0 0 12 * * * *")));
    assert!(!can_save(&detail("lunch", "0 0 12 * * *")));
    assert!(!can_save(&detail("lunch", "0 0 12 * *")));
    assert!(!can_save(&detail("", "0 0 12 * * * *")));
    assert!(!can_save(&detail("lunch", "not cron")));
}

#[test]
fn saving_without_selection_appends_with_default_level() {
    let mut n = Notifications::default();
    let d = NotificationDetails { level: String::new(), ..detail("lunch", "0 0 12 * * * *") };
    n.save_detail(&d, None);
    assert_eq!(n.notifications.len(), 1);
    assert_eq!(n.notifications[0].level, "Info");
    assert_eq!(n.notifications[0].label, "lunch");
    assert_eq!(n.notifications[0].cron, "0 0 12 * * * *");
}

#[test]
fn saving_with_selection_replaces_label_and_cron() {
    let mut n = Notifications {
        notifications: vec![
            NotificationDetails { level: "Warn".to_string(), job_id: Some(JobId(3)), ..detail("a", "* * * * * * *") },
            detail("b", "* * * * * * *"),
        ],
    };
    n.save_detail(&detail("tea", "0 0 16 * * * *"), Some(0));
    assert_eq!(n.notifications.len(), 2);
    assert_eq!(n.notifications[0].label, "tea");
    assert_eq!(n.notifications[0].cron, "0 0 16 * * * *");
    assert_eq!(n.notifications[0].level, "Warn");
    assert_eq!(n.notifications[0].job_id, Some(JobId(3)));
    assert_eq!(n.notifications[1].label, "b");
}

#[test]
fn removing_a_notification_keeps_the_others_in_order() {
    let mut n = Notifications {
        notifications: vec![detail("a", "* * * * * * *"), detail("b", "* * * * * * *"), detail("c", "* * * * * * *")],
    };
    n.remove_at(1);
    assert_eq!(n.notifications.len(), 2);
    assert_eq!(n.notifications[0].label, "a");
    assert_eq!(n.notifications[1].label, "c");
}
