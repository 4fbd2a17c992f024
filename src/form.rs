//! The state behind the notifier's window: the configured notifications, the form
//! that adds or edits one, and the alarms. Each method is one thing the user does; the
//! window draws from this state and writes the list to the configuration file after a
//! save or a removal.
use vstd::prelude::*;

use crate::alarm::{is_alarm_for, make_alarm, Alarm, AlarmInput, TimeType};
use crate::notifications::{can_save, NotificationDetails, NotificationView, Notifications};
use crate::schedule::{is_valid_cron, valid_instant, valid_offset};

verus! {

/// The window's state.
pub struct Notifier {
    pub notifications: Notifications,
    pub notification_detail: NotificationDetails,
    pub selected_index: Option<usize>,
    pub add_notification: bool,
    pub add_alarm: bool,
    pub alarm: AlarmInput,
    pub alarms: Vec<Alarm>,
    pub time_type: TimeType,
}

/// The empty form.
pub open spec fn empty_detail() -> NotificationView {
    NotificationView {
        label: Seq::empty(),
        cron: Seq::empty(),
        level: Seq::empty(),
        job_id: None,
    }
}

impl Notifier {
    /// The state's invariant: a notification being edited is one of the list.
    pub open spec fn wf(&self) -> bool {
        self.selected_index matches Some(i) ==> i < self.notifications@.len()
    }

    /// The form as it stands when nothing is being added or edited.
    pub open spec fn form_closed(&self) -> bool {
        &&& self.notification_detail@ == empty_detail()
        &&& !self.add_notification
        &&& self.selected_index is None
    }

    /// A window with the given notifications, no alarms, and every form closed.
    pub fn new_with_data(notify: Notifications) -> (r: Notifier)
        ensures
            r.wf(),
            r.form_closed(),
            r.notifications@ == notify@,
            !r.add_alarm,
            r.alarms@.len() == 0,
            r.time_type == TimeType::Time,
    {
        Notifier {
            notifications: notify,
            notification_detail: NotificationDetails::empty(),
            selected_index: None,
            add_notification: false,
            add_alarm: false,
            alarm: AlarmInput::empty(),
            alarms: Vec::new(),
            time_type: TimeType::Time,
        }
    }

    /// A window with no notifications and no alarms.
    pub fn new() -> (r: Notifier)
        ensures
            r.wf(),
            r.form_closed(),
            r.notifications@.len() == 0,
            !r.add_alarm,
            r.alarms@.len() == 0,
            r.time_type == TimeType::Time,
    {
        let r = Notifier::new_with_data(Notifications { notifications: Vec::new() });
        r
    }

    /// Whether the window shows nothing but the form that adds a notification: there
    /// is no notification and no alarm to list.
    pub fn only_form(&self) -> (r: bool)
        ensures
            r == (self.notifications@.len() == 0 && self.alarms@.len() == 0),
    {
        self.notifications.notifications.len() == 0 && self.alarms.len() == 0
    }

    /// Opens the form for a new notification.
    pub fn open_add(&mut self)
        ensures
            final(self).add_notification,
            final(self).notifications@ == old(self).notifications@,
            final(self).selected_index == old(self).selected_index,
            final(self).notification_detail@ == old(self).notification_detail@,
            final(self).alarms@ == old(self).alarms@,
            final(self).add_alarm == old(self).add_alarm,
            final(self).alarm == old(self).alarm,
            final(self).time_type == old(self).time_type,
    {
        self.add_notification = true;
    }

    /// Opens the form on the notification at `index`, filled with what it holds.
    pub fn open_edit(&mut self, index: usize)
        requires
            index < old(self).notifications@.len(),
        ensures
            final(self).wf(),
            final(self).add_notification,
            final(self).selected_index == Some(index),
            final(self).notification_detail@ == old(self).notifications@[index as int],
            final(self).notifications@ == old(self).notifications@,
            final(self).alarms@ == old(self).alarms@,
            final(self).add_alarm == old(self).add_alarm,
            final(self).alarm == old(self).alarm,
            final(self).time_type == old(self).time_type,
    {
        self.add_notification = true;
        self.notification_detail = self.notifications.notifications[index].duplicate();
        self.selected_index = Some(index);
    }

    /// Closes the notification form and empties it: after a cancel, or after a save
    /// that reached the file.
    pub fn close_form(&mut self)
        ensures
            final(self).wf(),
            final(self).form_closed(),
            final(self).notifications@ == old(self).notifications@,
            final(self).alarms@ == old(self).alarms@,
            final(self).add_alarm == old(self).add_alarm,
            final(self).alarm == old(self).alarm,
            final(self).time_type == old(self).time_type,
    {
        self.notification_detail = NotificationDetails::empty();
        self.add_notification = false;
        self.selected_index = None;
    }

    /// Whether the form may be saved: it has a label, and cron text that this system
    /// takes (seven fields, each in cron's grammar).
    pub fn form_is_valid(&self) -> (r: bool)
        ensures
            r == (self.notification_detail@.label.len() > 0 && is_valid_cron(
                self.notification_detail@.cron,
            )),
    {
        can_save(&self.notification_detail)
    }

    /// Saves the form into the list, where it may be saved: into the notification being
    /// edited, or as a new one at the end. Returns whether the list changed; the form
    /// stays open until `close_form`.
    pub fn save_form(&mut self) -> (r: bool)
        requires
            old(self).wf(),
        ensures
            final(self).wf(),
            r == (old(self).notification_detail@.label.len() > 0 && is_valid_cron(
                old(self).notification_detail@.cron,
            )),
            !r ==> final(self).notifications@ == old(self).notifications@,
            r ==> match old(self).selected_index {
                Some(i) => final(self).notifications@ == old(self).notifications@.update(
                    i as int,
                    NotificationView {
                        label: old(self).notification_detail@.label,
                        cron: old(self).notification_detail@.cron,
                        ..old(self).notifications@[i as int]
                    },
                ),
                None => final(self).notifications@ == old(self).notifications@.push(
                    NotificationView {
                        level: crate::notifications::DEFAULT_LEVEL@,
                        ..old(self).notification_detail@
                    },
                ),
            },
            final(self).selected_index == old(self).selected_index,
            final(self).notification_detail@ == old(self).notification_detail@,
            final(self).add_notification == old(self).add_notification,
            final(self).add_alarm == old(self).add_alarm,
            final(self).alarm == old(self).alarm,
            final(self).alarms@ == old(self).alarms@,
            final(self).time_type == old(self).time_type,
    {
        if !can_save(&self.notification_detail) {
            return false;
        }
        self.notifications.save_detail(&self.notification_detail, self.selected_index);
        true
    }

    /// Removes the notification at `index`. An edit in progress is given up, since the
    /// notification that it names may have moved.
    pub fn remove_notification(&mut self, index: usize)
        requires
            old(self).wf(),
            index < old(self).notifications@.len(),
        ensures
            final(self).wf(),
            final(self).notifications@ == old(self).notifications@.remove(index as int),
            old(self).selected_index is Some ==> final(self).form_closed(),
            old(self).selected_index is None ==> {
                &&& final(self).selected_index is None
                &&& final(self).add_notification == old(self).add_notification
                &&& final(self).notification_detail@ == old(self).notification_detail@
            },
            final(self).alarms@ == old(self).alarms@,
            final(self).add_alarm == old(self).add_alarm,
            final(self).alarm == old(self).alarm,
            final(self).time_type == old(self).time_type,
    {
        self.notifications.remove_at(index);
        if self.selected_index.is_some() {
            self.close_form();
        }
    }

    /// Opens the alarm form.
    pub fn open_alarm(&mut self)
        ensures
            final(self).add_alarm,
            final(self).alarm == old(self).alarm,
            final(self).alarms@ == old(self).alarms@,
            final(self).notifications@ == old(self).notifications@,
            final(self).selected_index == old(self).selected_index,
            final(self).add_notification == old(self).add_notification,
            final(self).notification_detail@ == old(self).notification_detail@,
            final(self).time_type == old(self).time_type,
    {
        self.add_alarm = true;
    }

    /// Adds the alarm that the alarm form describes, set at `now`, then empties and
    /// closes the form.
    pub fn save_alarm(&mut self, now: i64, utc_offset: i32)
        requires
            old(self).wf(),
            0 <= old(self).alarm.hour <= 23,
            0 <= old(self).alarm.min <= 59,
            valid_instant(now),
            valid_offset(utc_offset),
        ensures
            final(self).wf(),
            final(self).alarms@.len() == old(self).alarms@.len() + 1,
            final(self).alarms@.drop_last() == old(self).alarms@,
            is_alarm_for(final(self).alarms@.last(), old(self).alarm, old(self).time_type, now, utc_offset),
            final(self).alarm.hour == 0,
            final(self).alarm.min == 0,
            final(self).alarm.message@.len() == 0,
            !final(self).add_alarm,
            final(self).notifications@ == old(self).notifications@,
            final(self).selected_index == old(self).selected_index,
            final(self).add_notification == old(self).add_notification,
            final(self).notification_detail@ == old(self).notification_detail@,
            final(self).time_type == old(self).time_type,
    {
        let a = make_alarm(&self.alarm, self.time_type, now, utc_offset);
        self.alarms.push(a);
        self.alarm = AlarmInput::empty();
        self.add_alarm = false;
    }

    /// Empties and closes the alarm form.
    pub fn cancel_alarm(&mut self)
        ensures
            final(self).alarm.hour == 0,
            final(self).alarm.min == 0,
            final(self).alarm.message@.len() == 0,
            !final(self).add_alarm,
            final(self).alarms@ == old(self).alarms@,
            final(self).notifications@ == old(self).notifications@,
            final(self).selected_index == old(self).selected_index,
            final(self).add_notification == old(self).add_notification,
            final(self).notification_detail@ == old(self).notification_detail@,
            final(self).time_type == old(self).time_type,
    {
        self.alarm = AlarmInput::empty();
        self.add_alarm = false;
    }
}

} // verus!
