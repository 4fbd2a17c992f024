//! The notifications that the configuration lists, and the rules that turn them into
//! scheduled jobs and that edit the list.
use vstd::prelude::*;

use crate::schedule::{check_cron, is_valid_cron, parse};
use crate::scheduler::{JobId, JobScheduler, JobView};

verus! {

/// The level that a notification added through the form gets.
pub const DEFAULT_LEVEL: &'static str = "Info";

/// One configured notification: the label that it shows, its cron text, its level, and
/// the identifier of its job once it is scheduled.
#[derive(Debug, PartialEq, Eq, Default, Clone, Hash)]
pub struct NotificationDetails {
    pub label: String,
    pub cron: String,
    pub level: String,
    pub job_id: Option<JobId>,
}

/// The list of configured notifications.
#[derive(Debug, PartialEq, Eq, Default, Clone)]
pub struct Notifications {
    pub notifications: Vec<NotificationDetails>,
}

/// What can go wrong when the configuration file is read or written.
#[derive(Debug)]
pub enum YamlErrors {
    CouldNotReadConfigFile,
    CouldNotDeserializeFile,
    CouldNotSaveToFile,
}

impl NotificationDetails {
    /// A notification with nothing filled in.
    pub fn empty() -> (r: NotificationDetails)
        ensures
            r@ == (NotificationView {
                label: Seq::empty(),
                cron: Seq::empty(),
                level: Seq::empty(),
                job_id: None,
            }),
    {
        let r = NotificationDetails {
            label: String::new(),
            cron: String::new(),
            level: String::new(),
            job_id: None,
        };
        assert(r@ =~= (NotificationView {
            label: Seq::empty(),
            cron: Seq::empty(),
            level: Seq::empty(),
            job_id: None,
        }));
        r
    }

    /// A copy of the notification.
    pub fn duplicate(&self) -> (r: NotificationDetails)
        ensures
            r@ == self@,
    {
        NotificationDetails {
            label: self.label.clone(),
            cron: self.cron.clone(),
            level: self.level.clone(),
            job_id: self.job_id,
        }
    }
}

/// A notification as the contracts see it.
pub struct NotificationView {
    pub label: Seq<char>,
    pub cron: Seq<char>,
    pub level: Seq<char>,
    pub job_id: Option<JobId>,
}

impl View for NotificationDetails {
    type V = NotificationView;

    open spec fn view(&self) -> NotificationView {
        NotificationView {
            label: self.label@,
            cron: self.cron@,
            level: self.level@,
            job_id: self.job_id,
        }
    }
}

impl View for Notifications {
    type V = Seq<NotificationView>;

    open spec fn view(&self) -> Seq<NotificationView> {
        self.notifications@.map_values(|d: NotificationDetails| d@)
    }
}

/// A notification that is waiting for a job: it has none yet and its cron text is one
/// that this system takes.
pub open spec fn is_pending(n: NotificationView) -> bool {
    n.job_id is None && is_valid_cron(n.cron)
}

/// The jobs that registering the first `n` notifications of `before` adds, where
/// `after` holds the identifiers that they were given.
pub open spec fn newly_registered(
    before: Seq<NotificationView>,
    after: Seq<NotificationView>,
    n: nat,
) -> Seq<JobView>
    decreases n,
{
    if n == 0 {
        seq![]
    } else {
        let rest = newly_registered(before, after, (n - 1) as nat);
        let k = n - 1;
        if is_pending(before[k]) {
            rest.push(JobView { id: after[k].job_id->0, source: before[k].cron, label: before[k].label })
        } else {
            rest
        }
    }
}

/// `newly_registered` reads the identifiers of its first `n` notifications only.
proof fn lemma_newly_registered_prefix(
    before: Seq<NotificationView>,
    a: Seq<NotificationView>,
    b: Seq<NotificationView>,
    n: nat,
)
    requires
        forall|k: int| 0 <= k < n ==> a[k].job_id == b[k].job_id,
    ensures
        newly_registered(before, a, n) == newly_registered(before, b, n),
    decreases n,
{
    if n > 0 {
        lemma_newly_registered_prefix(before, a, b, (n - 1) as nat);
    }
}

/// Schedules every pending notification: each gets a job with its cron text and label,
/// registered in list order, and records the job's identifier. Notifications that have
/// a job already, or whose cron text is refused, are left as they are.
pub fn register_pending(scheduler: &mut JobScheduler, notifications: &mut Notifications)
    requires
        old(scheduler)@.wf(),
    ensures
        final(scheduler)@.wf(),
        final(notifications)@.len() == old(notifications)@.len(),
        forall|k: int|
            0 <= k < old(notifications)@.len() ==> {
                let b = #[trigger] old(notifications)@[k];
                let a = final(notifications)@[k];
                &&& a.label == b.label
                &&& a.cron == b.cron
                &&& a.level == b.level
                &&& !is_pending(b) ==> a.job_id == b.job_id
                &&& is_pending(b) ==> a.job_id is Some
            },
        final(scheduler)@.jobs == old(scheduler)@.jobs + newly_registered(
            old(notifications)@,
            final(notifications)@,
            old(notifications)@.len(),
        ),
        final(scheduler)@.cursor == old(scheduler)@.cursor,
        final(scheduler)@.utc_offset == old(scheduler)@.utc_offset,
{
    let ghost before = notifications@;
    let ghost jobs0 = scheduler@.jobs;
    let mut i: usize = 0;
    while i < notifications.notifications.len()
        invariant
            scheduler@.wf(),
            scheduler@.cursor == old(scheduler)@.cursor,
            scheduler@.utc_offset == old(scheduler)@.utc_offset,
            before == old(notifications)@,
            jobs0 == old(scheduler)@.jobs,
            notifications@.len() == before.len(),
            i <= before.len(),
            forall|k: int|
                i <= k < before.len() ==> #[trigger] notifications@[k] == before[k],
            forall|k: int|
                0 <= k < i ==> {
                    let b = #[trigger] before[k];
                    let a = notifications@[k];
                    &&& a.label == b.label
                    &&& a.cron == b.cron
                    &&& a.level == b.level
                    &&& !is_pending(b) ==> a.job_id == b.job_id
                    &&& is_pending(b) ==> a.job_id is Some
                },
            scheduler@.jobs == jobs0 + newly_registered(before, notifications@, i as nat),
        decreases before.len() - i,
    {
        let ghost cur = notifications@;
        assert(cur[i as int] == before[i as int]);
        assert(notifications.notifications[i as int]@ == cur[i as int]);
        if notifications.notifications[i].job_id.is_none() {
            match parse(notifications.notifications[i].cron.as_str()) {
                Ok(schedule) => {
                    let label = notifications.notifications[i].label.clone();
                    let ghost jobs1 = scheduler@.jobs;
                    let id = scheduler.add(schedule, label);
                    notifications.notifications[i].job_id = Some(id);
                    proof {
                        let now = notifications@;
                        assert forall|k: int| 0 <= k < i implies now[k].job_id == cur[k].job_id by {
                            assert(now[k] == notifications.notifications[k]@);
                        }
                        lemma_newly_registered_prefix(before, cur, now, i as nat);
                        assert(now[i as int].job_id == Some(id));
                        assert(scheduler@.jobs =~= jobs0 + newly_registered(
                            before,
                            now,
                            i as nat + 1,
                        ));
                        assert forall|k: int| i < k < before.len() implies #[trigger] now[k]
                            == before[k] by {
                            assert(now[k] == cur[k]);
                        }
                        assert forall|k: int| 0 <= k <= i implies {
                            let b = #[trigger] before[k];
                            let a = now[k];
                            &&& a.label == b.label
                            &&& a.cron == b.cron
                            &&& a.level == b.level
                            &&& !is_pending(b) ==> a.job_id == b.job_id
                            &&& is_pending(b) ==> a.job_id is Some
                        } by {
                            if k < i {
                                assert(now[k] == cur[k]);
                            }
                        }
                    }
                },
                Err(_) => {},
            }
        }
        i = i + 1;
    }
}

/// Whether the form may save a notification: it has a label, and its cron text is one
/// that this system takes (seven fields, each in cron's grammar), so that nothing is
/// saved that would never be scheduled.
pub fn can_save(detail: &NotificationDetails) -> (r: bool)
    ensures
        r == (detail.label@.len() > 0 && is_valid_cron(detail.cron@)),
{
    !detail.label.as_str().is_empty() && check_cron(detail.cron.as_str())
}

impl Notifications {
    /// Saves what the form holds: into the notification at `selected`, whose label and
    /// cron text it replaces, or, with nothing selected, as a new notification at the
    /// end of the list with the default level.
    pub fn save_detail(&mut self, detail: &NotificationDetails, selected: Option<usize>)
        requires
            selected matches Some(i) ==> i < old(self)@.len(),
        ensures
            match selected {
                Some(i) => final(self)@ == old(self)@.update(
                    i as int,
                    NotificationView {
                        label: detail.label@,
                        cron: detail.cron@,
                        ..old(self)@[i as int]
                    },
                ),
                None => final(self)@ == old(self)@.push(
                    NotificationView { level: DEFAULT_LEVEL@, ..detail@ },
                ),
            },
    {
        let ghost prev = self@;
        match selected {
            Some(i) => {
                self.notifications[i].label = detail.label.clone();
                self.notifications[i].cron = detail.cron.clone();
                assert(self@ =~= prev.update(
                    i as int,
                    NotificationView { label: detail.label@, cron: detail.cron@, ..prev[i as int] },
                ));
            },
            None => {
                let added = NotificationDetails {
                    label: detail.label.clone(),
                    cron: detail.cron.clone(),
                    level: DEFAULT_LEVEL.to_string(),
                    job_id: detail.job_id,
                };
                self.notifications.push(added);
                assert(self@ =~= prev.push(NotificationView { level: DEFAULT_LEVEL@, ..detail@ }));
            },
        }
    }

    /// Removes the notification at `index`.
    pub fn remove_at(&mut self, index: usize)
        requires
            index < old(self)@.len(),
        ensures
            final(self)@ == old(self)@.remove(index as int),
    {
        let ghost prev = self@;
        self.notifications.remove(index);
        assert(self@ =~= prev.remove(index as int));
    }
}

} // verus!
