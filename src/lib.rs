//! A cron-driven notification scheduler.
//!
//! - `schedule`: cron text is checked (seven fields, cron's grammar) and parsed, and a
//!   schedule is queried for the instants that it matches.
//! - `scheduler`: a registry of jobs, ticked against the wall clock so that each job
//!   fires once in every tick in which it is due.
//! - `notifications`: the configured notifications, and their registration as jobs.
//! - `alarm` and `form`: one-off alarms and timers, and the state behind the window
//!   that edits notifications and alarms.
use vstd::prelude::*;

pub mod schedule;
pub mod scheduler;
pub mod notifications;
pub mod alarm;
pub mod form;

pub use schedule::{check_cron, parse, upcoming, CronError, CronSchedule};
pub use scheduler::{Job, JobId, JobScheduler};
pub use notifications::{register_pending, NotificationDetails, Notifications, YamlErrors};
pub use alarm::{Alarm, AlarmInput, TimeType};
pub use form::Notifier;

verus! {

/// What can go wrong around the notifier's configuration.
#[derive(Debug)]
pub enum Errors {
    CouldNotFindFile,
    CouldNotFindHomeDir,
    CouldNotCreateConfigDir,
    NotificationError(String),
}

} // verus!
