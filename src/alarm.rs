//! Alarms and timers: a one-off reminder at a time of day, or after a span of hours
//! and minutes.
use vstd::prelude::*;
use vstd::arithmetic::div_mod::{lemma_div_multiples_vanish_fancy, lemma_fundamental_div_mod};

use crate::schedule::{valid_instant, valid_offset, EARLIEST_INSTANT};

verus! {

pub const SECONDS_PER_DAY: i64 = 86_400;

/// Whether the hour and minute of an alarm give a span from now or a time of day.
#[derive(PartialEq, Eq, Structural, Clone, Copy, Debug)]
pub enum TimeType {
    Duration,
    Time,
}

/// What the alarm form holds.
#[derive(Debug, Default)]
pub struct AlarmInput {
    pub hour: i32,
    pub min: i32,
    pub message: String,
}

/// An alarm: when it was set, how long it runs, when it goes off (instants in seconds
/// since the Unix epoch, the span in seconds), and the message that it shows, if any.
#[derive(Debug)]
pub struct Alarm {
    pub start_time: i64,
    pub duration: i64,
    pub end_time: i64,
    pub message: Option<String>,
}

/// `s` without its leading and trailing whitespace.
pub uninterp spec fn trimmed(s: Seq<char>) -> Seq<char>;

/// Relies on `str::trim`: the text without leading and trailing whitespace, which
/// depends on the text alone.
#[verifier::external_body]
fn trim(s: &str) -> (r: &str)
    ensures
        r@ == trimmed(s@),
        s@.len() == 0 ==> r@.len() == 0,
{
    s.trim()
}

/// The instant at which the wall-clock day holding `now` began, on a clock
/// `utc_offset` seconds ahead of UTC.
pub open spec fn day_start(now: i64, utc_offset: i32) -> int {
    (now + utc_offset) / 86_400 * 86_400 - utc_offset
}

/// The instant of `hour:minute` on the wall-clock day that holds `now`.
pub open spec fn today_at(now: i64, utc_offset: i32, hour: int, minute: int) -> int {
    day_start(now, utc_offset) + hour * 3600 + minute * 60
}

/// The start of the wall-clock day that holds `now`.
fn local_day_start(now: i64, utc_offset: i32) -> (r: i64)
    requires
        valid_instant(now),
        valid_offset(utc_offset),
    ensures
        r == day_start(now, utc_offset),
{
    // The earliest instant begins a day, so shifting by it and one day more keeps the
    // dividend positive without moving the day boundaries.
    let local = now + utc_offset as i64;
    let shifted = (local - EARLIEST_INSTANT + SECONDS_PER_DAY) as u64;
    let days = shifted / 86_400;
    proof {
        let x = local as int;
        let q = x / 86_400;
        let rem = x % 86_400;
        lemma_fundamental_div_mod(x, 86_400);
        assert(shifted as int == 86_400 * (q + 719_163) + rem);
        lemma_div_multiples_vanish_fancy(q + 719_163, rem, 86_400);
        assert(days as int == q + 719_163);
    }
    (days * 86_400) as i64 + EARLIEST_INSTANT - SECONDS_PER_DAY - utc_offset as i64
}

/// What `make_alarm` makes of `input` and `kind` at `now`.
pub open spec fn is_alarm_for(r: Alarm, input: AlarmInput, kind: TimeType, now: i64, utc_offset: i32) -> bool {
    &&& r.start_time == now
    &&& r.duration == r.end_time - r.start_time
    &&& kind == TimeType::Duration ==> r.end_time == now + input.hour * 3600 + input.min * 60
    &&& kind == TimeType::Time ==> r.end_time == today_at(
        now,
        utc_offset,
        input.hour as int,
        input.min as int,
    )
    &&& r.message is None <==> trimmed(input.message@).len() == 0
    &&& r.message matches Some(m) ==> m@ == input.message@
}

impl AlarmInput {
    /// An empty form: midnight, no message.
    pub fn empty() -> (r: AlarmInput)
        ensures
            r.hour == 0,
            r.min == 0,
            r.message@.len() == 0,
    {
        AlarmInput { hour: 0, min: 0, message: String::new() }
    }
}

/// Makes the alarm that the form describes, set at `now`: a timer goes off the given
/// hours and minutes later; an alarm goes off at that time of the current wall-clock
/// day, which may already have passed. A message of whitespace alone is no message.
pub fn make_alarm(input: &AlarmInput, kind: TimeType, now: i64, utc_offset: i32) -> (r: Alarm)
    requires
        0 <= input.hour <= 23,
        0 <= input.min <= 59,
        valid_instant(now),
        valid_offset(utc_offset),
    ensures
        is_alarm_for(r, *input, kind, now, utc_offset),
{
    let span = input.hour as i64 * 3600 + input.min as i64 * 60;
    let end_time = match kind {
        TimeType::Duration => now + span,
        TimeType::Time => local_day_start(now, utc_offset) + span,
    };
    let message = if trim(input.message.as_str()).is_empty() {
        None
    } else {
        Some(input.message.clone())
    };
    Alarm { start_time: now, duration: end_time - now, end_time, message }
}

} // verus!
