//! Cron schedules: the field-count rule of this system, the grammar of the `cron`
//! crate, and the instants that a schedule matches.
use vstd::prelude::*;
use vstd::string::StrSliceExecFns;

verus! {

/// The field count that this system asks of every cron text:
/// `sec min hour day-of-month month day-of-week year`.
pub const FIELD_COUNT: usize = 7;

#[verifier::external_type_specification]
#[verifier::external_body]
pub struct ExSchedule(cron::Schedule);

#[verifier::external_type_specification]
#[verifier::external_body]
pub struct ExCronError(cron::error::Error);

/// Whether the `cron` crate's grammar accepts the text as a schedule.
pub uninterp spec fn cron_accepts(text: Seq<char>) -> bool;

/// The first instant strictly after `after` that the schedule parsed from `source`
/// matches, with the wall clock `utc_offset` seconds ahead of UTC; `None` when the
/// schedule has no later match. A date matches as the `cron` crate decides: where both
/// day-of-month and day-of-week are restricted, it must match both of them, not
/// either one.
pub uninterp spec fn next_occurrence(source: Seq<char>, utc_offset: i32, after: i64) -> Option<
    i64,
>;

/// The earliest instant that schedules are queried at: 0001-01-01T00:00:00Z, in
/// seconds since the Unix epoch.
pub const EARLIEST_INSTANT: i64 = -62_135_596_800;

/// The latest instant that schedules are queried at: 9999-12-31T23:59:59Z.
pub const LATEST_INSTANT: i64 = 253_402_300_799;

/// An instant, in whole seconds since the Unix epoch, in the range that schedules
/// are queried over.
pub open spec fn valid_instant(t: i64) -> bool {
    EARLIEST_INSTANT <= t <= LATEST_INSTANT
}

/// An offset of the wall clock from UTC, in seconds, of less than a day either way.
pub open spec fn valid_offset(utc_offset: i32) -> bool {
    -86_400 < utc_offset < 86_400
}

/// The first `n` instants that the schedule matches after `after`, each strictly after
/// the one before; fewer when the schedule runs out of matches or leaves the range of
/// valid instants.
pub open spec fn upcoming_from(source: Seq<char>, utc_offset: i32, after: i64, n: nat) -> Seq<i64>
    decreases n,
{
    if n == 0 {
        seq![]
    } else {
        match next_occurrence(source, utc_offset, after) {
            Some(t) => if valid_instant(t) && t > after {
                seq![t].add(upcoming_from(source, utc_offset, t, (n - 1) as nat))
            } else {
                seq![]
            },
            None => seq![],
        }
    }
}

/// A sequence of instants, each strictly after `after` and after every earlier one.
pub open spec fn strictly_increasing_after(s: Seq<i64>, after: i64) -> bool {
    &&& forall|i: int| 0 <= i < s.len() ==> s[i] > after
    &&& forall|i: int, j: int| 0 <= i < j < s.len() ==> s[i] < s[j]
}

/// The number of single spaces in `s`.
pub open spec fn spaces(s: Seq<char>) -> nat
    decreases s.len(),
{
    if s.len() == 0 {
        0
    } else {
        spaces(s.drop_last()) + if s.last() == ' ' { 1nat } else { 0nat }
    }
}

/// The number of fields of `s` when it is split at each single space.
pub open spec fn field_count(s: Seq<char>) -> nat {
    spaces(s) + 1
}

/// Text that this system takes as a schedule: seven fields, each in cron's grammar.
pub open spec fn is_valid_cron(s: Seq<char>) -> bool {
    field_count(s) == FIELD_COUNT && cron_accepts(s)
}

/// Why a cron text was refused.
#[derive(Debug)]
pub enum CronError {
    /// The text does not split into seven space-separated fields.
    MalformedFieldCount,
    /// A field is not in cron's grammar; carries the `cron` crate's diagnostic.
    InvalidFieldGrammar(cron::error::Error),
}

/// A parsed cron schedule, which remembers the text that it was parsed from.
pub struct CronSchedule {
    source: String,
    inner: cron::Schedule,
}

impl View for CronSchedule {
    type V = Seq<char>;

    closed spec fn view(&self) -> Seq<char> {
        self.source@
    }
}

impl CronSchedule {
    /// The text that the schedule was parsed from.
    pub fn source(&self) -> (r: &str)
        ensures
            r@ == self@,
    {
        self.source.as_str()
    }
}

/// Relies on cron's `Schedule::from_str`: it accepts or refuses the text by cron's
/// grammar, which depends on the text alone.
#[verifier::external_body]
pub(crate) fn parse_grammar(text: &str) -> (r: Result<cron::Schedule, cron::error::Error>)
    ensures
        r is Ok <==> cron_accepts(text@),
{
    <cron::Schedule as std::str::FromStr>::from_str(text)
}

/// Relies on cron's `Schedule::after` and chrono's conversions: the first instant that
/// the schedule matches strictly after `after` (cron starts its search one second later),
/// read on a wall clock at a fixed offset from UTC. A `CronSchedule` is made by `parse`
/// alone, from its source text, so the result depends on that text. The instants are
/// bounded so that cron's step of one second stays inside chrono's range.
#[verifier::external_body]
pub(crate) fn first_after(schedule: &CronSchedule, utc_offset: i32, after: i64) -> (r: Option<
    i64,
>)
    requires
        valid_offset(utc_offset),
        valid_instant(after),
    ensures
        r == next_occurrence(schedule@, utc_offset, after),
        r matches Some(t) ==> t > after,
{
    let zone = chrono::FixedOffset::east_opt(utc_offset)?;
    let start = chrono::DateTime::from_timestamp(after, 0)?.with_timezone(&zone);
    schedule.inner.after(&start).next().map(|t| t.timestamp())
}

/// Counts the single spaces in `text`.
fn count_spaces(text: &str) -> (r: usize)
    ensures
        r == spaces(text@),
{
    let n = text.unicode_len();
    let mut i: usize = 0;
    let mut count: usize = 0;
    while i < n
        invariant
            n == text@.len(),
            i <= n,
            count == spaces(text@.subrange(0, i as int)),
            count <= i,
        decreases n - i,
    {
        let c = text.get_char(i);
        proof {
            let s = text@.subrange(0, i as int + 1);
            assert(s.drop_last() =~= text@.subrange(0, i as int));
        }
        if c == ' ' {
            count = count + 1;
        }
        i = i + 1;
    }
    assert(text@.subrange(0, n as int) =~= text@);
    count
}

/// Parses cron text. The field count is checked first, so that text with the wrong
/// number of fields is refused with that diagnostic and never reaches the grammar.
pub fn parse(text: &str) -> (r: Result<CronSchedule, CronError>)
    ensures
        field_count(text@) != FIELD_COUNT ==> r matches Err(CronError::MalformedFieldCount),
        field_count(text@) == FIELD_COUNT && !cron_accepts(text@) ==> r matches Err(
            CronError::InvalidFieldGrammar(_),
        ),
        is_valid_cron(text@) ==> (r matches Ok(s) && s@ == text@),
{
    if count_spaces(text) != FIELD_COUNT - 1 {
        return Err(CronError::MalformedFieldCount);
    }
    match parse_grammar(text) {
        Ok(inner) => Ok(CronSchedule { source: text.to_string(), inner }),
        Err(e) => Err(CronError::InvalidFieldGrammar(e)),
    }
}

/// Whether `text` is a cron text that this system takes: seven fields, each in
/// cron's grammar.
pub fn check_cron(text: &str) -> (r: bool)
    ensures
        r == is_valid_cron(text@),
        field_count(text@) != FIELD_COUNT ==> !r,
{
    parse(text).is_ok()
}

/// Every instant of `upcoming_from` lies after the starting instant and after each
/// instant before it: the upcoming sequence of a schedule is strictly increasing.
pub proof fn lemma_upcoming_strictly_increasing(
    source: Seq<char>,
    utc_offset: i32,
    after: i64,
    n: nat,
)
    ensures
        strictly_increasing_after(upcoming_from(source, utc_offset, after, n), after),
    decreases n,
{
    if n > 0 {
        if let Some(t) = next_occurrence(source, utc_offset, after) {
            if valid_instant(t) && t > after {
                let rest = upcoming_from(source, utc_offset, t, (n - 1) as nat);
                lemma_upcoming_strictly_increasing(source, utc_offset, t, (n - 1) as nat);
                let s = seq![t].add(rest);
                assert(s == upcoming_from(source, utc_offset, after, n));
                assert forall|i: int, j: int| 0 <= i < j < s.len() implies s[i] < s[j] by {
                    if i > 0 {
                        assert(s[i] == rest[i - 1]);
                    }
                    assert(s[j] == rest[j - 1]);
                }
                assert forall|i: int| 0 <= i < s.len() implies s[i] > after by {
                    if i > 0 {
                        assert(s[i] == rest[i - 1]);
                    }
                }
            }
        }
    }
}

/// The first `count` instants that `schedule` matches after `after`, on a wall clock
/// `utc_offset` seconds ahead of UTC. The query depends on its arguments alone, so it
/// can be made again from any instant.
pub fn upcoming(schedule: &CronSchedule, utc_offset: i32, after: i64, count: usize) -> (r: Vec<
    i64,
>)
    requires
        valid_offset(utc_offset),
        valid_instant(after),
    ensures
        r@ == upcoming_from(schedule@, utc_offset, after, count as nat),
        strictly_increasing_after(r@, after),
{
    let mut r: Vec<i64> = Vec::new();
    let mut cursor: i64 = after;
    let mut i: usize = 0;
    proof {
        lemma_upcoming_strictly_increasing(schedule@, utc_offset, after, count as nat);
    }
    while i < count
        invariant
            i <= count,
            valid_offset(utc_offset),
            valid_instant(cursor),
            r@.add(upcoming_from(schedule@, utc_offset, cursor, (count - i) as nat))
                == upcoming_from(schedule@, utc_offset, after, count as nat),
            strictly_increasing_after(upcoming_from(schedule@, utc_offset, after, count as nat), after),
        decreases count - i,
    {
        match first_after(schedule, utc_offset, cursor) {
            Some(t) => {
                if EARLIEST_INSTANT <= t && t <= LATEST_INSTANT {
                    proof {
                        let rest = upcoming_from(schedule@, utc_offset, t, (count - i - 1) as nat);
                        assert(upcoming_from(schedule@, utc_offset, cursor, (count - i) as nat)
                            == seq![t].add(rest));
                        assert(r@.push(t).add(rest) =~= r@.add(seq![t].add(rest)));
                    }
                    r.push(t);
                    cursor = t;
                } else {
                    assert(r@.add(seq![]) =~= r@);
                    return r;
                }
            },
            None => {
                assert(r@.add(seq![]) =~= r@);
                return r;
            },
        }
        i = i + 1;
    }
    assert(r@.add(seq![]) =~= r@);
    r
}

} // verus!
