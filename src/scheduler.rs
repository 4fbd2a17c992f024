//! The job registry and the tick engine: jobs pair a schedule with a label, and each
//! tick fires, once, every job with a matching instant since the previous tick.
use vstd::prelude::*;
use vstd::set_lib::{lemma_int_range, lemma_len_subset, set_int_range};

use crate::schedule::{
    first_after, next_occurrence, upcoming_from, valid_instant, valid_offset, CronSchedule,
};

verus! {

/// The identifier of a registered job: the value of a version-4 UUID.
#[derive(PartialEq, Eq, Structural, Clone, Copy, Debug, Hash)]
pub struct JobId(pub u128);

/// A registered job: its identifier, its schedule and the label that it shows when it
/// fires.
pub struct Job {
    id: JobId,
    schedule: CronSchedule,
    label: String,
}

/// What a job is, as the contracts see it.
pub struct JobView {
    pub id: JobId,
    pub source: Seq<char>,
    pub label: Seq<char>,
}

impl View for Job {
    type V = JobView;

    closed spec fn view(&self) -> JobView {
        JobView { id: self.id, source: self.schedule@, label: self.label@ }
    }
}

impl Job {
    pub fn id(&self) -> (r: JobId)
        ensures
            r == self@.id,
    {
        self.id
    }

    pub fn label(&self) -> (r: &str)
        ensures
            r@ == self@.label,
    {
        self.label.as_str()
    }

    pub fn schedule(&self) -> (r: &CronSchedule)
        ensures
            r@ == self@.source,
    {
        &self.schedule
    }
}

/// The scheduler as the contracts see it: its jobs in registration order, the instant
/// of the last tick, and the offset of the wall clock from UTC.
pub struct SchedulerView {
    pub jobs: Seq<JobView>,
    pub cursor: i64,
    pub utc_offset: i32,
}

/// The identifiers of `jobs`, in order.
pub open spec fn job_ids(jobs: Seq<JobView>) -> Seq<JobId> {
    jobs.map_values(|j: JobView| j.id)
}

/// No two jobs share an identifier.
pub open spec fn ids_unique(jobs: Seq<JobView>) -> bool {
    forall|i: int, j: int| 0 <= i < jobs.len() && 0 <= j < jobs.len() && i != j ==> jobs[i].id
        != jobs[j].id
}

/// Whether a job whose next instant after `cursor` is `next` fires in the tick from
/// `cursor` to `now`: that instant lies in `(cursor, now]`.
pub open spec fn fires_given(next: Option<i64>, cursor: i64, now: i64) -> bool {
    match next {
        Some(t) => cursor < t && t <= now,
        None => false,
    }
}

/// Whether a job with schedule text `source` is due in the tick from `cursor` to `now`:
/// its first matching instant after `cursor` is no later than `now`.
pub open spec fn is_due(source: Seq<char>, utc_offset: i32, cursor: i64, now: i64) -> bool {
    fires_given(next_occurrence(source, utc_offset, cursor), cursor, now)
}

/// Decides whether a job fires in the tick from `cursor` to `now`, given the first
/// instant after `cursor` that its schedule matches.
pub fn fires(next: Option<i64>, cursor: i64, now: i64) -> (r: bool)
    ensures
        r == fires_given(next, cursor, now),
{
    match next {
        Some(t) => cursor < t && t <= now,
        None => false,
    }
}

/// The identifiers of the jobs that are due in the tick from `cursor` to `now`, in
/// registration order.
pub open spec fn due_ids(jobs: Seq<JobView>, utc_offset: i32, cursor: i64, now: i64) -> Seq<
    JobId,
>
    decreases jobs.len(),
{
    if jobs.len() == 0 {
        seq![]
    } else {
        let rest = due_ids(jobs.drop_last(), utc_offset, cursor, now);
        if is_due(jobs.last().source, utc_offset, cursor, now) {
            rest.push(jobs.last().id)
        } else {
            rest
        }
    }
}

/// `jobs` without the job whose identifier is `id`.
pub open spec fn without(jobs: Seq<JobView>, id: JobId) -> Seq<JobView>
    decreases jobs.len(),
{
    if jobs.len() == 0 {
        jobs
    } else {
        let rest = without(jobs.drop_last(), id);
        if jobs.last().id == id {
            rest
        } else {
            rest.push(jobs.last())
        }
    }
}

/// The later of two instants.
pub open spec fn later(a: i64, b: i64) -> i64 {
    if a < b {
        b
    } else {
        a
    }
}

/// Removing an identifier that no job has leaves the jobs as they are.
proof fn lemma_without_absent(jobs: Seq<JobView>, id: JobId)
    requires
        forall|i: int| 0 <= i < jobs.len() ==> jobs[i].id != id,
    ensures
        without(jobs, id) == jobs,
    decreases jobs.len(),
{
    if jobs.len() > 0 {
        lemma_without_absent(jobs.drop_last(), id);
        assert(jobs.drop_last().push(jobs.last()) =~= jobs);
    }
}

/// Removing the identifier that only the job at `k` has removes that one job.
proof fn lemma_without_at(jobs: Seq<JobView>, id: JobId, k: int)
    requires
        0 <= k < jobs.len(),
        jobs[k].id == id,
        forall|i: int| 0 <= i < jobs.len() && i != k ==> jobs[i].id != id,
    ensures
        without(jobs, id) == jobs.remove(k),
    decreases jobs.len(),
{
    if k == jobs.len() - 1 {
        lemma_without_absent(jobs.drop_last(), id);
        assert(jobs.drop_last() =~= jobs.remove(k));
    } else {
        lemma_without_at(jobs.drop_last(), id, k);
        assert(jobs.drop_last().remove(k).push(jobs.last()) =~= jobs.remove(k));
    }
}

/// What `without` keeps: every job but those with identifier `id`, in order.
proof fn lemma_without_keeps(jobs: Seq<JobView>, id: JobId)
    ensures
        forall|i: int| 0 <= i < without(jobs, id).len() ==> without(jobs, id)[i].id != id,
        forall|i: int|
            0 <= i < without(jobs, id).len() ==> jobs.contains(#[trigger] without(jobs, id)[i]),
        ids_unique(jobs) ==> ids_unique(without(jobs, id)),
    decreases jobs.len(),
{
    if jobs.len() > 0 {
        let rest = without(jobs.drop_last(), id);
        lemma_without_keeps(jobs.drop_last(), id);
        assert forall|i: int| 0 <= i < rest.len() implies jobs.contains(rest[i]) by {
            let j = choose|j: int| 0 <= j < jobs.drop_last().len() && jobs.drop_last()[j] == rest[i];
            assert(jobs[j] == rest[i]);
        }
        if jobs.last().id != id {
            let w = rest.push(jobs.last());
            assert(jobs[jobs.len() - 1] == jobs.last());
            assert forall|i: int| 0 <= i < w.len() implies jobs.contains(w[i]) by {
                if i < rest.len() {
                    assert(w[i] == rest[i]);
                }
            }
            if ids_unique(jobs) {
                assert forall|i: int, j: int|
                    0 <= i < w.len() && 0 <= j < w.len() && i != j implies w[i].id != w[j].id by {
                    if i < rest.len() && j < rest.len() {
                        assert(w[i] == rest[i] && w[j] == rest[j]);
                    } else if i < rest.len() {
                        let a = choose|a: int| 0 <= a < jobs.drop_last().len() && jobs.drop_last()[a] == rest[i];
                        assert(jobs[a] == w[i]);
                    } else {
                        let a = choose|a: int| 0 <= a < jobs.drop_last().len() && jobs.drop_last()[a] == rest[j];
                        assert(jobs[a] == w[j]);
                    }
                }
            }
        }
    }
}

/// Removing a job twice is removing it once: the second removal finds nothing.
pub proof fn lemma_remove_idempotent(jobs: Seq<JobView>, id: JobId)
    ensures
        without(without(jobs, id), id) == without(jobs, id),
        !job_ids(without(jobs, id)).contains(id),
{
    lemma_without_keeps(jobs, id);
    lemma_without_absent(without(jobs, id), id);
    let w = without(jobs, id);
    assert forall|i: int| 0 <= i < job_ids(w).len() implies job_ids(w)[i] != id by {
        assert(job_ids(w)[i] == w[i].id);
    }
}

/// The jobs that fire in one tick: each registered job fires exactly when it is due, and
/// no identifier fires twice, however many of its instants fall inside the tick.
pub proof fn lemma_fires_at_most_once(jobs: Seq<JobView>, utc_offset: i32, cursor: i64, now: i64)
    requires
        ids_unique(jobs),
    ensures
        due_ids(jobs, utc_offset, cursor, now).no_duplicates(),
        forall|k: int|
            0 <= k < jobs.len() ==> (due_ids(jobs, utc_offset, cursor, now).contains(
                #[trigger] jobs[k].id,
            ) <==> is_due(jobs[k].source, utc_offset, cursor, now)),
        forall|x: JobId|
            #[trigger] due_ids(jobs, utc_offset, cursor, now).contains(x) ==> job_ids(
                jobs,
            ).contains(x),
    decreases jobs.len(),
{
    if jobs.len() > 0 {
        let init = jobs.drop_last();
        let rest = due_ids(init, utc_offset, cursor, now);
        let last = jobs.last();
        assert(jobs[jobs.len() - 1] == last);
        assert(ids_unique(init));
        lemma_fires_at_most_once(init, utc_offset, cursor, now);
        assert forall|x: JobId| rest.contains(x) implies x != last.id by {
            assert(job_ids(init).contains(x));
            let k = choose|k: int| 0 <= k < job_ids(init).len() && job_ids(init)[k] == x;
            assert(init[k].id == x);
            assert(jobs[k] == init[k]);
        }
        let d = due_ids(jobs, utc_offset, cursor, now);
        assert forall|k: int| 0 <= k < jobs.len() implies (d.contains(#[trigger] jobs[k].id)
            <==> is_due(jobs[k].source, utc_offset, cursor, now)) by {
            if k < jobs.len() - 1 {
                assert(init[k] == jobs[k]);
                if is_due(last.source, utc_offset, cursor, now) {
                    assert(rest.push(last.id) == d);
                    if d.contains(jobs[k].id) && !rest.contains(jobs[k].id) {
                        let i = choose|i: int| 0 <= i < d.len() && d[i] == jobs[k].id;
                        if i < rest.len() {
                            assert(rest[i] == d[i]);
                        }
                    }
                    if rest.contains(jobs[k].id) {
                        let i = choose|i: int| 0 <= i < rest.len() && rest[i] == jobs[k].id;
                        assert(d[i] == rest[i]);
                    }
                }
            } else {
                if is_due(last.source, utc_offset, cursor, now) {
                    assert(d[d.len() - 1] == last.id);
                }
            }
        }
        assert forall|x: JobId| d.contains(x) implies job_ids(jobs).contains(x) by {
            let i = choose|i: int| 0 <= i < d.len() && d[i] == x;
            if i < rest.len() {
                assert(rest[i] == d[i]);
                assert(rest.contains(x));
                assert(job_ids(init).contains(x));
                let k = choose|k: int| 0 <= k < job_ids(init).len() && job_ids(init)[k] == x;
                assert(job_ids(jobs)[k] == x);
            } else {
                assert(job_ids(jobs)[jobs.len() - 1] == x);
            }
        }
        if is_due(last.source, utc_offset, cursor, now) {
            assert(d == rest.push(last.id));
            assert forall|i: int, j: int| 0 <= i < j < d.len() implies d[i] != d[j] by {
                if j == d.len() - 1 {
                    assert(rest[i] == d[i]);
                    assert(rest.contains(rest[i]));
                } else {
                    assert(rest[i] == d[i] && rest[j] == d[j]);
                }
            }
        }
    }
}

/// The first instant of a job's upcoming sequence from the cursor is the instant that
/// makes a tick fire it: the job is due exactly when that instant exists and `now` has
/// reached it.
pub proof fn lemma_first_upcoming_fires(s: SchedulerView, k: int, now: i64)
    requires
        s.wf(),
        0 <= k < s.jobs.len(),
        valid_instant(now),
    ensures
        due_ids(s.jobs, s.utc_offset, s.cursor, now).contains(s.jobs[k].id) <==> ({
            let first = upcoming_from(s.jobs[k].source, s.utc_offset, s.cursor, 1);
            first.len() == 1 && first[0] <= now
        }),
{
    lemma_fires_at_most_once(s.jobs, s.utc_offset, s.cursor, now);
    let first = upcoming_from(s.jobs[k].source, s.utc_offset, s.cursor, 1);
    assert(upcoming_from(s.jobs[k].source, s.utc_offset, s.cursor, 0) == Seq::<i64>::empty());
    if let Some(t) = next_occurrence(s.jobs[k].source, s.utc_offset, s.cursor) {
        if valid_instant(t) && t > s.cursor {
            assert(upcoming_from(s.jobs[k].source, s.utc_offset, t, 0) == Seq::<i64>::empty());
            assert(first == seq![t].add(Seq::<i64>::empty()));
            assert(first[0] == t);
        }
    }
}

/// The registry of jobs together with the instant of the last tick.
pub struct JobScheduler {
    jobs: Vec<Job>,
    cursor: i64,
    utc_offset: i32,
}

impl View for JobScheduler {
    type V = SchedulerView;

    closed spec fn view(&self) -> SchedulerView {
        SchedulerView {
            jobs: self.jobs@.map_values(|j: Job| j@),
            cursor: self.cursor,
            utc_offset: self.utc_offset,
        }
    }
}

impl SchedulerView {
    /// The scheduler's invariant: identifiers are unique, the cursor and the offset lie
    /// in the ranges that schedules are queried over.
    pub open spec fn wf(self) -> bool {
        &&& ids_unique(self.jobs)
        &&& valid_instant(self.cursor)
        &&& valid_offset(self.utc_offset)
    }
}

/// Relies on uuid's `Uuid::new_v4`: a random identifier, of which nothing is promised.
#[verifier::external_body]
fn random_id() -> u128 {
    uuid::Uuid::new_v4().as_u128()
}

impl JobScheduler {
    /// An empty scheduler whose first tick starts at `created_at`, on a wall clock
    /// `utc_offset` seconds ahead of UTC.
    pub fn new(created_at: i64, utc_offset: i32) -> (r: JobScheduler)
        requires
            valid_instant(created_at),
            valid_offset(utc_offset),
        ensures
            r@.wf(),
            r@.jobs.len() == 0,
            r@.cursor == created_at,
            r@.utc_offset == utc_offset,
    {
        let r = JobScheduler { jobs: Vec::new(), cursor: created_at, utc_offset };
        assert(r@.jobs =~= Seq::<JobView>::empty());
        r
    }

    /// The number of registered jobs.
    pub fn len(&self) -> (r: usize)
        ensures
            r == self@.jobs.len(),
    {
        self.jobs.len()
    }

    /// Whether no job is registered.
    pub fn is_empty(&self) -> (r: bool)
        ensures
            r == (self@.jobs.len() == 0),
    {
        self.jobs.len() == 0
    }

    /// The instant of the last tick.
    pub fn cursor(&self) -> (r: i64)
        ensures
            r == self@.cursor,
    {
        self.cursor
    }

    /// The offset of the wall clock from UTC, in seconds.
    pub fn utc_offset(&self) -> (r: i32)
        ensures
            r == self@.utc_offset,
    {
        self.utc_offset
    }

    /// Moves the wall clock to a new offset from UTC, as when daylight-saving time begins
    /// or ends; the jobs and the cursor stay as they are.
    pub fn set_utc_offset(&mut self, utc_offset: i32)
        requires
            old(self)@.wf(),
            valid_offset(utc_offset),
        ensures
            final(self)@.wf(),
            final(self)@.jobs == old(self)@.jobs,
            final(self)@.cursor == old(self)@.cursor,
            final(self)@.utc_offset == utc_offset,
    {
        self.utc_offset = utc_offset;
    }

    /// The jobs in registration order.
    pub fn jobs(&self) -> (r: &[Job])
        ensures
            r@.map_values(|j: Job| j@) == self@.jobs,
    {
        self.jobs.as_slice()
    }

    /// Whether a job with identifier `id` is registered.
    pub fn contains(&self, id: JobId) -> (r: bool)
        ensures
            r == job_ids(self@.jobs).contains(id),
    {
        let mut i: usize = 0;
        while i < self.jobs.len()
            invariant
                i <= self.jobs.len(),
                forall|k: int| 0 <= k < i ==> self@.jobs[k].id != id,
            decreases self.jobs.len() - i,
        {
            if self.jobs[i].id == id {
                assert(job_ids(self@.jobs)[i as int] == id);
                return true;
            }
            i = i + 1;
        }
        assert forall|k: int| 0 <= k < job_ids(self@.jobs).len() implies job_ids(
            self@.jobs,
        )[k] != id by {}
        false
    }

    /// An identifier that no registered job has: `candidate` itself where it is free,
    /// else the least free value.
    pub fn fresh_id(&self, candidate: u128) -> (r: JobId)
        ensures
            !job_ids(self@.jobs).contains(r),
            !job_ids(self@.jobs).contains(JobId(candidate)) ==> r == JobId(candidate),
    {
        if !self.contains(JobId(candidate)) {
            return JobId(candidate);
        }
        let n = self.jobs.len();
        let ghost ints = self@.jobs.map_values(|j: JobView| j.id.0 as int);
        let mut k: u128 = 0;
        while k <= n as u128
            invariant
                n == self@.jobs.len(),
                job_ids(self@.jobs).contains(JobId(candidate)),
                ints == self@.jobs.map_values(|j: JobView| j.id.0 as int),
                k <= n + 1,
                forall|x: int| 0 <= x < k ==> ints.contains(x),
            decreases n + 1 - k,
        {
            if !self.contains(JobId(k)) {
                return JobId(k);
            }
            proof {
                let i = choose|i: int| 0 <= i < job_ids(self@.jobs).len() && job_ids(self@.jobs)[i] == JobId(k);
                assert(ints[i] == k as int);
            }
            k = k + 1;
        }
        proof {
            let range = set_int_range(0, n + 1);
            lemma_int_range(0, n + 1);
            ints.lemma_cardinality_of_set();
            assert(range.subset_of(ints.to_set()));
            lemma_len_subset(range, ints.to_set());
        }
        JobId(0)
    }

    /// Registers a job and returns its identifier, which no other registered job has.
    pub fn add(&mut self, schedule: CronSchedule, label: String) -> (r: JobId)
        requires
            old(self)@.wf(),
        ensures
            final(self)@.wf(),
            !job_ids(old(self)@.jobs).contains(r),
            final(self)@.jobs == old(self)@.jobs.push(
                JobView { id: r, source: schedule@, label: label@ },
            ),
            final(self)@.cursor == old(self)@.cursor,
            final(self)@.utc_offset == old(self)@.utc_offset,
    {
        let id = self.fresh_id(random_id());
        let ghost before = self@.jobs;
        let job = Job { id, schedule, label };
        self.jobs.push(job);
        proof {
            assert(self@.jobs =~= before.push(job@));
            assert forall|i: int| 0 <= i < before.len() implies before[i].id != id by {
                assert(job_ids(before)[i] == before[i].id);
            }
        }
        id
    }

    /// Removes the job with identifier `id`, and says whether there was one. Removing an
    /// identifier that no job has changes nothing.
    pub fn remove(&mut self, id: JobId) -> (r: bool)
        requires
            old(self)@.wf(),
        ensures
            final(self)@.wf(),
            r == job_ids(old(self)@.jobs).contains(id),
            final(self)@.jobs == without(old(self)@.jobs, id),
            final(self)@.cursor == old(self)@.cursor,
            final(self)@.utc_offset == old(self)@.utc_offset,
    {
        let ghost before = self@.jobs;
        let mut i: usize = 0;
        while i < self.jobs.len()
            invariant
                self@ == old(self)@,
                self@.wf(),
                before == self@.jobs,
                i <= self.jobs.len(),
                forall|k: int| 0 <= k < i ==> before[k].id != id,
            decreases self.jobs.len() - i,
        {
            if self.jobs[i].id == id {
                proof {
                    assert forall|k: int| 0 <= k < before.len() && k != i implies before[k].id
                        != id by {
                        assert(before[i as int].id == id);
                    }
                    lemma_without_at(before, id, i as int);
                    assert(job_ids(before)[i as int] == id);
                    lemma_without_keeps(before, id);
                }
                self.jobs.remove(i);
                assert(self@.jobs =~= before.remove(i as int));
                return true;
            }
            i = i + 1;
        }
        proof {
            lemma_without_absent(before, id);
            assert forall|k: int| 0 <= k < job_ids(before).len() implies job_ids(before)[k]
                != id by {}
        }
        false
    }

    /// Removes every job; the cursor stays where it is.
    pub fn remove_all(&mut self)
        requires
            old(self)@.wf(),
        ensures
            final(self)@.wf(),
            final(self)@.jobs.len() == 0,
            final(self)@.cursor == old(self)@.cursor,
            final(self)@.utc_offset == old(self)@.utc_offset,
    {
        self.jobs.clear();
        assert(self@.jobs =~= Seq::<JobView>::empty());
    }

    /// One tick up to `now`: returns, in registration order, the identifiers of the jobs
    /// with a matching instant after the cursor and no later than `now`, each once, and
    /// moves the cursor to `now` (it never moves back).
    pub fn tick(&mut self, now: i64) -> (r: Vec<JobId>)
        requires
            old(self)@.wf(),
            valid_instant(now),
        ensures
            final(self)@.wf(),
            r@ == due_ids(old(self)@.jobs, old(self)@.utc_offset, old(self)@.cursor, now),
            r@.no_duplicates(),
            forall|k: int|
                0 <= k < old(self)@.jobs.len() ==> (r@.contains(#[trigger] old(self)@.jobs[k].id)
                    <==> is_due(
                    old(self)@.jobs[k].source,
                    old(self)@.utc_offset,
                    old(self)@.cursor,
                    now,
                )),
            final(self)@.jobs == old(self)@.jobs,
            final(self)@.cursor == later(old(self)@.cursor, now),
            final(self)@.utc_offset == old(self)@.utc_offset,
    {
        let ghost jobs = self@.jobs;
        let mut fired: Vec<JobId> = Vec::new();
        let mut i: usize = 0;
        while i < self.jobs.len()
            invariant
                self@ == old(self)@,
                jobs == self@.jobs,
                self@.wf(),
                i <= self.jobs.len(),
                fired@ == due_ids(jobs.subrange(0, i as int), self.utc_offset, self.cursor, now),
            decreases self.jobs.len() - i,
        {
            let job = &self.jobs[i];
            assert(jobs[i as int] == job@);
            assert(jobs.subrange(0, i as int + 1).drop_last() =~= jobs.subrange(0, i as int));
            if fires(first_after(&job.schedule, self.utc_offset, self.cursor), self.cursor, now) {
                fired.push(job.id);
            }
            i = i + 1;
        }
        assert(jobs.subrange(0, jobs.len() as int) =~= jobs);
        proof {
            lemma_fires_at_most_once(jobs, self.utc_offset, self.cursor, now);
        }
        if self.cursor < now {
            self.cursor = now;
        }
        fired
    }
}

} // verus!
