//! The cron scheduler: one job per mission that is triggered by a cron
//! schedule, and what happens when the timer of a job goes off.
//!
//! A trigger that finds a run of its mission under way is skipped, never
//! queued: the job simply waits for its next occurrence.

use vstd::prelude::*;
use vstd::string::StringExecFns;
use crate::cron::parse::{schedule_of, InvalidCronExpression};
use crate::cron::{is_next_after, never_after, CronSchedule, ScheduleView};
use crate::db::table::{count_of, lemma_count_of_next, lemma_count_of_none};
use crate::registry::{
    hands_out, is_live, mission_of, step, BeginOutcome, ExecutionTicket, Registry, RegistryError,
    Step,
};
use crate::db::mission::MissionStatus;
use crate::time::Timestamp;

verus! {

/// The timer of one mission.
#[derive(Debug, PartialEq, Eq)]
pub struct CronJob {
    pub mission_id: String,
    pub schedule: CronSchedule,
    /// The second at which the job fires next; nothing where the schedule
    /// never fires again.
    pub next_fire: Option<i64>,
}

/// The mathematical content of a [`CronJob`].
pub struct JobView {
    pub mission_id: Seq<char>,
    pub schedule: ScheduleView,
    pub next_fire: Option<i64>,
}

impl View for CronJob {
    type V = JobView;

    open spec fn view(&self) -> JobView {
        JobView {
            mission_id: self.mission_id@,
            schedule: self.schedule@,
            next_fire: self.next_fire,
        }
    }
}

/// The views of a sequence of jobs, one by one.
pub open spec fn job_views(jobs: Seq<CronJob>) -> Seq<JobView> {
    jobs.map_values(|j: CronJob| j@)
}

/// The jobs of the mission `id`.
pub open spec fn job_of(id: Seq<char>) -> spec_fn(JobView) -> bool {
    |j: JobView| j.mission_id == id
}

/// The jobs of the other missions.
pub open spec fn job_of_other(id: Seq<char>) -> spec_fn(JobView) -> bool {
    |j: JobView| j.mission_id != id
}

/// The jobs that are due at the second `now`.
pub open spec fn job_is_due(now: i64) -> spec_fn(JobView) -> bool {
    |j: JobView| j.next_fire matches Some(at) && at <= now
}

/// `next` is what the schedule `s` says of the time after the second
/// `t`: its next occurrence, or nothing where there is none.
pub open spec fn is_next_fire(s: ScheduleView, t: i64, next: Option<i64>) -> bool {
    match next {
        Some(at) => is_next_after(s, t as int, at as int),
        None => never_after(s, t as int),
    }
}

/// The instant at the start of the second `at`.
pub open spec fn instant_of(at: Option<i64>) -> Option<Timestamp> {
    match at {
        Some(secs) => Some(Timestamp { secs, nanos: 0 }),
        None => None,
    }
}

/// What the timer of a mission led to.
#[derive(Debug)]
pub enum FireOutcome {
    /// The mission runs; this is the permit and the next occurrence.
    Started(ExecutionTicket, Option<Timestamp>),
    /// A run was under way; the trigger is skipped and the job waits for
    /// the next occurrence.
    Skipped(Option<Timestamp>),
    /// The registry refused; the job is cancelled.
    Cancelled(RegistryError),
    /// The scheduler has no job for the mission.
    Unknown,
}

/// The jobs of all cron missions.
pub struct CronScheduler {
    jobs: Vec<CronJob>,
}

impl View for CronScheduler {
    type V = Seq<JobView>;

    closed spec fn view(&self) -> Seq<JobView> {
        job_views(self.jobs@)
    }
}

/// The jobs without those of the mission `id`.
fn jobs_without(jobs: Vec<CronJob>, id: &String) -> (r: (Vec<CronJob>, Option<CronJob>))
    ensures
        job_views(r.0@) == job_views(jobs@).filter(job_of_other(id@)),
        match r.1 {
            Some(job) => job@.mission_id == id@ && count_of(job_views(jobs@), job_of(id@)) > 0
                && job_views(jobs@).contains(job@),
            None => count_of(job_views(jobs@), job_of(id@)) == 0,
        },
{
    let ghost all = job_views(jobs@);
    let ghost p = job_of_other(id@);
    let ghost q = job_of(id@);
    let mut jobs = jobs;
    let mut kept: Vec<CronJob> = Vec::new();
    let mut found: Option<CronJob> = None;
    let ghost mut done: int = 0;
    proof {
        assert(all.skip(0) =~= all);
    }
    // The jobs are taken from the back and put back in order afterwards.
    let mut reversed: Vec<CronJob> = Vec::new();
    while jobs.len() > 0
        invariant
            jobs.len() + reversed.len() == all.len(),
            job_views(jobs@) == all.take(jobs.len() as int),
            forall|k: int|
                0 <= k < reversed.len() ==> (#[trigger] reversed[k])@ == all[all.len() - 1 - k],
        decreases jobs.len(),
    {
        let ghost before = job_views(jobs@);
        let job = jobs.pop().unwrap();
        assert(job@ == before[before.len() - 1]);
        reversed.push(job);
    }
    while reversed.len() > 0
        invariant
            done + reversed.len() == all.len(),
            0 <= done,
            p == job_of_other(id@),
            q == job_of(id@),
            forall|k: int|
                0 <= k < reversed.len() ==> (#[trigger] reversed[k])@ == all[all.len() - 1 - k],
            job_views(kept@) == all.take(done).filter(p),
            match found {
                Some(job) => job@.mission_id == id@ && count_of(all.take(done), q) > 0
                    && all.contains(job@),
                None => count_of(all.take(done), q) == 0,
            },
        decreases reversed.len(),
    {
        let job = reversed.pop().unwrap();
        proof {
            lemma_count_of_next(all, p, done);
            lemma_count_of_next(all, q, done);
        }
        if job.mission_id == *id {
            found = Some(job);
        } else {
            kept.push(job);
        }
        proof {
            done = done + 1;
        }
    }
    (kept, found)
}

impl CronScheduler {
    /// A scheduler without jobs.
    pub fn new() -> (r: CronScheduler)
        ensures
            r@ == Seq::<JobView>::empty(),
    {
        let r = CronScheduler { jobs: Vec::new() };
        r
    }

    /// How many jobs there are.
    pub fn len(&self) -> (n: usize)
        ensures
            n == self@.len(),
    {
        self.jobs.len()
    }

    /// Sets the timer of the mission `mission_id` by the cron expression
    /// `expression`, counted from `now`.
    ///
    /// A job that the mission had before is replaced. The answer is the
    /// instant at which the new job fires first, which lies after `now`;
    /// nothing where the schedule never fires again. An expression that is
    /// no cron schedule is refused with `InvalidCronExpression`, and then
    /// nothing changes.
    pub fn register(&mut self, mission_id: &str, expression: &str, now: Timestamp) -> (r: Result<
        Option<Timestamp>,
        InvalidCronExpression,
    >)
        ensures
            match r {
                Ok(first) => exists|next: Option<i64>|
                    {
                        &&& schedule_of(expression@) matches Some(schedule)
                        &&& is_next_fire(schedule, now.secs, next)
                        &&& first == instant_of(next)
                        &&& #[trigger] instant_of(next) matches Some(at) ==> now.before(at)
                        &&& final(self)@ == old(self)@.filter(job_of_other(mission_id@)).push(
                            JobView { mission_id: mission_id@, schedule, next_fire: next },
                        )
                        &&& count_of(final(self)@, job_of(mission_id@)) == 1
                    },
                Err(_) => schedule_of(expression@) is None && final(self)@ == old(self)@,
            },
    {
        let schedule = match CronSchedule::parse(expression) {
            Ok(schedule) => schedule,
            Err(e) => {
                return Err(e);
            },
        };
        let next = schedule.next_after(now.secs);
        let key = String::from_str(mission_id);
        let mut jobs: Vec<CronJob> = Vec::new();
        core::mem::swap(&mut self.jobs, &mut jobs);
        let ghost others = job_views(jobs@).filter(job_of_other(mission_id@));
        let (mut kept, _) = jobs_without(jobs, &key);
        let first = match next {
            Some(secs) => Some(Timestamp { secs, nanos: 0 }),
            None => None,
        };
        let job = CronJob { mission_id: key, schedule, next_fire: next };
        let ghost added = job@;
        kept.push(job);
        proof {
            assert forall|j: int| 0 <= j < others.len() implies !(job_of(mission_id@))(
                #[trigger] others[j],
            ) by {
                old(self)@.lemma_filter_pred(job_of_other(mission_id@), j);
            }
            lemma_count_of_none(others, job_of(mission_id@));
            others.lemma_filter_push(added, job_of(mission_id@));
            assert(first == instant_of(next));
        }
        self.jobs = kept;
        Ok(first)
    }

    /// Cancels the timer of the mission `mission_id`. The answer is
    /// whether there was one.
    pub fn cancel(&mut self, mission_id: &str) -> (r: bool)
        ensures
            final(self)@ == old(self)@.filter(job_of_other(mission_id@)),
            r == (count_of(old(self)@, job_of(mission_id@)) > 0),
    {
        let key = String::from_str(mission_id);
        let mut jobs: Vec<CronJob> = Vec::new();
        core::mem::swap(&mut self.jobs, &mut jobs);
        let (kept, found) = jobs_without(jobs, &key);
        self.jobs = kept;
        found.is_some()
    }

    /// When the scheduler has to wake up next: the earliest instant at
    /// which a job fires; nothing where no job fires again.
    pub fn next_wakeup(&self) -> (r: Option<Timestamp>)
        ensures
            match r {
                Some(at) => {
                    &&& at.nanos == 0
                    &&& exists|k: int|
                        0 <= k < self@.len() && (#[trigger] self@[k]).next_fire == Some(at.secs)
                    &&& forall|k: int|
                        0 <= k < self@.len() ==> ((#[trigger] self@[k]).next_fire matches Some(
                            other,
                        ) ==> at.secs <= other)
                },
                None => forall|k: int| 0 <= k < self@.len() ==> (#[trigger] self@[k]).next_fire is None,
            },
    {
        let mut best: Option<i64> = None;
        let mut i: usize = 0;
        while i < self.jobs.len()
            invariant
                i <= self.jobs.len(),
                match best {
                    Some(at) => {
                        &&& exists|k: int| 0 <= k < i && (#[trigger] self@[k]).next_fire == Some(at)
                        &&& forall|k: int|
                            0 <= k < i ==> ((#[trigger] self@[k]).next_fire matches Some(other)
                                ==> at <= other)
                    },
                    None => forall|k: int| 0 <= k < i ==> (#[trigger] self@[k]).next_fire is None,
                },
            decreases self.jobs.len() - i,
        {
            assert(self@[i as int] == self.jobs[i as int]@);
            match self.jobs[i].next_fire {
                Some(at) => {
                    match best {
                        Some(b) => {
                            if at < b {
                                best = Some(at);
                            }
                        },
                        None => {
                            best = Some(at);
                        },
                    }
                },
                None => {},
            }
            i = i + 1;
        }
        match best {
            Some(secs) => Some(Timestamp { secs, nanos: 0 }),
            None => None,
        }
    }

    /// The missions whose timers have gone off at `now`, in the order of
    /// their jobs.
    pub fn due(&self, now: Timestamp) -> (ids: Vec<String>)
        ensures
            ids@.map_values(|s: String| s@) == self@.filter(job_is_due(now.secs)).map_values(
                |j: JobView| j.mission_id,
            ),
    {
        let ghost all = self@;
        let ghost p = job_is_due(now.secs);
        let ghost name = |j: JobView| j.mission_id;
        let ghost text = |s: String| s@;
        let mut ids: Vec<String> = Vec::new();
        let mut i: usize = 0;
        while i < self.jobs.len()
            invariant
                i <= self.jobs.len(),
                all == self@,
                p == job_is_due(now.secs),
                name == |j: JobView| j.mission_id,
                text == |s: String| s@,
                ids@.map_values(text) == all.take(i as int).filter(p).map_values(name),
            decreases self.jobs.len() - i,
        {
            proof {
                lemma_count_of_next(all, p, i as int);
            }
            let is_due = match self.jobs[i].next_fire {
                Some(at) => at <= now.secs,
                None => false,
            };
            if is_due {
                let ghost before = ids@.map_values(text);
                ids.push(self.jobs[i].mission_id.clone());
                assert(ids@.map_values(text) =~= before.push(all[i as int].mission_id));
            }
            i = i + 1;
        }
        assert(all.take(i as int) =~= all);
        ids
    }

    /// The timer of the mission `mission_id` has gone off at `now`.
    ///
    /// The scheduler asks the registry for the permit to run the mission.
    /// Whether the mission starts or a run is under way and the trigger is
    /// skipped, the job is set to the next occurrence of its schedule after
    /// `now`. Where the registry refuses, because the mission is paused,
    /// unknown or marked as deleted, the job is cancelled. Without a job
    /// for the mission nothing happens at all.
    pub fn fire(&mut self, registry: &mut Registry, mission_id: &str, now: Timestamp) -> (r: FireOutcome)
        ensures
            fired(old(self)@, final(self)@, old(registry)@, final(registry)@, mission_id@, now, r),
    {
        let key = String::from_str(mission_id);
        let mut jobs: Vec<CronJob> = Vec::new();
        core::mem::swap(&mut self.jobs, &mut jobs);
        let ghost before = job_views(jobs@);
        let (mut kept, found) = jobs_without(jobs, &key);
        let mut job = match found {
            Some(job) => job,
            None => {
                proof {
                    assert forall|j: int| 0 <= j < before.len() implies (job_of_other(mission_id@))(
                        #[trigger] before[j],
                    ) by {
                        if (job_of(mission_id@))(before[j]) {
                            before.lemma_filter_contains(job_of(mission_id@), j);
                        }
                    }
                    lemma_filter_all(before, job_of_other(mission_id@));
                }
                self.jobs = kept;
                return FireOutcome::Unknown;
            },
        };
        match registry.begin_execution(mission_id, now) {
            Ok(outcome) => {
                let next = job.schedule.next_after(now.secs);
                let ghost old_fire = job.next_fire;
                job.next_fire = next;
                let at = match next {
                    Some(secs) => Some(Timestamp { secs, nanos: 0 }),
                    None => None,
                };
                let ghost was = JobView { next_fire: old_fire, ..job@ };
                let ghost added = job@;
                let ghost others = job_views(kept@);
                kept.push(job);
                assert(job_views(kept@) =~= others.push(added));
                assert(rescheduled_as(before, job_views(kept@), mission_id@, now, was, next));
                self.jobs = kept;
                match outcome {
                    BeginOutcome::Started(ticket) => FireOutcome::Started(ticket, at),
                    BeginOutcome::Busy => FireOutcome::Skipped(at),
                }
            },
            Err(e) => {
                self.jobs = kept;
                FireOutcome::Cancelled(e)
            },
        }
    }
}

/// `job` is the job of the mission `id` as it was, and now it stands
/// behind the jobs of the other missions, with its schedule as before and
/// set to fire at the second `at`, the next occurrence after `now`.
pub open spec fn rescheduled_as(
    pre: Seq<JobView>,
    post: Seq<JobView>,
    id: Seq<char>,
    now: Timestamp,
    job: JobView,
    at: Option<i64>,
) -> bool {
    &&& pre.contains(job)
    &&& job.mission_id == id
    &&& is_next_fire(job.schedule, now.secs, at)
    &&& post == pre.filter(job_of_other(id)).push(JobView { next_fire: at, ..job })
}

/// The job of the mission `id` was set to its next occurrence after `now`,
/// and `next` is the instant at which it fires then.
pub open spec fn rescheduled(
    pre: Seq<JobView>,
    post: Seq<JobView>,
    id: Seq<char>,
    now: Timestamp,
    next: Option<Timestamp>,
) -> bool {
    exists|job: JobView, at: Option<i64>|
        #[trigger] rescheduled_as(pre, post, id, now, job, at) && next == instant_of(at)
}

/// What [`CronScheduler::fire`] does to the jobs and to the registry.
pub open spec fn fired(
    pre: Seq<JobView>,
    post: Seq<JobView>,
    missions: Seq<crate::registry::SnapshotView>,
    missions_after: Seq<crate::registry::SnapshotView>,
    id: Seq<char>,
    now: Timestamp,
    r: FireOutcome,
) -> bool {
    if count_of(pre, job_of(id)) == 0 {
        r is Unknown && post == pre && missions_after == missions
    } else {
        &&& missions_after == step(missions, Step::Begin(id))
        &&& match r {
            FireOutcome::Started(ticket, next) => {
                &&& hands_out(missions, Step::Begin(id), id)
                &&& ticket.id() == id
                &&& ticket.fired() == now
                &&& rescheduled(pre, post, id, now, next)
            },
            FireOutcome::Skipped(next) => {
                &&& is_live(missions, id)
                &&& mission_of(missions, id).status == MissionStatus::Backuping
                &&& rescheduled(pre, post, id, now, next)
            },
            FireOutcome::Cancelled(e) => {
                &&& post == pre.filter(job_of_other(id))
                &&& match e {
                    RegistryError::NotFound => !is_live(missions, id),
                    RegistryError::InvalidTransition => is_live(missions, id) && mission_of(
                        missions,
                        id,
                    ).status == MissionStatus::Paused,
                }
            },
            FireOutcome::Unknown => false,
        }
    }
}

/// A filter that picks every row keeps the sequence as it is.
pub proof fn lemma_filter_all<T>(rows: Seq<T>, p: spec_fn(T) -> bool)
    requires
        forall|j: int| 0 <= j < rows.len() ==> p(#[trigger] rows[j]),
    ensures
        rows.filter(p) == rows,
    decreases rows.len(),
{
    if rows.len() == 0 {
        rows.lemma_filter_len(p);
    } else {
        let front = rows.drop_last();
        assert forall|j: int| 0 <= j < front.len() implies p(#[trigger] front[j]) by {}
        lemma_filter_all(front, p);
        assert(rows =~= front.push(rows.last()));
        front.lemma_filter_push(rows.last(), p);
    }
}

} // verus!
