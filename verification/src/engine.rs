//! The engine: the registry and the two schedulers side by side, and the
//! rules that tie them together.
//!
//! Arming a mission sets its timer or its watch, pausing or deleting it
//! takes them away, and the end of a run leaves a record, arms the mission
//! again and prunes the history.

use vstd::prelude::*;
use crate::config::notify::{Notice, NotifyConfig};
use crate::cron::parse::schedule_of;
use crate::db::backup::{append_backup, Backup, BackupView};
use crate::db::mission::{
    may_switch, mission_selected, mission_settled, settle_mission, Mission, MissionStatus,
    MissionView, PathType, TimeLabel,
};
use crate::db::owners::{lemma_found_again, missions_have_procedures, procedures_stay};
use crate::db::procedure::{has_live_procedure, TriggerKind};
use crate::db::integrity::{compact_all, database_compacted, Removed};
use crate::db::table::{count_of, next_ordinal, rewritten};
use crate::db::{Database, DatabaseView};
use crate::executor::{complete, record_of, BackupPlan, Finalize, PlanView, WriteResult};
use crate::db::table::{first_at, none_of};
use crate::monitor::{watch_of, watch_of_other, MonitorScheduler, WatchView};
use crate::registry::{
    after_run, in_flight, index_of, is_live, known, mission_of, step, ExecutionOutcome,
    ExecutionTicket, Registry, RegistryError, SnapshotView, Step,
};
use crate::retention::{enforce_retention, history_of, is_doomed, retained, rule_of};
use crate::scheduler::{
    fired, instant_of, is_next_fire, job_of_other, CronScheduler, FireOutcome, JobView,
};
use crate::time::Timestamp;

verus! {

/// Why the engine refused, or what went wrong around it.
#[derive(Clone, Copy, Debug, PartialEq, Eq, Structural)]
pub enum EngineError {
    /// The mission is unknown or marked as deleted, or what it refers to
    /// is.
    NotFound,
    /// The status of the mission does not allow the change.
    InvalidTransition,
    /// The cron expression of the procedure is no schedule.
    InvalidCronExpression,
    /// The watch of the mission was lost.
    WatchLost,
    /// Reading the source or writing the artifact failed.
    IoFailure,
    /// The store could not be reached.
    StorageFailure,
}

/// The error of the engine that stands for an error of the registry.
pub open spec fn engine_error(e: RegistryError) -> EngineError {
    match e {
        RegistryError::NotFound => EngineError::NotFound,
        RegistryError::InvalidTransition => EngineError::InvalidTransition,
    }
}

/// The error of the engine that stands for an error of the registry.
pub fn from_registry(e: RegistryError) -> (r: EngineError)
    ensures
        r == engine_error(e),
{
    match e {
        RegistryError::NotFound => EngineError::NotFound,
        RegistryError::InvalidTransition => EngineError::InvalidTransition,
    }
}

/// How often a write to the store is tried again after it failed.
pub const MAX_RETRIES: u32 = 5;

/// The pause before the first retry, in milliseconds.
pub const FIRST_PAUSE_MS: u64 = 100;

/// The pause before the retry number `attempt`, counted from 0: it starts
/// at 100 milliseconds and doubles with every retry.
pub open spec fn pause_before(attempt: nat) -> int
    decreases attempt,
{
    if attempt == 0 {
        100
    } else {
        2 * pause_before((attempt - 1) as nat)
    }
}

/// After a write to the store failed for the time number `attempt`,
/// counted from 0: how many milliseconds to wait before it is tried
/// again. After the last retry there is no pause but the answer
/// `StorageFailure`, which is then surfaced. The state of the mission does
/// not wait for the store: it was armed again before the first write.
pub fn retry_pause(attempt: u32) -> (r: Result<u64, EngineError>)
    ensures
        match r {
            Ok(ms) => attempt < MAX_RETRIES && ms == pause_before(attempt as nat),
            Err(e) => attempt >= MAX_RETRIES && e == EngineError::StorageFailure,
        },
{
    if attempt >= MAX_RETRIES {
        return Err(EngineError::StorageFailure);
    }
    let mut ms: u64 = FIRST_PAUSE_MS;
    let mut k: u32 = 0;
    while k < attempt
        invariant
            k <= attempt < MAX_RETRIES,
            ms == pause_before(k as nat),
            ms <= 100 * 16,
        decreases attempt - k,
    {
        proof {
            lemma_pause_bound(k as nat);
        }
        ms = ms * 2;
        k = k + 1;
    }
    Ok(ms)
}

/// The pauses of the retries stay small.
proof fn lemma_pause_bound(k: nat)
    requires
        k < 4,
    ensures
        pause_before(k) <= 800,
        pause_before(k + 1) == 2 * pause_before(k),
{
    assert(pause_before(0) == 100);
    assert(pause_before(1) == 200);
    assert(pause_before(2) == 400);
}

/// The registry and the two schedulers.
pub struct Engine {
    pub registry: Registry,
    pub cron: CronScheduler,
    pub monitor: MonitorScheduler,
}

/// The mathematical content of an [`Engine`].
pub struct EngineView {
    pub missions: Seq<SnapshotView>,
    pub jobs: Seq<JobView>,
    pub watches: Seq<WatchView>,
}

impl View for Engine {
    type V = EngineView;

    open spec fn view(&self) -> EngineView {
        EngineView { missions: self.registry@, jobs: self.cron@, watches: self.monitor@ }
    }
}

/// The engine without the timer and the watch of the mission `id`.
pub open spec fn disarmed(e: EngineView, id: Seq<char>) -> EngineView {
    EngineView {
        jobs: e.jobs.filter(job_of_other(id)),
        watches: e.watches.filter(watch_of_other(id)),
        ..e
    }
}

/// The mission of `snapshot`, armed.
pub open spec fn running(snapshot: SnapshotView) -> MissionView {
    MissionView { status: MissionStatus::Running, ..snapshot.mission }
}

/// What [`Engine::arm`] does. A live, paused mission is armed: a cron
/// mission gets its timer, a monitor mission its watch, and the status
/// becomes `Running`. A cron expression that is no schedule keeps the
/// mission paused and changes nothing. A mission that is not paused is an
/// `InvalidTransition`, one that is unknown or marked as deleted is
/// `NotFound`; both change nothing.
pub open spec fn armed(
    pre: EngineView,
    post: EngineView,
    id: Seq<char>,
    window_ms: u64,
    now: Timestamp,
    r: Result<Mission, EngineError>,
) -> bool {
    let snapshot = pre.missions[index_of(pre.missions, id)];
    let after = step(pre.missions, Step::SetStatus(id, MissionStatus::Running));
    if !is_live(pre.missions, id) {
        post == pre && r == Err::<Mission, EngineError>(EngineError::NotFound)
    } else if snapshot.mission.status != MissionStatus::Paused {
        post == pre && r == Err::<Mission, EngineError>(EngineError::InvalidTransition)
    } else {
        match snapshot.procedure.trigger {
            TriggerKind::Cron => match schedule_of(snapshot.procedure.cron_expression) {
                None => post == pre && r == Err::<Mission, EngineError>(
                    EngineError::InvalidCronExpression,
                ),
                Some(schedule) => {
                    &&& r matches Ok(m) && m@ == running(snapshot)
                    &&& post.missions == after
                    &&& post.watches == pre.watches
                    &&& exists|next: Option<i64>|
                        #![trigger instant_of(next)]
                        is_next_fire(schedule, now.secs, next) && post.jobs == pre.jobs.filter(
                            job_of_other(id),
                        ).push(JobView { mission_id: id, schedule, next_fire: next })
                },
            },
            TriggerKind::Monitor => {
                &&& r matches Ok(m) && m@ == running(snapshot)
                &&& post.missions == after
                &&& post.jobs == pre.jobs
                &&& post.watches == pre.watches.filter(watch_of_other(id)).push(
                    WatchView {
                        mission_id: id,
                        root: snapshot.mission.src_path,
                        recursive: snapshot.mission.path_type == PathType::Directory,
                        window: window_ms as int,
                        pending: None,
                        lost: false,
                        last_seen: None,
                    },
                )
            },
            TriggerKind::Reserved => {
                &&& r matches Ok(m) && m@ == running(snapshot)
                &&& post.missions == after
                &&& post.jobs == pre.jobs
                &&& post.watches == pre.watches
            },
        }
    }
}

/// Why the registry refuses the step `asked` for the mission `id`, if it
/// does. A mission that is unknown or marked as deleted is `NotFound`,
/// whatever was asked. A live mission refuses a change of status that a
/// user may not make with `InvalidTransition`, and refuses no deletion.
pub open spec fn refused(missions: Seq<SnapshotView>, id: Seq<char>, asked: Step) -> Option<
    EngineError,
> {
    if !is_live(missions, id) {
        Some(EngineError::NotFound)
    } else {
        match asked {
            Step::SetStatus(_, target) => if may_switch(mission_of(missions, id).status, target) {
                None
            } else {
                Some(EngineError::InvalidTransition)
            },
            _ => None,
        }
    }
}

/// What [`Engine::pause`] and [`Engine::delete_mission`] do, given the
/// step that the registry is asked to make. Where the registry makes the
/// step, the timer and the watch of the mission are taken away and the
/// mission comes back as it stands afterwards. Where it refuses, the
/// answer is the reason that [`refused`] gives and nothing changes.
pub open spec fn stood_down(
    pre: EngineView,
    post: EngineView,
    id: Seq<char>,
    asked: Step,
    r: Result<Mission, EngineError>,
) -> bool {
    match refused(pre.missions, id, asked) {
        Some(e) => post == pre && r == Err::<Mission, EngineError>(e),
        None => {
            &&& r matches Ok(m) && m@ == post.missions[index_of(pre.missions, id)].mission
            &&& post == disarmed(EngineView { missions: step(pre.missions, asked), ..pre }, id)
        },
    }
}

impl Engine {
    /// An engine without missions.
    pub fn new() -> (e: Engine)
        ensures
            e@.missions.len() == 0,
            e@.jobs.len() == 0,
            e@.watches.len() == 0,
    {
        Engine {
            registry: Registry::new(),
            cron: CronScheduler::new(),
            monitor: MonitorScheduler::new(),
        }
    }

    /// Arms the mission `mission_id` at `now`; a watch gets the debounce
    /// window `window_ms`. See [`armed`].
    pub fn arm(&mut self, mission_id: &str, window_ms: u64, now: Timestamp) -> (r: Result<
        Mission,
        EngineError,
    >)
        ensures
            armed(old(self)@, final(self)@, mission_id@, window_ms, now, r),
    {
        let snapshot = match self.registry.get(mission_id) {
            Some(s) => s,
            None => {
                return Err(EngineError::NotFound);
            },
        };
        match snapshot.mission.status {
            MissionStatus::Paused => {},
            _ => {
                return Err(EngineError::InvalidTransition);
            },
        }
        match snapshot.procedure.trigger {
            TriggerKind::Cron => {
                match self.cron.register(
                    mission_id,
                    snapshot.procedure.cron_expression.as_str(),
                    now,
                ) {
                    Ok(_) => {},
                    Err(_) => {
                        return Err(EngineError::InvalidCronExpression);
                    },
                }
            },
            TriggerKind::Monitor => {
                self.monitor.watch(
                    mission_id,
                    snapshot.mission.src_path.as_str(),
                    snapshot.mission.path_type,
                    window_ms,
                );
            },
            TriggerKind::Reserved => {},
        }
        match self.registry.set_status(mission_id, MissionStatus::Running) {
            Ok(m) => Ok(m),
            Err(e) => Err(from_registry(e)),
        }
    }

    /// Pauses the mission `mission_id` and takes its timer and its watch
    /// away. A run that is under way is not touched, and while it lasts
    /// the mission cannot be paused. See [`stood_down`].
    pub fn pause(&mut self, mission_id: &str) -> (r: Result<Mission, EngineError>)
        ensures
            stood_down(
                old(self)@,
                final(self)@,
                mission_id@,
                Step::SetStatus(mission_id@, MissionStatus::Paused),
                r,
            ),
    {
        match self.registry.set_status(mission_id, MissionStatus::Paused) {
            Ok(m) => {
                let _ = self.cron.cancel(mission_id);
                let _ = self.monitor.unwatch(mission_id);
                Ok(m)
            },
            Err(e) => Err(from_registry(e)),
        }
    }

    /// Marks the mission `mission_id` as deleted at `now` and takes its
    /// timer and its watch away. A run that is under way goes on and gives
    /// its ticket back as usual. See [`stood_down`].
    pub fn delete_mission(&mut self, mission_id: &str, now: Timestamp) -> (r: Result<
        Mission,
        EngineError,
    >)
        ensures
            stood_down(old(self)@, final(self)@, mission_id@, Step::Remove(mission_id@, now), r),
    {
        match self.registry.remove(mission_id, now) {
            Ok(m) => {
                let _ = self.cron.cancel(mission_id);
                let _ = self.monitor.unwatch(mission_id);
                Ok(m)
            },
            Err(e) => Err(from_registry(e)),
        }
    }

    /// The watch of the mission `mission_id` was lost. The watch is marked
    /// as lost and the mission stays as it is, armed but unwatched, until
    /// it is armed anew. The answer is `WatchLost` where a watch that was
    /// in order before is lost now, which is then to be surfaced; where the
    /// mission had no watch, or a lost one, there is nothing to report.
    pub fn watch_lost(&mut self, mission_id: &str) -> (r: Result<(), EngineError>)
        ensures
            final(self)@.missions == old(self)@.missions,
            final(self)@.jobs == old(self)@.jobs,
            if none_of(old(self)@.watches, watch_of(mission_id@)) {
                r is Ok && final(self)@.watches == old(self)@.watches
            } else {
                exists|i: int|
                    #![trigger old(self)@.watches[i]]
                    {
                        &&& first_at(old(self)@.watches, watch_of(mission_id@), i)
                        &&& (r is Err) == !old(self)@.watches[i].lost
                        &&& r matches Err(e) ==> e == EngineError::WatchLost
                        &&& final(self)@.watches == old(self)@.watches.update(
                            i,
                            WatchView { pending: None, lost: true, ..old(self)@.watches[i] },
                        )
                    }
            },
    {
        if self.monitor.mark_lost(mission_id) {
            Err(EngineError::WatchLost)
        } else {
            Ok(())
        }
    }

    /// The timer of the mission `mission_id` has gone off at `now`: the
    /// cron scheduler fires, and where the job waits for a next occurrence
    /// the mission is told when that is.
    pub fn fire_cron(&mut self, mission_id: &str, now: Timestamp) -> (r: FireOutcome)
        ensures
            final(self)@.watches == old(self)@.watches,
            exists|begun: Seq<SnapshotView>|
                {
                    &&& #[trigger] fired(
                        old(self)@.jobs,
                        final(self)@.jobs,
                        old(self)@.missions,
                        begun,
                        mission_id@,
                        now,
                        r,
                    )
                    &&& final(self)@.missions == match next_of(r) {
                        Some(at) => step(begun, Step::SetTime(mission_id@, TimeLabel::Next, at)),
                        None => begun,
                    }
                },
    {
        let r = self.cron.fire(&mut self.registry, mission_id, now);
        let ghost begun = self.registry@;
        let next = match &r {
            FireOutcome::Started(_, next) => *next,
            FireOutcome::Skipped(next) => *next,
            _ => None,
        };
        match next {
            Some(at) => {
                let _ = self.registry.set_time(mission_id, TimeLabel::Next, at);
            },
            None => {},
        }
        assert(fired(old(self)@.jobs, self@.jobs, old(self)@.missions, begun, mission_id@, now, r));
        r
    }
}

/// The next occurrence that the outcome of a timer names.
pub open spec fn next_of(r: FireOutcome) -> Option<Timestamp> {
    match r {
        FireOutcome::Started(_, next) => next,
        FireOutcome::Skipped(next) => next,
        _ => None,
    }
}

/// What the end of a run leaves behind.
#[derive(Debug)]
pub struct Finished {
    /// The record of the run as the store holds it.
    pub record: Backup,
    /// The mission as it stands now, or why the registry did not take the
    /// ticket back.
    pub mission: Result<Mission, RegistryError>,
    /// How many records retention has pruned.
    pub pruned: usize,
    /// What becomes of the staged data.
    pub finalize: Finalize,
    /// `IoFailure` after a run that failed; nothing after one that went
    /// through.
    pub failure: Option<EngineError>,
}

impl Finished {
    /// What the user is notified of after this run, as far as the settings
    /// let it through: of the new artifact after a run that went through,
    /// of the failure after one that failed.
    pub fn notice(&self, settings: &NotifyConfig) -> (r: Option<Notice>)
        ensures
            r == (if self.failure is None && settings.lets_through(Notice::Created) {
                Some(Notice::Created)
            } else if self.failure is Some && settings.lets_through(Notice::Failed) {
                Some(Notice::Failed)
            } else {
                None
            }),
    {
        let kind = match self.failure {
            None => Notice::Created,
            Some(_) => Notice::Failed,
        };
        if settings.allows(kind) {
            Some(kind)
        } else {
            None
        }
    }
}

/// The record of a run as it is stored: the record that the executor
/// made, owned by the mission of the ticket, with the next ordinal of the
/// table and `now` for its instants.
pub open spec fn stored_record(
    db: DatabaseView,
    plan: PlanView,
    mission_id: Seq<char>,
    result: WriteResult,
    now: Timestamp,
) -> BackupView {
    BackupView {
        id: next_ordinal(db.backups.len()) as i32,
        backup_id: plan.artifact_id,
        mission_id,
        create_at: now,
        update_at: now,
        ..record_of(plan, result, now)
    }
}

/// The records of the store after the end of a run: the record is added,
/// and after a run that went through the history of the mission is pruned
/// by the retention of the procedure that the ticket holds. After a
/// failure nothing is pruned.
pub open spec fn records_after_run(
    db: DatabaseView,
    plan: PlanView,
    taken: SnapshotView,
    result: WriteResult,
    now: Timestamp,
) -> DatabaseView {
    let mid = taken.mission.mission_id;
    let added = DatabaseView {
        backups: db.backups.push(stored_record(db, plan, mid, result, now)),
        ..db
    };
    if result is Written {
        retained(added, mid, rule_of(taken.procedure), now)
    } else {
        added
    }
}

/// The store after the end of a run. The records are those of
/// [`records_after_run`]. Where the registry took the ticket back, the
/// live row of the mission gets the state of `held`, the mission as the
/// registry holds it after the run; where it refused the ticket, the rows
/// of the mission table are as before.
pub open spec fn store_after_run(
    db: DatabaseView,
    plan: PlanView,
    taken: SnapshotView,
    result: WriteResult,
    now: Timestamp,
    held: Option<MissionView>,
) -> DatabaseView {
    let kept = records_after_run(db, plan, taken, result, now);
    match held {
        Some(m) => DatabaseView {
            missions: rewritten(
                kept.missions,
                mission_selected(Some(m.mission_id)),
                mission_settled(m),
            ),
            ..kept
        },
        None => kept,
    }
}

/// The mission as the registry holds it after the run of a ticket that it
/// took back; nothing where it refuses the ticket.
pub open spec fn held_after_run(
    missions: Seq<SnapshotView>,
    id: Seq<char>,
    trigger: TriggerKind,
    fired: Timestamp,
    outcome: ExecutionOutcome,
) -> Option<MissionView> {
    if in_flight(missions, id) {
        Some(after_run(mission_of(missions, id), trigger, fired, outcome))
    } else {
        None
    }
}

/// The end of a run keeps every live mission with a live procedure: it
/// adds and prunes records and writes the state of the mission, and
/// touches neither a procedure nor what a mission refers to.
pub proof fn lemma_run_keeps_procedures(
    db: DatabaseView,
    plan: PlanView,
    taken: SnapshotView,
    result: WriteResult,
    now: Timestamp,
    held: Option<MissionView>,
)
    requires
        missions_have_procedures(db),
    ensures
        missions_have_procedures(store_after_run(db, plan, taken, result, now, held)),
{
    let post = store_after_run(db, plan, taken, result, now, held);
    assert(procedures_stay(db, post));
    assert forall|i: int|
        0 <= i < post.missions.len() && !(#[trigger] post.missions[i]).is_deleted implies has_live_procedure(
        post,
        post.missions[i].procedure_id,
    ) by {
        lemma_found_again(db, post, db.missions[i].procedure_id);
    }
}

/// How many records retention prunes at the end of a run: after a run
/// that went through, the live records of the mission that the rule of its
/// procedure prunes, the new record counted in; after a failure none.
pub open spec fn pruned_after_run(
    db: DatabaseView,
    plan: PlanView,
    taken: SnapshotView,
    result: WriteResult,
    now: Timestamp,
) -> nat {
    let mid = taken.mission.mission_id;
    let added = DatabaseView {
        backups: db.backups.push(stored_record(db, plan, mid, result, now)),
        ..db
    };
    if result is Written {
        count_of(
            added.backups,
            is_doomed(history_of(added, mid), rule_of(taken.procedure), now, mid),
        )
    } else {
        0
    }
}

/// Ends a run at `now`.
///
/// The executor makes the record of the run, and the store takes it in,
/// also where the mission was marked as deleted while the run was under
/// way. The registry takes the ticket back, so that the mission is armed
/// again however the run ended; `next_runtime` is the next occurrence of
/// the schedule of a cron mission. The state of the mission after the run
/// is written to its row in the store. After a run that went through, the
/// history of the mission is pruned. The answer says what was stored, how
/// the mission stands, how many records were pruned and what becomes of
/// the staged data. Each ticket that is given back leaves exactly one
/// record, pruned or not: a fire that was skipped got no ticket and leaves
/// none.
pub fn finish_execution(
    db: &mut Database,
    registry: &mut Registry,
    ticket: ExecutionTicket,
    plan: &BackupPlan,
    result: WriteResult,
    next_runtime: Option<Timestamp>,
    now: Timestamp,
) -> (done: Finished)
    ensures
        final(db)@ == store_after_run(
            old(db)@,
            plan@,
            ticket.taken(),
            result,
            now,
            held_after_run(
                old(registry)@,
                ticket.id(),
                ticket.taken().procedure.trigger,
                ticket.fired(),
                ExecutionOutcome { succeeded: result is Written, next_runtime },
            ),
        ),
        final(registry)@ == step(
            old(registry)@,
            Step::End(
                ticket.id(),
                ticket.taken().procedure.trigger,
                ticket.fired(),
                ExecutionOutcome { succeeded: result is Written, next_runtime },
            ),
        ),
        final(db)@.backups.len() == old(db)@.backups.len() + 1,
        done.record@ == stored_record(
            old(db)@,
            plan@,
            ticket.taken().mission.mission_id,
            result,
            now,
        ),
        done.finalize == (if result is Written {
            Finalize::Commit
        } else {
            Finalize::Discard
        }),
        done.mission is Ok ==> done.mission->Ok_0@.status == MissionStatus::Running,
        done.failure == (if result is Written {
            None
        } else {
            Some(EngineError::IoFailure)
        }),
        done.pruned == pruned_after_run(old(db)@, plan@, ticket.taken(), result, now),
        match done.mission {
            Ok(m) => in_flight(old(registry)@, ticket.id()) && m@ == after_run(
                mission_of(old(registry)@, ticket.id()),
                ticket.taken().procedure.trigger,
                ticket.fired(),
                ExecutionOutcome { succeeded: result is Written, next_runtime },
            ),
            Err(RegistryError::NotFound) => !known(old(registry)@, ticket.id()),
            Err(RegistryError::InvalidTransition) => known(old(registry)@, ticket.id())
                && !in_flight(old(registry)@, ticket.id()),
        },
{
    let succeeded = match &result {
        WriteResult::Written(_) => true,
        WriteResult::Failed(_) => false,
    };
    let completion = complete(plan, result, now);
    let mut record = completion.record;
    let stored = append_backup(
        db,
        &mut record,
        &ticket.snapshot().mission.mission_id,
        plan.artifact_id.clone(),
        now,
    );
    let mut pruned: usize = 0;
    if succeeded {
        pruned =
        enforce_retention(
            db,
            ticket.snapshot().mission.mission_id.as_str(),
            &ticket.snapshot().procedure,
            now,
        );
    }
    let mission = registry.end_execution(ticket, ExecutionOutcome { succeeded, next_runtime });
    match &mission {
        Ok(held) => {
            settle_mission(db, held);
        },
        Err(_) => {},
    }
    let failure = if succeeded {
        None
    } else {
        Some(EngineError::IoFailure)
    };
    Finished { record: stored, mission, pruned, finalize: completion.finalize, failure }
}

/// How many rows and entries a compaction removed.
#[derive(Clone, Copy, Debug, PartialEq, Eq, Structural)]
pub struct Compacted {
    /// What each table of the store lost.
    pub rows: Removed,
    /// How many missions the registry dropped.
    pub entries: usize,
}

/// Compacts the store and the registry. Rows that are marked as deleted
/// are removed for good, missions that are marked as deleted leave the
/// registry unless a run of theirs is under way, and what remains is
/// numbered from 1. No identity changes, so that every reference that led
/// to a live row before leads to it afterwards.
pub fn compact(db: &mut Database, registry: &mut Registry) -> (r: Compacted)
    ensures
        final(db)@ == database_compacted(old(db)@),
        final(registry)@ == step(old(registry)@, Step::Compact),
        r.entries == old(registry)@.len() - final(registry)@.len(),
        r.rows.missions == count_of(old(db)@.missions, crate::db::mission::mission_is_deleted()),
        r.rows.procedures == count_of(
            old(db)@.procedures,
            crate::db::procedure::procedure_is_deleted(),
        ),
        r.rows.ignores == count_of(old(db)@.ignores, crate::db::ignore::ignore_is_deleted()),
        r.rows.backups == count_of(old(db)@.backups, crate::db::backup::backup_is_deleted()),
{
    let rows = compact_all(db);
    let entries = registry.compact();
    Compacted { rows, entries }
}

} // verus!
