//! What holds once the engine was brought up from the store: every
//! mission that the store holds with a live procedure is known to the
//! registry, a mission that was armed is armed again with its timer or
//! its watch, and one that cannot be armed is paused in the registry and
//! in the store.

use vstd::prelude::*;
use crate::cron::parse::schedule_of;
use crate::db::mission::{is_mission_at, mission_selected, MissionStatus, MissionView};
use crate::db::procedure::{
    has_live_procedure, lemma_live_procedure_is_found, procedure_selected, ProcedureView,
    TriggerKind,
};
use crate::db::owners::{lemma_found_again, missions_have_procedures, procedures_stay};
use crate::db::table::{next_ordinal, none_of};
use crate::db::DatabaseView;
use crate::engine::{armed, EngineError, EngineView};
use crate::db::mission::Mission;
use crate::missions::snapshot_in_store;
use crate::monitor::{watch_of, watch_of_other, WatchView};
use crate::registry::{
    admissible, distinct_ids, index_of, is_live, known, lemma_index_of, mission_of, step,
    SnapshotView, Step,
};
use crate::restore::{
    mission_restored, outcome_of, refusals, restored_through, status_after, with_status, Restored,
};
use crate::scheduler::{job_of, job_of_other, JobView};
use crate::tickets::{lemma_append, lemma_replace};
use crate::time::Timestamp;

verus! {

/// A mission of this procedure can be armed: it is not one with a cron
/// expression that is no schedule.
pub open spec fn can_be_armed(p: ProcedureView) -> bool {
    !(p.trigger == TriggerKind::Cron && schedule_of(p.cron_expression) is None)
}

/// The status with which a mission comes up: armed where the store held
/// it as armed, or with a run under way, and it can be armed; else paused.
pub open spec fn status_on_start(row: MissionView, p: ProcedureView) -> MissionStatus {
    if row.status != MissionStatus::Paused && can_be_armed(p) {
        MissionStatus::Running
    } else {
        MissionStatus::Paused
    }
}

/// The row at `i` is one that the engine takes when it is brought up: the
/// first live row of its mission, with a live procedure, of a mission
/// that the registry did not know before.
pub open spec fn is_taken(db: DatabaseView, pre: EngineView, i: int) -> bool {
    &&& is_mission_at(db, db.missions[i].mission_id, i)
    &&& has_live_procedure(db, db.missions[i].procedure_id)
    &&& !known(pre.missions, db.missions[i].mission_id)
}

/// The row at `i` is a live row whose procedure is a live row.
pub open spec fn is_held(db: DatabaseView, i: int) -> bool {
    &&& 0 <= i < db.missions.len()
    &&& !db.missions[i].is_deleted
    &&& has_live_procedure(db, db.missions[i].procedure_id)
}

/// The mission `id` has a timer.
pub open spec fn has_job(e: EngineView, id: Seq<char>) -> bool {
    !none_of(e.jobs, job_of(id))
}

/// The mission `id` has a watch.
pub open spec fn has_watch(e: EngineView, id: Seq<char>) -> bool {
    !none_of(e.watches, watch_of(id))
}

/// The procedure of the row at `i`, as the store holds it.
pub open spec fn procedure_at(db: DatabaseView, i: int) -> ProcedureView {
    db.procedures.filter(procedure_selected(Some(db.missions[i].procedure_id)))[0]
}

/// The mission of the row at `i` is up: the registry holds it as a live
/// mission with the status that [`status_on_start`] gives, the row has
/// that status and is otherwise as it was, and a mission that is armed
/// has its timer, where it goes by cron, or its watch, where it is
/// monitored.
pub open spec fn is_up(db: DatabaseView, db_after: DatabaseView, post: EngineView, i: int) -> bool {
    let row = db.missions[i];
    let id = row.mission_id;
    let procedure = procedure_at(db, i);
    let status = status_on_start(row, procedure);
    &&& is_live(post.missions, id)
    &&& mission_of(post.missions, id).status == status
    &&& db_after.missions[i] == (MissionView { status, ..row })
    &&& status == MissionStatus::Running && procedure.trigger == TriggerKind::Cron ==> has_job(
        post,
        id,
    )
    &&& status == MissionStatus::Running && procedure.trigger == TriggerKind::Monitor
        ==> has_watch(post, id)
}

/// The rows of `later` are the rows of `db` but for what a run or a change
/// of status writes: no row came or went, and each has its identity, its
/// procedure and its mark of deletion.
spec fn same_rows(db: DatabaseView, later: DatabaseView) -> bool {
    &&& later.procedures == db.procedures
    &&& later.ignores == db.ignores
    &&& later.missions.len() == db.missions.len()
    &&& forall|j: int|
        0 <= j < db.missions.len() ==> {
            &&& (#[trigger] later.missions[j]).mission_id == db.missions[j].mission_id
            &&& later.missions[j].procedure_id == db.missions[j].procedure_id
            &&& later.missions[j].is_deleted == db.missions[j].is_deleted
        }
}

/// The first row of a mission that is still to come is as it was, and the
/// registry knows its mission only if it did so at the start.
spec fn is_untouched(
    db: DatabaseView,
    pre: EngineView,
    later: DatabaseView,
    e: EngineView,
    j: int,
) -> bool {
    &&& later.missions[j] == db.missions[j]
    &&& known(e.missions, db.missions[j].mission_id) == known(
        pre.missions,
        db.missions[j].mission_id,
    )
}

/// What holds after the first `n` rows were brought up.
spec fn brought_up(
    db: DatabaseView,
    pre: EngineView,
    later: DatabaseView,
    e: EngineView,
    n: int,
) -> bool {
    &&& distinct_ids(e.missions)
    &&& same_rows(db, later)
    &&& forall|j: int|
        n <= j && #[trigger] is_mission_at(db, db.missions[j].mission_id, j) ==> is_untouched(
            db,
            pre,
            later,
            e,
            j,
        )
    &&& forall|j: int| 0 <= j < n && #[trigger] is_taken(db, pre, j) ==> is_up(db, later, e, j)
    &&& forall|j: int|
        0 <= j < n && #[trigger] is_held(db, j) ==> known(e.missions, db.missions[j].mission_id)
}

/// The entry with which the registry takes in a mission that it did not
/// know.
spec fn entry_of(entries: Seq<SnapshotView>, s: SnapshotView) -> SnapshotView {
    SnapshotView {
        mission: MissionView {
            id: next_ordinal(entries.len()) as i32,
            status: MissionStatus::Paused,
            ..s.mission
        },
        ..s
    }
}

/// Taking in a mission that the registry did not know adds its entry,
/// paused, and leaves every other mission as it was.
proof fn lemma_taken_in(entries: Seq<SnapshotView>, s: SnapshotView)
    requires
        distinct_ids(entries),
        !known(entries, s.mission.mission_id),
        admissible(s),
    ensures
        step(entries, Step::Upsert(s)) == entries.push(entry_of(entries, s)),
        distinct_ids(step(entries, Step::Upsert(s))),
        is_live(step(entries, Step::Upsert(s)), s.mission.mission_id),
        index_of(step(entries, Step::Upsert(s)), s.mission.mission_id) == entries.len(),
        forall|other: Seq<char>|
            other != s.mission.mission_id ==> #[trigger] known(
                step(entries, Step::Upsert(s)),
                other,
            ) == known(entries, other),
        forall|other: Seq<char>|
            other != s.mission.mission_id && known(entries, other) ==> #[trigger] mission_of(
                step(entries, Step::Upsert(s)),
                other,
            ) == mission_of(entries, other),
{
    let e = entry_of(entries, s);
    lemma_append(entries, e);
    lemma_index_of(entries.push(e), s.mission.mission_id, entries.len() as int);
}

/// Arming a live, paused mission makes it `Running` and leaves every
/// other mission as it was.
proof fn lemma_armed_in(entries: Seq<SnapshotView>, id: Seq<char>)
    requires
        distinct_ids(entries),
        is_live(entries, id),
        mission_of(entries, id).status == MissionStatus::Paused,
    ensures
        distinct_ids(step(entries, Step::SetStatus(id, MissionStatus::Running))),
        is_live(step(entries, Step::SetStatus(id, MissionStatus::Running)), id),
        mission_of(step(entries, Step::SetStatus(id, MissionStatus::Running)), id).status
            == MissionStatus::Running,
        forall|other: Seq<char>|
            other != id ==> #[trigger] known(
                step(entries, Step::SetStatus(id, MissionStatus::Running)),
                other,
            ) == known(entries, other),
        forall|other: Seq<char>|
            other != id && known(entries, other) ==> #[trigger] mission_of(
                step(entries, Step::SetStatus(id, MissionStatus::Running)),
                other,
            ) == mission_of(entries, other),
{
    let i = index_of(entries, id);
    let m = MissionView { status: MissionStatus::Running, ..mission_of(entries, id) };
    lemma_replace(entries, id, SnapshotView { mission: m, ..entries[i] });
}

/// Setting the timer of a mission gives it one and takes none away from
/// another mission.
proof fn lemma_job_set(jobs: Seq<JobView>, job: JobView, other: Seq<char>)
    ensures
        !none_of(jobs.filter(job_of_other(job.mission_id)).push(job), job_of(job.mission_id)),
        other != job.mission_id && !none_of(jobs, job_of(other)) ==> !none_of(
            jobs.filter(job_of_other(job.mission_id)).push(job),
            job_of(other),
        ),
{
    let kept = jobs.filter(job_of_other(job.mission_id));
    let after = kept.push(job);
    assert((job_of(job.mission_id))(after[kept.len() as int]));
    if other != job.mission_id && !none_of(jobs, job_of(other)) {
        let k = choose|k: int| 0 <= k < jobs.len() && (job_of(other))(#[trigger] jobs[k]);
        jobs.lemma_filter_contains(job_of_other(job.mission_id), k);
        let m = choose|m: int| 0 <= m < kept.len() && kept[m] == jobs[k];
        assert((job_of(other))(after[m]));
    }
}

/// Setting the watch of a mission gives it one and takes none away from
/// another mission.
proof fn lemma_watch_set(watches: Seq<WatchView>, watch: WatchView, other: Seq<char>)
    ensures
        !none_of(
            watches.filter(watch_of_other(watch.mission_id)).push(watch),
            watch_of(watch.mission_id),
        ),
        other != watch.mission_id && !none_of(watches, watch_of(other)) ==> !none_of(
            watches.filter(watch_of_other(watch.mission_id)).push(watch),
            watch_of(other),
        ),
{
    let kept = watches.filter(watch_of_other(watch.mission_id));
    let after = kept.push(watch);
    assert((watch_of(watch.mission_id))(after[kept.len() as int]));
    if other != watch.mission_id && !none_of(watches, watch_of(other)) {
        let k = choose|k: int| 0 <= k < watches.len() && (watch_of(other))(#[trigger] watches[k]);
        watches.lemma_filter_contains(watch_of_other(watch.mission_id), k);
        let m = choose|m: int| 0 <= m < kept.len() && kept[m] == watches[k];
        assert((watch_of(other))(after[m]));
    }
}

/// A row that is passed over leaves everything as it is, and it is no
/// row that the engine takes.
proof fn lemma_row_skipped(
    db: DatabaseView,
    pre: EngineView,
    later: DatabaseView,
    e: EngineView,
    k: int,
)
    requires
        0 <= k < db.missions.len(),
        brought_up(db, pre, later, e, k),
        snapshot_in_store(later, later.missions[k]) is None || known(
            e.missions,
            later.missions[k].mission_id,
        ),
    ensures
        brought_up(db, pre, later, e, k + 1),
{
    if is_taken(db, pre, k) {
        assert(is_untouched(db, pre, later, e, k));
        lemma_live_procedure_is_found(db, db.missions[k].procedure_id);
        assert(false);
    }
    if is_held(db, k) {
        lemma_live_procedure_is_found(db, db.missions[k].procedure_id);
        assert(later.missions[k].procedure_id == db.missions[k].procedure_id);
    }
}

/// The engine with the mission of `s` taken in.
spec fn taken_in(e: EngineView, s: SnapshotView) -> EngineView {
    EngineView { missions: step(e.missions, Step::Upsert(s)), ..e }
}

/// What a row that is taken leaves for the rows of other missions: each
/// row of another mission is as before, a mission that was up is up, and
/// the registry has learnt of no mission but this one.
spec fn others_kept(
    later: DatabaseView,
    e: EngineView,
    after_db: DatabaseView,
    after: EngineView,
    x: Seq<char>,
) -> bool {
    &&& after_db.procedures == later.procedures
    &&& after_db.ignores == later.ignores
    &&& after_db.missions.len() == later.missions.len()
    &&& forall|j: int|
        0 <= j < later.missions.len() ==> {
            &&& (#[trigger] after_db.missions[j]).mission_id == later.missions[j].mission_id
            &&& after_db.missions[j].procedure_id == later.missions[j].procedure_id
            &&& after_db.missions[j].is_deleted == later.missions[j].is_deleted
            &&& later.missions[j].mission_id != x ==> after_db.missions[j] == later.missions[j]
        }
    &&& distinct_ids(after.missions)
    &&& forall|y: Seq<char>|
        y != x ==> #[trigger] known(after.missions, y) == known(e.missions, y)
    &&& forall|y: Seq<char>|
        y != x && known(e.missions, y) ==> #[trigger] mission_of(after.missions, y) == mission_of(
            e.missions,
            y,
        )
    &&& forall|y: Seq<char>| y != x && has_job(e, y) ==> #[trigger] has_job(after, y)
    &&& forall|y: Seq<char>| y != x && has_watch(e, y) ==> #[trigger] has_watch(after, y)
}

/// Where a row of the mission `x` was taken and the other missions were
/// kept, what held after the rows before it holds after it too, once the
/// mission of the row is up.
proof fn lemma_row_kept(
    db: DatabaseView,
    pre: EngineView,
    later: DatabaseView,
    e: EngineView,
    after_db: DatabaseView,
    after: EngineView,
    k: int,
)
    requires
        0 <= k < db.missions.len(),
        brought_up(db, pre, later, e, k),
        !later.missions[k].is_deleted,
        !known(e.missions, later.missions[k].mission_id),
        others_kept(later, e, after_db, after, later.missions[k].mission_id),
        known(after.missions, later.missions[k].mission_id),
        is_taken(db, pre, k) ==> is_up(db, after_db, after, k),
    ensures
        brought_up(db, pre, after_db, after, k + 1),
{
    let x = later.missions[k].mission_id;
    assert(x == db.missions[k].mission_id);
    assert forall|j: int|
        k + 1 <= j && #[trigger] is_mission_at(
            db,
            db.missions[j].mission_id,
            j,
        ) implies is_untouched(db, pre, after_db, after, j) by {
        assert(is_untouched(db, pre, later, e, j));
        let y = db.missions[j].mission_id;
        if y == x {
            assert((mission_selected(Some(y)))(db.missions[k]));
        }
    }
    assert forall|j: int| 0 <= j < k + 1 && #[trigger] is_taken(db, pre, j) implies is_up(
        db,
        after_db,
        after,
        j,
    ) by {
        if j < k {
            assert(is_up(db, later, e, j));
            let y = db.missions[j].mission_id;
            assert(known(e.missions, y));
            assert(has_job(e, y) ==> has_job(after, y));
            assert(has_watch(e, y) ==> has_watch(after, y));
        }
    }
    assert forall|j: int| 0 <= j < k + 1 && #[trigger] is_held(db, j) implies known(
        after.missions,
        db.missions[j].mission_id,
    ) by {
        let y = db.missions[j].mission_id;
        if j < k && y != x {
            assert(known(e.missions, y));
        }
    }
}

/// What the store holds for a live row with a live procedure can be taken
/// in by the registry, and it is the row with its procedure.
proof fn lemma_snapshot(later: DatabaseView, k: int, s: SnapshotView)
    requires
        0 <= k < later.missions.len(),
        snapshot_in_store(later, later.missions[k]) == Some(s),
    ensures
        admissible(s),
        s.mission == later.missions[k],
        s.procedure == procedure_at(later, k),
{
    let p = procedure_selected(Some(later.missions[k].procedure_id));
    later.procedures.lemma_filter_pred(p, 0);
}

/// A row that the store holds as paused is taken in, and that is all.
proof fn lemma_row_paused(
    db: DatabaseView,
    pre: EngineView,
    later: DatabaseView,
    e: EngineView,
    s: SnapshotView,
    k: int,
)
    requires
        0 <= k < db.missions.len(),
        brought_up(db, pre, later, e, k),
        snapshot_in_store(later, later.missions[k]) == Some(s),
        !known(e.missions, later.missions[k].mission_id),
        later.missions[k].status == MissionStatus::Paused,
    ensures
        brought_up(db, pre, later, taken_in(e, s), k + 1),
{
    let x = later.missions[k].mission_id;
    let after = taken_in(e, s);
    lemma_snapshot(later, k, s);
    lemma_taken_in(e.missions, s);
    assert(others_kept(later, e, later, after, x));
    if is_taken(db, pre, k) {
        assert(is_untouched(db, pre, later, e, k));
        assert(procedure_at(db, k) == procedure_at(later, k));
        assert(after.missions[index_of(after.missions, x)] == entry_of(e.missions, s));
        assert(later.missions[k] == (MissionView {
            status: MissionStatus::Paused,
            ..db.missions[k]
        }));
    }
    lemma_row_kept(db, pre, later, e, later, after, k);
}

/// A row that the store holds as armed is taken in, and the engine is
/// asked to arm it.
proof fn lemma_row_armed(
    db: DatabaseView,
    pre: EngineView,
    later: DatabaseView,
    e: EngineView,
    s: SnapshotView,
    after_db: DatabaseView,
    after: EngineView,
    k: int,
    window_ms: u64,
    now: Timestamp,
    a: Result<Mission, EngineError>,
)
    requires
        0 <= k < db.missions.len(),
        brought_up(db, pre, later, e, k),
        snapshot_in_store(later, later.missions[k]) == Some(s),
        !known(e.missions, later.missions[k].mission_id),
        later.missions[k].status != MissionStatus::Paused,
        armed(taken_in(e, s), after, later.missions[k].mission_id, window_ms, now, a),
        after_db == with_status(
            later,
            later.missions[k],
            status_after(a),
        ),
    ensures
        brought_up(db, pre, after_db, after, k + 1),
{
    let row = later.missions[k];
    let x = row.mission_id;
    let t = taken_in(e, s);
    lemma_snapshot(later, k, s);
    lemma_taken_in(e.missions, s);
    let entry = t.missions[index_of(t.missions, x)];
    assert(entry == entry_of(e.missions, s));
    assert(mission_of(t.missions, x) == entry.mission);
    lemma_armed_in(t.missions, x);
    if a is Ok {
        match entry.procedure.trigger {
            TriggerKind::Cron => {
                let schedule = schedule_of(entry.procedure.cron_expression)->Some_0;
                let next = choose|next: Option<i64>|
                    after.jobs == t.jobs.filter(job_of_other(x)).push(
                        JobView { mission_id: x, schedule, next_fire: next },
                    );
                let job = JobView { mission_id: x, schedule, next_fire: next };
                lemma_job_set(t.jobs, job, x);
                assert forall|y: Seq<char>| y != x && has_job(e, y) implies #[trigger] has_job(
                    after,
                    y,
                ) by {
                    lemma_job_set(t.jobs, job, y);
                }
            },
            TriggerKind::Monitor => {
                let watch = after.watches[after.watches.len() - 1];
                lemma_watch_set(t.watches, watch, x);
                assert forall|y: Seq<char>| y != x && has_watch(e, y) implies #[trigger] has_watch(
                    after,
                    y,
                ) by {
                    lemma_watch_set(t.watches, watch, y);
                }
            },
            TriggerKind::Reserved => {},
        }
    }
    assert(others_kept(later, e, after_db, after, x));
    if is_taken(db, pre, k) {
        assert(is_untouched(db, pre, later, e, k));
        assert(procedure_at(db, k) == procedure_at(later, k));
        assert((mission_selected(Some(x)))(row));
    }
    lemma_row_kept(db, pre, later, e, after_db, after, k);
}

/// Bringing up one row keeps what held after the rows before it.
proof fn lemma_row(
    db: DatabaseView,
    pre: EngineView,
    later: DatabaseView,
    e: EngineView,
    after_db: DatabaseView,
    after: EngineView,
    k: int,
    window_ms: u64,
    now: Timestamp,
    r: Restored,
)
    requires
        0 <= k < db.missions.len(),
        brought_up(db, pre, later, e, k),
        mission_restored(later, after_db, e, after, k, window_ms, now, r),
    ensures
        brought_up(db, pre, after_db, after, k + 1),
{
    let row = later.missions[k];
    let x = row.mission_id;
    match snapshot_in_store(later, row) {
        Some(s) => {
            if known(e.missions, x) {
                lemma_row_skipped(db, pre, later, e, k);
            } else if row.status == MissionStatus::Paused {
                lemma_row_paused(db, pre, later, e, s, k);
            } else {
                let a = choose|a: Result<Mission, EngineError>|
                    {
                        &&& #[trigger] armed(taken_in(e, s), after, x, window_ms, now, a)
                        &&& r == outcome_of(a)
                        &&& after_db == with_status(
                            later,
                            row,
                            status_after(a),
                        )
                    };
                lemma_row_armed(db, pre, later, e, s, after_db, after, k, window_ms, now, a);
            }
        },
        None => {
            lemma_row_skipped(db, pre, later, e, k);
        },
    }
}

/// Bringing up the first `n` rows leaves every row among them that the
/// engine takes with its mission up.
proof fn lemma_rows(
    db: DatabaseView,
    db_after: DatabaseView,
    pre: EngineView,
    post: EngineView,
    n: nat,
    window_ms: u64,
    now: Timestamp,
    refused: int,
)
    requires
        distinct_ids(pre.missions),
        n <= db.missions.len(),
        restored_through(db, db_after, pre, post, n, window_ms, now, refused),
    ensures
        brought_up(db, pre, db_after, post, n as int),
    decreases n,
{
    if n > 0 {
        let (later, e, r) = choose|later: DatabaseView, e: EngineView, r: Restored|
            {
                &&& #[trigger] mission_restored(later, db_after, e, post, n - 1, window_ms, now, r)
                &&& restored_through(
                    db,
                    later,
                    pre,
                    e,
                    (n - 1) as nat,
                    window_ms,
                    now,
                    refused - refusals(r),
                )
            };
        lemma_rows(
            db,
            later,
            pre,
            e,
            (n - 1) as nat,
            window_ms,
            now,
            refused - refusals(r),
        );
        lemma_row(db, pre, later, e, db_after, post, n - 1, window_ms, now, r);
    }
}

/// Once the engine was brought up from the store, the registry knows the
/// mission of every live row whose procedure is a live row.
pub proof fn lemma_known_after(
    db: DatabaseView,
    db_after: DatabaseView,
    pre: EngineView,
    post: EngineView,
    window_ms: u64,
    now: Timestamp,
    refused: int,
    i: int,
)
    requires
        distinct_ids(pre.missions),
        restored_through(db, db_after, pre, post, db.missions.len(), window_ms, now, refused),
        is_held(db, i),
    ensures
        known(post.missions, db.missions[i].mission_id),
{
    lemma_rows(db, db_after, pre, post, db.missions.len(), window_ms, now, refused);
}

/// Once the engine was brought up from the store, the mission of every
/// row that it took is up: the registry knows it, a mission that the
/// store held as armed is armed with its timer or its watch unless it
/// cannot be armed, and the store holds every mission with the status that
/// the registry holds.
pub proof fn lemma_brought_up(
    db: DatabaseView,
    db_after: DatabaseView,
    pre: EngineView,
    post: EngineView,
    window_ms: u64,
    now: Timestamp,
    refused: int,
    i: int,
)
    requires
        distinct_ids(pre.missions),
        restored_through(db, db_after, pre, post, db.missions.len(), window_ms, now, refused),
        is_taken(db, pre, i),
    ensures
        is_up(db, db_after, post, i),
{
    lemma_rows(db, db_after, pre, post, db.missions.len(), window_ms, now, refused);
}

/// Bringing the engine up keeps every live mission with a live procedure:
/// it writes the status of missions and touches neither a procedure nor
/// what a mission refers to.
pub proof fn lemma_start_keeps_procedures(
    db: DatabaseView,
    db_after: DatabaseView,
    pre: EngineView,
    post: EngineView,
    window_ms: u64,
    now: Timestamp,
    refused: int,
)
    requires
        distinct_ids(pre.missions),
        restored_through(db, db_after, pre, post, db.missions.len(), window_ms, now, refused),
        missions_have_procedures(db),
    ensures
        missions_have_procedures(db_after),
{
    lemma_rows(db, db_after, pre, post, db.missions.len(), window_ms, now, refused);
    assert(procedures_stay(db, db_after));
    assert forall|i: int|
        0 <= i < db_after.missions.len() && !(
        #[trigger] db_after.missions[i]).is_deleted implies has_live_procedure(
        db_after,
        db_after.missions[i].procedure_id,
    ) by {
        lemma_found_again(db, db_after, db.missions[i].procedure_id);
    }
}

} // verus!
