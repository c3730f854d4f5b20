//! Creating, changing, arming and deleting missions: the store and the
//! registry in step.
//!
//! A mission is written to the store and made known to the registry
//! together with the procedure that it refers to and the live ignore rules
//! of that procedure, as the store holds them. Its status changes in the
//! registry first, and the store follows.

use vstd::prelude::*;
use crate::db::ignore::{ignore_selected, query_ignore_record};
use crate::db::mission::{
    create_mission_record_at, delete_mission_record_at, has_live_mission,
    lemma_live_mission_is_selected, live_mission_exists, mission_deleted_at, mission_overwrite,
    mission_selected, mission_settled, settle_mission, update_mission_record_at, Mission,
    MissionStatus, MissionView,
};
use crate::db::procedure::{
    lemma_live_procedure_is_found, procedure_selected, query_procedure_record,
};
use crate::db::table::{lemma_rewritten_none, next_ordinal, rewritten};
use crate::db::{Database, DatabaseView};
use crate::engine::{armed, disarmed, stood_down, Engine, EngineError, EngineView};
use crate::ident::{is_uuid_text, random_uuid};
use crate::registry::{
    is_live, known, mission_of, step, MissionSnapshot, Registry, SnapshotView, Step,
};
use crate::time::{clock_now, Timestamp};

verus! {

/// The mission `mission` with what the store holds for it: the first live
/// procedure that it refers to and the live ignore rules of that
/// procedure. Nothing where the store has no such procedure, or where the
/// mission is marked as deleted.
pub open spec fn snapshot_in_store(db: DatabaseView, mission: MissionView) -> Option<SnapshotView> {
    let procedures = db.procedures.filter(procedure_selected(Some(mission.procedure_id)));
    if procedures.len() > 0 && !mission.is_deleted {
        Some(
            SnapshotView {
                mission,
                procedure: procedures[0],
                ignores: db.ignores.filter(ignore_selected(Some(mission.procedure_id))),
            },
        )
    } else {
        None
    }
}

/// The mission with what the store holds for it, if the store holds what
/// it takes.
pub(crate) fn snapshot_of(db: &Database, mission: &Mission) -> (r: Option<MissionSnapshot>)
    ensures
        match r {
            Some(s) => snapshot_in_store(db@, mission@) == Some(s@),
            None => snapshot_in_store(db@, mission@) is None,
        },
{
    if mission.is_deleted {
        return None;
    }
    let procedures = match query_procedure_record(db, Some(mission.procedure_id.as_str())) {
        Ok(rows) => rows,
        Err(_) => Vec::new(),
    };
    if procedures.len() == 0 {
        return None;
    }
    let ignores = match query_ignore_record(db, Some(mission.procedure_id.as_str())) {
        Ok(rows) => rows,
        Err(_) => Vec::new(),
    };
    Some(MissionSnapshot { mission: mission.clone(), procedure: procedures[0].clone(), ignores })
}

/// The row of a new mission: `given` under the identity `id`, paused, with
/// the next ordinal of the table and `now` for its creation and its last
/// update.
pub open spec fn new_mission(
    db: DatabaseView,
    given: MissionView,
    id: Seq<char>,
    now: Timestamp,
) -> MissionView {
    MissionView {
        id: next_ordinal(db.missions.len()) as i32,
        mission_id: id,
        status: MissionStatus::Paused,
        create_at: now,
        update_at: now,
        ..given
    }
}

/// What creating a mission does. Where the store holds a live procedure
/// for the mission and the identity is not taken, the row of the new
/// mission is added to the store and the mission is made known to the
/// registry, paused. Else nothing changes: without such a procedure, or
/// for a mission that is marked as deleted, the answer is `NotFound`, and
/// for an identity that the registry knows already `InvalidTransition`.
pub open spec fn mission_made(
    db: DatabaseView,
    db_after: DatabaseView,
    missions: Seq<SnapshotView>,
    missions_after: Seq<SnapshotView>,
    given: MissionView,
    kept: MissionView,
    id: Seq<char>,
    now: Timestamp,
    r: Result<Mission, EngineError>,
) -> bool {
    let row = new_mission(db, given, id, now);
    match snapshot_in_store(db, row) {
        Some(s) => if known(missions, id) {
            &&& r == Err::<Mission, EngineError>(EngineError::InvalidTransition)
            &&& db_after == db
            &&& missions_after == missions
            &&& kept == given
        } else {
            &&& r matches Ok(m) && m@ == row
            &&& kept == row
            &&& db_after == (DatabaseView { missions: db.missions.push(row), ..db })
            &&& missions_after == step(missions, Step::Upsert(s))
        },
        None => {
            &&& r == Err::<Mission, EngineError>(EngineError::NotFound)
            &&& db_after == db
            &&& missions_after == missions
            &&& kept == given
        },
    }
}

/// Creates the mission `data` under the identity `mission_id` at `now`.
/// See [`mission_made`].
pub fn create_mission_at(
    db: &mut Database,
    registry: &mut Registry,
    data: &mut Mission,
    mission_id: String,
    now: Timestamp,
) -> (r: Result<Mission, EngineError>)
    ensures
        mission_made(
            old(db)@,
            final(db)@,
            old(registry)@,
            final(registry)@,
            old(data)@,
            final(data)@,
            mission_id@,
            now,
            r,
        ),
{
    let mut row = data.clone();
    row.id = crate::db::table::ordinal_after(db.missions.len());
    row.mission_id = mission_id.clone();
    row.status = MissionStatus::Paused;
    row.create_at = now;
    row.update_at = now;
    let snapshot = match snapshot_of(db, &row) {
        Some(s) => s,
        None => {
            return Err(EngineError::NotFound);
        },
    };
    if registry.knows(mission_id.as_str()) {
        return Err(EngineError::InvalidTransition);
    }
    proof {
        lemma_live_procedure_is_found(db@, row@.procedure_id);
    }
    match create_mission_record_at(db, data, mission_id, now) {
        Ok(stored) => {
            let _ = registry.upsert(snapshot);
            Ok(stored)
        },
        Err(_) => Err(EngineError::NotFound),
    }
}

/// Creates the mission `data` under a fresh random identity, stamped with
/// the current time. See [`mission_made`].
pub fn create_mission(db: &mut Database, registry: &mut Registry, data: &mut Mission) -> (r: Result<
    Mission,
    EngineError,
>)
    ensures
        exists|id: Seq<char>, now: Timestamp|
            is_uuid_text(id) && #[trigger] mission_made(
                old(db)@,
                final(db)@,
                old(registry)@,
                final(registry)@,
                old(data)@,
                final(data)@,
                id,
                now,
                r,
            ),
{
    let now = clock_now();
    let id = random_uuid();
    let r = create_mission_at(db, registry, data, id, now);
    r
}

/// The row of a changed mission: `given` with the status that the
/// registry holds and `now` for its last update.
pub open spec fn changed_mission(
    missions: Seq<SnapshotView>,
    given: MissionView,
    now: Timestamp,
) -> MissionView {
    MissionView {
        status: mission_of(missions, given.mission_id).status,
        update_at: now,
        ..given
    }
}

/// What changing a mission does. Where the registry and the store both
/// hold the mission as a live one and the store holds a live procedure
/// for it, the live row of the mission in the store is overwritten and
/// keeps its ordinal and its status, and the registry takes the mission
/// over with its procedure and its rules. The status is not touched: the
/// registry keeps the status it holds. The answer is the mission as the
/// registry holds it afterwards. Else nothing changes and the answer is
/// `NotFound`.
pub open spec fn mission_changed(
    db: DatabaseView,
    db_after: DatabaseView,
    missions: Seq<SnapshotView>,
    missions_after: Seq<SnapshotView>,
    given: MissionView,
    kept: MissionView,
    now: Timestamp,
    r: Result<Mission, EngineError>,
) -> bool {
    let id = given.mission_id;
    let row = changed_mission(missions, given, now);
    match snapshot_in_store(db, row) {
        Some(s) if is_live(missions, id) && has_live_mission(db, id) => {
            &&& r matches Ok(m) && m@ == (MissionView { id: mission_of(missions, id).id, ..row })
            &&& kept == row
            &&& db_after == (DatabaseView {
                missions: rewritten(
                    db.missions,
                    mission_selected(Some(id)),
                    mission_overwrite(MissionView { update_at: now, ..given }),
                ),
                ..db
            })
            &&& missions_after == step(missions, Step::Upsert(s))
        },
        _ => {
            &&& r == Err::<Mission, EngineError>(EngineError::NotFound)
            &&& db_after == db
            &&& missions_after == missions
            &&& kept == given
        },
    }
}

/// Changes the mission that has the identity of `data` to `data` at
/// `now`. See [`mission_changed`].
pub fn update_mission_at(
    db: &mut Database,
    registry: &mut Registry,
    data: &mut Mission,
    now: Timestamp,
) -> (r: Result<Mission, EngineError>)
    ensures
        mission_changed(
            old(db)@,
            final(db)@,
            old(registry)@,
            final(registry)@,
            old(data)@,
            final(data)@,
            now,
            r,
        ),
{
    let held = match registry.get(data.mission_id.as_str()) {
        Some(s) => s,
        None => {
            return Err(EngineError::NotFound);
        },
    };
    let mut row = data.clone();
    row.status = held.mission.status;
    row.update_at = now;
    let snapshot = match snapshot_of(db, &row) {
        Some(s) => s,
        None => {
            return Err(EngineError::NotFound);
        },
    };
    if !live_mission_exists(db, data.mission_id.as_str()) {
        return Err(EngineError::NotFound);
    }
    proof {
        lemma_live_procedure_is_found(db@, row@.procedure_id);
        lemma_live_mission_is_selected(db@, row@.mission_id);
    }
    match update_mission_record_at(db, data, now) {
        Ok(_) => {},
        Err(_) => {
            return Err(EngineError::NotFound);
        },
    }
    data.status = held.mission.status;
    match registry.upsert(snapshot) {
        Ok(m) => Ok(m),
        Err(_) => Err(EngineError::NotFound),
    }
}

/// Changes the mission that has the identity of `data` to `data`, stamped
/// with the current time. See [`mission_changed`].
pub fn update_mission(db: &mut Database, registry: &mut Registry, data: &mut Mission) -> (r: Result<
    Mission,
    EngineError,
>)
    ensures
        exists|now: Timestamp| #[trigger]
            mission_changed(
                old(db)@,
                final(db)@,
                old(registry)@,
                final(registry)@,
                old(data)@,
                final(data)@,
                now,
                r,
            ),
{
    let now = clock_now();
    let r = update_mission_at(db, registry, data, now);
    r
}

/// What setting the status of a mission does. Arming is what
/// [`Engine::arm`] does at `now` with the debounce window `window_ms`, and
/// pausing what [`Engine::pause`] does. `Backuping` is never set from
/// outside: for a live mission that is an `InvalidTransition`, else
/// `NotFound`, and the engine stays as it is. Where the engine made the
/// change, the live row of the mission in the store gets the state of the
/// mission as the registry holds it; where it refused, the store stays as
/// it is.
pub open spec fn status_changed(
    db: DatabaseView,
    db_after: DatabaseView,
    pre: EngineView,
    post: EngineView,
    id: Seq<char>,
    target: MissionStatus,
    window_ms: u64,
    now: Timestamp,
    r: Result<Mission, EngineError>,
) -> bool {
    &&& match target {
        MissionStatus::Running => armed(pre, post, id, window_ms, now, r),
        MissionStatus::Paused => stood_down(
            pre,
            post,
            id,
            Step::SetStatus(id, MissionStatus::Paused),
            r,
        ),
        MissionStatus::Backuping => post == pre && r == Err::<Mission, EngineError>(
            if is_live(pre.missions, id) {
                EngineError::InvalidTransition
            } else {
                EngineError::NotFound
            },
        ),
    }
    &&& db_after == match r {
        Ok(m) => DatabaseView {
            missions: rewritten(
                db.missions,
                mission_selected(Some(m@.mission_id)),
                mission_settled(m@),
            ),
            ..db
        },
        Err(_) => db,
    }
}

/// Sets the status of the mission `mission_id` to `target` in the engine
/// and in the store. See [`status_changed`].
pub fn set_status(
    db: &mut Database,
    engine: &mut Engine,
    mission_id: &str,
    target: MissionStatus,
    window_ms: u64,
    now: Timestamp,
) -> (r: Result<Mission, EngineError>)
    ensures
        status_changed(
            old(db)@,
            final(db)@,
            old(engine)@,
            final(engine)@,
            mission_id@,
            target,
            window_ms,
            now,
            r,
        ),
{
    let r = match target {
        MissionStatus::Running => engine.arm(mission_id, window_ms, now),
        MissionStatus::Paused => engine.pause(mission_id),
        MissionStatus::Backuping => match engine.registry.get(mission_id) {
            Some(_) => Err(EngineError::InvalidTransition),
            None => Err(EngineError::NotFound),
        },
    };
    match &r {
        Ok(m) => {
            settle_mission(db, m);
        },
        Err(_) => {},
    }
    r
}

/// What deleting a mission does at `now`. The live row of the mission in
/// the store is marked as deleted at `now`, and where the registry holds
/// the mission as a live one it is marked as deleted there and its timer
/// and its watch are taken away; a run that is under way goes on. The
/// answer is `NotFound` where neither the store nor the registry holds the
/// mission as a live one, and nothing changes then.
pub open spec fn mission_removed(
    db: DatabaseView,
    db_after: DatabaseView,
    pre: EngineView,
    post: EngineView,
    id: Seq<char>,
    now: Timestamp,
    r: Result<(), EngineError>,
) -> bool {
    &&& db_after == (DatabaseView {
        missions: rewritten(db.missions, mission_selected(Some(id)), mission_deleted_at(now)),
        ..db
    })
    &&& post == if is_live(pre.missions, id) {
        disarmed(
            EngineView { missions: step(pre.missions, Step::Remove(id, now)), ..pre },
            id,
        )
    } else {
        pre
    }
    &&& r == if has_live_mission(db, id) || is_live(pre.missions, id) {
        Ok::<(), EngineError>(())
    } else {
        Err::<(), EngineError>(EngineError::NotFound)
    }
    &&& r is Err ==> db_after == db
}

/// Deletes the mission `mission_id` at `now`, in the store and in the
/// engine. See [`mission_removed`].
pub fn delete_mission_at(
    db: &mut Database,
    engine: &mut Engine,
    mission_id: &str,
    now: Timestamp,
) -> (r: Result<(), EngineError>)
    ensures
        mission_removed(old(db)@, final(db)@, old(engine)@, final(engine)@, mission_id@, now, r),
{
    proof {
        lemma_live_mission_is_selected(db@, mission_id@);
        if !has_live_mission(db@, mission_id@) {
            lemma_rewritten_none(
                db@.missions,
                mission_selected(Some(mission_id@)),
                mission_deleted_at(now),
            );
        }
    }
    let in_store = delete_mission_record_at(db, Some(mission_id), now);
    let in_engine = engine.delete_mission(mission_id, now);
    if in_store.is_ok() || in_engine.is_ok() {
        Ok(())
    } else {
        Err(EngineError::NotFound)
    }
}

/// Deletes the mission `mission_id` at the current time, in the store and
/// in the engine. See [`mission_removed`].
pub fn delete_mission(db: &mut Database, engine: &mut Engine, mission_id: &str) -> (r: Result<
    (),
    EngineError,
>)
    ensures
        exists|now: Timestamp| #[trigger]
            mission_removed(
                old(db)@,
                final(db)@,
                old(engine)@,
                final(engine)@,
                mission_id@,
                now,
                r,
            ),
{
    let now = clock_now();
    delete_mission_at(db, engine, mission_id, now)
}

} // verus!
