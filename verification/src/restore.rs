//! Bringing the engine up from the store: at the start the registry learns
//! of the missions that the store holds, and the missions that were armed
//! are armed anew.

use vstd::prelude::*;
use crate::db::mission::{
    mission_selected, mission_settled, settle_mission, Mission, MissionStatus, MissionView,
};
use crate::db::table::rewritten;
use crate::db::{Database, DatabaseView};
use crate::engine::{armed, Engine, EngineError, EngineView};
use crate::missions::{snapshot_in_store, snapshot_of};
use crate::registry::{known, step, Step};
use crate::revived::{is_held, is_taken, is_up, lemma_brought_up, lemma_known_after};
use crate::time::Timestamp;

verus! {

/// What became of a row of the mission table when the engine was brought
/// up.
#[derive(Clone, Copy, Debug, PartialEq, Eq, Structural)]
pub enum Restored {
    /// The row was passed over: it is marked as deleted, its procedure is
    /// no live row, or the registry knows its mission already.
    Skipped,
    /// The registry took the mission in, paused as the store holds it.
    Paused,
    /// The registry took the mission in and it was armed anew.
    Armed,
    /// The registry took the mission in, but arming it was refused: it is
    /// paused now, in the registry and in the store.
    Refused(EngineError),
}

/// What the answer of the engine to arming means for the row.
pub open spec fn outcome_of(a: Result<Mission, EngineError>) -> Restored {
    match a {
        Ok(_) => Restored::Armed,
        Err(e) => Restored::Refused(e),
    }
}

/// The status of a mission after the engine was asked to arm it.
pub open spec fn status_after(a: Result<Mission, EngineError>) -> MissionStatus {
    match a {
        Ok(_) => MissionStatus::Running,
        Err(_) => MissionStatus::Paused,
    }
}

/// The store with the status `status` written to the live rows of the
/// mission of `row`. Nothing else of these rows changes.
pub open spec fn with_status(db: DatabaseView, row: MissionView, status: MissionStatus) -> DatabaseView {
    DatabaseView {
        missions: rewritten(
            db.missions,
            mission_selected(Some(row.mission_id)),
            mission_settled(MissionView { status, ..row }),
        ),
        ..db
    }
}

/// What bringing up the row at `i` of the mission table does.
///
/// A row that is marked as deleted, whose procedure is no live row of the
/// store, or whose mission the registry knows already is passed over, and
/// so is a place behind the table: nothing changes. Else the registry
/// takes the mission in with its procedure and its rules, paused. Where
/// the store holds the mission as paused, that is all. Where the store
/// holds it as armed, or with a run under way that can no longer be, the
/// engine is asked to arm it at `now` with the debounce window
/// `window_ms`: where it does, the mission has its timer or its watch
/// again and the store holds it as `Running`; where it refuses, the
/// mission stays paused in the registry and the store holds it as
/// `Paused`.
pub open spec fn mission_restored(
    db: DatabaseView,
    db_after: DatabaseView,
    pre: EngineView,
    post: EngineView,
    i: int,
    window_ms: u64,
    now: Timestamp,
    r: Restored,
) -> bool {
    let row = db.missions[i];
    let id = row.mission_id;
    match snapshot_in_store(db, row) {
        Some(s) if 0 <= i < db.missions.len() && !known(pre.missions, id) => {
            let taken = EngineView { missions: step(pre.missions, Step::Upsert(s)), ..pre };
            if row.status == MissionStatus::Paused {
                r == Restored::Paused && post == taken && db_after == db
            } else {
                exists|a: Result<Mission, EngineError>|
                    {
                        &&& #[trigger] armed(taken, post, id, window_ms, now, a)
                        &&& r == outcome_of(a)
                        &&& db_after == with_status(db, row, status_after(a))
                    }
            }
        },
        _ => r == Restored::Skipped && post == pre && db_after == db,
    }
}

/// Brings up the row at `i` of the mission table. See
/// [`mission_restored`].
pub fn restore_mission(
    db: &mut Database,
    engine: &mut Engine,
    i: usize,
    window_ms: u64,
    now: Timestamp,
) -> (r: Restored)
    ensures
        mission_restored(
            old(db)@,
            final(db)@,
            old(engine)@,
            final(engine)@,
            i as int,
            window_ms,
            now,
            r,
        ),
{
    if i >= db.missions.len() {
        return Restored::Skipped;
    }
    let row = db.missions[i].clone();
    assert(row@ == db@.missions[i as int]);
    let snapshot = match snapshot_of(db, &row) {
        Some(s) => s,
        None => {
            return Restored::Skipped;
        },
    };
    if engine.registry.knows(row.mission_id.as_str()) {
        return Restored::Skipped;
    }
    let _ = engine.registry.upsert(snapshot);
    match row.status {
        MissionStatus::Paused => Restored::Paused,
        _ => {
            let a = engine.arm(row.mission_id.as_str(), window_ms, now);
            let mut held = row;
            let r = match &a {
                Ok(_) => {
                    held.status = MissionStatus::Running;
                    Restored::Armed
                },
                Err(e) => {
                    held.status = MissionStatus::Paused;
                    Restored::Refused(*e)
                },
            };
            settle_mission(db, &held);
            r
        },
    }
}

/// 1 where arming was refused, else 0.
pub open spec fn refusals(r: Restored) -> int {
    if r is Refused {
        1
    } else {
        0
    }
}

/// What bringing up the first `n` rows of the mission table does: the
/// rows are taken in the order of the table, each as [`mission_restored`]
/// says, each on what the rows before it left. `refused` is how many of
/// them could not be armed anew.
pub open spec fn restored_through(
    db: DatabaseView,
    db_after: DatabaseView,
    pre: EngineView,
    post: EngineView,
    n: nat,
    window_ms: u64,
    now: Timestamp,
    refused: int,
) -> bool
    decreases n,
{
    if n == 0 {
        db_after == db && post == pre && refused == 0
    } else {
        exists|db_before: DatabaseView, before: EngineView, r: Restored|
            {
                &&& #[trigger] mission_restored(
                    db_before,
                    db_after,
                    before,
                    post,
                    n - 1,
                    window_ms,
                    now,
                    r,
                )
                &&& restored_through(
                    db,
                    db_before,
                    pre,
                    before,
                    (n - 1) as nat,
                    window_ms,
                    now,
                    refused - refusals(r),
                )
            }
    }
}

/// Brings the engine up from the store at `now`: every row of the mission
/// table is brought up, in the order of the table. See
/// [`restored_through`]. Returns how many missions could not be armed
/// anew.
///
/// Afterwards the registry knows the mission of every live row whose
/// procedure is a live row. And the mission of every row that was taken
/// is up: of each mission the first live row counts, if its procedure is
/// a live row and the registry did not know the mission before. Where the
/// store held such a mission as armed it is armed again, with its timer
/// or its watch, unless its cron expression is no schedule; and the store
/// holds it with the status that the registry holds. See [`is_up`].
pub fn restore(db: &mut Database, engine: &mut Engine, window_ms: u64, now: Timestamp) -> (refused:
    usize)
    ensures
        restored_through(
            old(db)@,
            final(db)@,
            old(engine)@,
            final(engine)@,
            old(db)@.missions.len(),
            window_ms,
            now,
            refused as int,
        ),
        forall|i: int| #[trigger]
            is_taken(old(db)@, old(engine)@, i) ==> is_up(
                old(db)@,
                final(db)@,
                final(engine)@,
                i,
            ),
        forall|i: int| #[trigger]
            is_held(old(db)@, i) ==> known(
                final(engine)@.missions,
                old(db)@.missions[i].mission_id,
            ),
{
    engine.registry.one_entry_each();
    let mut refused: usize = 0;
    let n = db.missions.len();
    let mut i: usize = 0;
    while i < n
        invariant
            i <= n,
            n == old(db)@.missions.len(),
            refused <= i,
            restored_through(
                old(db)@,
                db@,
                old(engine)@,
                engine@,
                i as nat,
                window_ms,
                now,
                refused as int,
            ),
        decreases n - i,
    {
        let ghost db_before = db@;
        let ghost before = engine@;
        let ghost count = refused as int;
        let r = restore_mission(db, engine, i, window_ms, now);
        match r {
            Restored::Refused(_) => {
                refused = refused + 1;
            },
            _ => {},
        }
        i = i + 1;
        assert(mission_restored(db_before, db@, before, engine@, i - 1, window_ms, now, r));
        assert(restored_through(
            old(db)@,
            db_before,
            old(engine)@,
            before,
            (i - 1) as nat,
            window_ms,
            now,
            refused - refusals(r),
        ));
    }
    proof {
        assert forall|k: int| #[trigger] is_held(old(db)@, k) implies known(
            engine@.missions,
            old(db)@.missions[k].mission_id,
        ) by {
            lemma_known_after(
                old(db)@,
                db@,
                old(engine)@,
                engine@,
                window_ms,
                now,
                refused as int,
                k,
            );
        }
        assert forall|k: int| #[trigger] is_taken(old(db)@, old(engine)@, k) implies is_up(
            old(db)@,
            db@,
            engine@,
            k,
        ) by {
            lemma_brought_up(
                old(db)@,
                db@,
                old(engine)@,
                engine@,
                window_ms,
                now,
                refused as int,
                k,
            );
        }
    }
    refused
}

} // verus!
