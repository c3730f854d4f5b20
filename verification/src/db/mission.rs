//! Missions: the rows that bind a source path, a destination and a
//! procedure, and the operations of the mission table.

use vstd::prelude::*;
use vstd::string::StringExecFns;
use crate::db::table::{
    compacted, count_of, first_at, first_is, is_count, key_text, lemma_compacted_empty,
    lemma_compacted_next, lemma_count_of_next, lemma_rewritten_none, next_ordinal, none_of,
    ordinal_after, rewritten,
};
use crate::db::backup::backup_is_blank;
use crate::db::ignore::ignore_is_blank;
use crate::cron::parse::schedule_of;
use crate::cron::CronSchedule;
use crate::db::procedure::{
    has_live_procedure, live_procedure_exists, procedure_selected, procedure_views,
    query_procedure_record, TriggerKind,
};
use crate::db::{Database, DatabaseView, DbError, Record};
use crate::ident::{is_uuid_text, random_uuid};
use crate::time::{clock_now, Timestamp};

verus! {

/// Where a mission stands: paused by the user, armed and waiting for its
/// trigger, or running a backup right now.
#[derive(Clone, Copy, Debug, PartialEq, Eq, Structural)]
pub enum MissionStatus {
    Paused,
    Running,
    Backuping,
}

impl MissionStatus {
    /// The number under which the status is stored.
    pub open spec fn spec_code(self) -> int {
        match self {
            MissionStatus::Paused => 0,
            MissionStatus::Running => 1,
            MissionStatus::Backuping => 2,
        }
    }

    /// The status stored under `code`, if there is one.
    pub open spec fn spec_from_code(code: int) -> Option<MissionStatus> {
        if code == 0 {
            Some(MissionStatus::Paused)
        } else if code == 1 {
            Some(MissionStatus::Running)
        } else if code == 2 {
            Some(MissionStatus::Backuping)
        } else {
            None
        }
    }

    /// The number under which the status is stored.
    pub fn code(self) -> (c: i16)
        ensures
            c == self.spec_code(),
    {
        match self {
            MissionStatus::Paused => 0,
            MissionStatus::Running => 1,
            MissionStatus::Backuping => 2,
        }
    }

    /// The status stored under `code`; `None` for any other number.
    pub fn from_code(code: i16) -> (r: Option<MissionStatus>)
        ensures
            r == Self::spec_from_code(code as int),
    {
        if code == 0 {
            Some(MissionStatus::Paused)
        } else if code == 1 {
            Some(MissionStatus::Running)
        } else if code == 2 {
            Some(MissionStatus::Backuping)
        } else {
            None
        }
    }
}

/// What kind of thing the source path of a mission names.
#[derive(Clone, Copy, Debug, PartialEq, Eq, Structural)]
pub enum PathType {
    Unknown,
    File,
    Directory,
}

impl PathType {
    /// The number under which the path type is stored.
    pub open spec fn spec_code(self) -> int {
        match self {
            PathType::Unknown => 0,
            PathType::File => 1,
            PathType::Directory => 2,
        }
    }

    /// The path type stored under `code`, if there is one.
    pub open spec fn spec_from_code(code: int) -> Option<PathType> {
        if code == 0 {
            Some(PathType::Unknown)
        } else if code == 1 {
            Some(PathType::File)
        } else if code == 2 {
            Some(PathType::Directory)
        } else {
            None
        }
    }

    /// The number under which the path type is stored.
    pub fn code(self) -> (c: i16)
        ensures
            c == self.spec_code(),
    {
        match self {
            PathType::Unknown => 0,
            PathType::File => 1,
            PathType::Directory => 2,
        }
    }

    /// The path type stored under `code`; `None` for any other number.
    pub fn from_code(code: i16) -> (r: Option<PathType>)
        ensures
            r == Self::spec_from_code(code as int),
    {
        if code == 0 {
            Some(PathType::Unknown)
        } else if code == 1 {
            Some(PathType::File)
        } else if code == 2 {
            Some(PathType::Directory)
        } else {
            None
        }
    }
}

/// Every status and every path type is found again under its own code.
pub proof fn lemma_mission_codes_round_trip(status: MissionStatus, path_type: PathType)
    ensures
        MissionStatus::spec_from_code(status.spec_code()) == Some(status),
        PathType::spec_from_code(path_type.spec_code()) == Some(path_type),
{
}

/// A backup job: what to protect, where to put it, and by which procedure.
///
/// `mission_id` is the identity of the row and `procedure_id` refers to the
/// procedure by its identity. `id` is a display ordinal only.
#[derive(Debug, PartialEq, Eq)]
pub struct Mission {
    pub id: i32,
    pub mission_id: String,
    pub procedure_id: String,
    pub name: String,
    pub status: MissionStatus,
    pub description: String,
    /// Absolute path of what is protected.
    pub src_path: String,
    /// Absolute path under which artifacts are kept.
    pub dst_path: String,
    pub path_type: PathType,
    /// When a cron mission fires next.
    pub next_runtime: Timestamp,
    /// When a monitor mission was last triggered.
    pub last_trigger: Timestamp,
    pub reserved_0: String,
    pub reserved_1: String,
    pub reserved_2: String,
    pub create_at: Timestamp,
    pub update_at: Timestamp,
    pub is_deleted: bool,
    pub delete_at: Timestamp,
}

/// The mathematical content of a [`Mission`].
pub struct MissionView {
    pub id: i32,
    pub mission_id: Seq<char>,
    pub procedure_id: Seq<char>,
    pub name: Seq<char>,
    pub status: MissionStatus,
    pub description: Seq<char>,
    pub src_path: Seq<char>,
    pub dst_path: Seq<char>,
    pub path_type: PathType,
    pub next_runtime: Timestamp,
    pub last_trigger: Timestamp,
    pub reserved_0: Seq<char>,
    pub reserved_1: Seq<char>,
    pub reserved_2: Seq<char>,
    pub create_at: Timestamp,
    pub update_at: Timestamp,
    pub is_deleted: bool,
    pub delete_at: Timestamp,
}

impl View for Mission {
    type V = MissionView;

    open spec fn view(&self) -> MissionView {
        MissionView {
            id: self.id,
            mission_id: self.mission_id@,
            procedure_id: self.procedure_id@,
            name: self.name@,
            status: self.status,
            description: self.description@,
            src_path: self.src_path@,
            dst_path: self.dst_path@,
            path_type: self.path_type,
            next_runtime: self.next_runtime,
            last_trigger: self.last_trigger,
            reserved_0: self.reserved_0@,
            reserved_1: self.reserved_1@,
            reserved_2: self.reserved_2@,
            create_at: self.create_at,
            update_at: self.update_at,
            is_deleted: self.is_deleted,
            delete_at: self.delete_at,
        }
    }
}

impl Clone for Mission {
    fn clone(&self) -> (r: Self)
        ensures
            r == *self,
    {
        Mission {
            id: self.id,
            mission_id: self.mission_id.clone(),
            procedure_id: self.procedure_id.clone(),
            name: self.name.clone(),
            status: self.status,
            description: self.description.clone(),
            src_path: self.src_path.clone(),
            dst_path: self.dst_path.clone(),
            path_type: self.path_type,
            next_runtime: self.next_runtime,
            last_trigger: self.last_trigger,
            reserved_0: self.reserved_0.clone(),
            reserved_1: self.reserved_1.clone(),
            reserved_2: self.reserved_2.clone(),
            create_at: self.create_at,
            update_at: self.update_at,
            is_deleted: self.is_deleted,
            delete_at: self.delete_at,
        }
    }
}

/// The content of a mission that nobody has filled in yet: paused, live,
/// every text empty, every instant `now`, not yet placed in a table.
pub open spec fn blank_mission(
    mission_id: Seq<char>,
    procedure_id: Seq<char>,
    now: Timestamp,
) -> MissionView {
    MissionView {
        id: 0,
        mission_id,
        procedure_id,
        name: Seq::empty(),
        status: MissionStatus::Paused,
        description: Seq::empty(),
        src_path: Seq::empty(),
        dst_path: Seq::empty(),
        path_type: PathType::Unknown,
        next_runtime: now,
        last_trigger: now,
        reserved_0: Seq::empty(),
        reserved_1: Seq::empty(),
        reserved_2: Seq::empty(),
        create_at: now,
        update_at: now,
        is_deleted: false,
        delete_at: now,
    }
}

impl Mission {
    /// A blank mission with the given identities and instant.
    pub fn blank(mission_id: String, procedure_id: String, now: Timestamp) -> (m: Mission)
        ensures
            m@ == blank_mission(mission_id@, procedure_id@, now),
    {
        Mission {
            id: 0,
            mission_id,
            procedure_id,
            name: String::new(),
            status: MissionStatus::Paused,
            description: String::new(),
            src_path: String::new(),
            dst_path: String::new(),
            path_type: PathType::Unknown,
            next_runtime: now,
            last_trigger: now,
            reserved_0: String::new(),
            reserved_1: String::new(),
            reserved_2: String::new(),
            create_at: now,
            update_at: now,
            is_deleted: false,
            delete_at: now,
        }
    }
}

/// `m` is a blank mission with hyphenated UUIDs for its identities.
pub open spec fn mission_is_blank(m: MissionView) -> bool {
    &&& is_uuid_text(m.mission_id)
    &&& is_uuid_text(m.procedure_id)
    &&& m == blank_mission(m.mission_id, m.procedure_id, m.create_at)
}

impl Default for Mission {
    /// A blank mission with fresh random identities, stamped with the
    /// current time.
    fn default() -> (m: Mission)
        ensures
            mission_is_blank(m@),
    {
        let now = clock_now();
        Mission::blank(random_uuid(), random_uuid(), now)
    }
}

/// The rows that a query for `key` returns: the live rows, and of these
/// only the one identified by `key` where a key is given.
pub open spec fn mission_selected(key: Option<Seq<char>>) -> spec_fn(MissionView) -> bool {
    |m: MissionView| !m.is_deleted && (key matches Some(k) ==> m.mission_id == k)
}

/// Replaces a row by `data`. The row keeps its ordinal, its status and
/// what says whether and when it was deleted: none of these is changed by
/// an update.
pub open spec fn mission_overwrite(data: MissionView) -> spec_fn(MissionView) -> MissionView {
    |m: MissionView|
        MissionView {
            id: m.id,
            status: m.status,
            is_deleted: m.is_deleted,
            delete_at: m.delete_at,
            ..data
        }
}

/// The changes of status that may be asked for: arming a paused mission
/// and pausing an armed one.
pub open spec fn may_switch(from: MissionStatus, to: MissionStatus) -> bool {
    (from == MissionStatus::Paused && to == MissionStatus::Running) || (from
        == MissionStatus::Running && to == MissionStatus::Paused)
}

/// The mission table has a live row with the identity `key`.
pub open spec fn has_live_mission(db: DatabaseView, key: Seq<char>) -> bool {
    exists|i: int|
        0 <= i < db.missions.len() && !(#[trigger] db.missions[i]).is_deleted
            && db.missions[i].mission_id == key
}

/// Some live mission refers to the procedure `key`.
pub open spec fn has_mission_of(db: DatabaseView, key: Seq<char>) -> bool {
    exists|i: int|
        0 <= i < db.missions.len() && !(#[trigger] db.missions[i]).is_deleted
            && db.missions[i].procedure_id == key
}

/// The outcome of an operation that hands a row back, as the contracts
/// hold it.
pub open spec fn mission_outcome(r: Result<Mission, DbError>) -> Result<MissionView, DbError> {
    match r {
        Ok(row) => Ok(row@),
        Err(e) => Err(e),
    }
}

/// Sets the next run time of a row.
pub open spec fn mission_with_next_runtime(time: Timestamp) -> spec_fn(MissionView) -> MissionView {
    |m: MissionView| MissionView { next_runtime: time, ..m }
}

/// Sets the last trigger time of a row.
pub open spec fn mission_with_last_trigger(time: Timestamp) -> spec_fn(MissionView) -> MissionView {
    |m: MissionView| MissionView { last_trigger: time, ..m }
}

/// Gives a row the state of `held`: its status, its next run time and its
/// last trigger time.
pub open spec fn mission_settled(held: MissionView) -> spec_fn(MissionView) -> MissionView {
    |m: MissionView|
        MissionView {
            status: held.status,
            next_runtime: held.next_runtime,
            last_trigger: held.last_trigger,
            ..m
        }
}

/// Marks a row as deleted at `now`.
pub open spec fn mission_deleted_at(now: Timestamp) -> spec_fn(MissionView) -> MissionView {
    |m: MissionView| MissionView { is_deleted: true, delete_at: now, ..m }
}

/// The views of a sequence of missions, row by row.
pub open spec fn mission_views(rows: Seq<Mission>) -> Seq<MissionView> {
    rows.map_values(|m: Mission| m@)
}

/// The rows that are marked as deleted.
pub open spec fn mission_is_deleted() -> spec_fn(MissionView) -> bool {
    |m: MissionView| m.is_deleted
}

/// The rows that are not marked as deleted.
pub open spec fn mission_is_live() -> spec_fn(MissionView) -> bool {
    |m: MissionView| !m.is_deleted
}

/// Puts a row in its place after compaction: the row at place `place`
/// (counted from 0) gets the ordinal `place + 1` and is otherwise kept.
pub open spec fn mission_placed() -> spec_fn(MissionView, int) -> MissionView {
    |m: MissionView, place: int| MissionView { id: next_ordinal(place as nat) as i32, ..m }
}

/// The table after compaction: the live rows of `rows` in their order,
/// numbered from 1.
pub open spec fn missions_compacted(rows: Seq<MissionView>) -> Seq<MissionView> {
    compacted(rows, mission_is_live(), mission_placed())
}

/// What may be done to the rows that an update picks.
enum MissionChange {
    Overwrite(Mission),
    NextRuntime(Timestamp),
    LastTrigger(Timestamp),
    Delete(Timestamp),
    Settle(Mission),
}

impl MissionChange {
    spec fn effect(self) -> spec_fn(MissionView) -> MissionView {
        match self {
            MissionChange::Overwrite(data) => mission_overwrite(data@),
            MissionChange::NextRuntime(time) => mission_with_next_runtime(time),
            MissionChange::LastTrigger(time) => mission_with_last_trigger(time),
            MissionChange::Delete(now) => mission_deleted_at(now),
            MissionChange::Settle(held) => mission_settled(held@),
        }
    }

    fn apply(&self, row: &Mission) -> (r: Mission)
        ensures
            r@ == (self.effect())(row@),
    {
        match self {
            MissionChange::Overwrite(data) => {
                let mut r = data.clone();
                r.id = row.id;
                r.status = row.status;
                r.is_deleted = row.is_deleted;
                r.delete_at = row.delete_at;
                r
            },
            MissionChange::NextRuntime(time) => {
                let mut r = row.clone();
                r.next_runtime = *time;
                r
            },
            MissionChange::LastTrigger(time) => {
                let mut r = row.clone();
                r.last_trigger = *time;
                r
            },
            MissionChange::Delete(now) => {
                let mut r = row.clone();
                r.is_deleted = true;
                r.delete_at = *now;
                r
            },
            MissionChange::Settle(held) => {
                let mut r = row.clone();
                r.status = held.status;
                r.next_runtime = held.next_runtime;
                r.last_trigger = held.last_trigger;
                r
            },
        }
    }
}

/// Applies `change` to every live row identified by `key`. Returns how many
/// rows that were, and the first of them as it stands afterwards.
fn rewrite_missions(rows: &mut Vec<Mission>, key: &String, change: &MissionChange) -> (r: (
    usize,
    Option<Mission>,
))
    ensures
        mission_views(final(rows)@) == rewritten(
            mission_views(old(rows)@),
            mission_selected(Some(key@)),
            change.effect(),
        ),
        r.0 == count_of(mission_views(old(rows)@), mission_selected(Some(key@))),
        first_is(
            mission_views(old(rows)@),
            mission_views(final(rows)@),
            mission_selected(Some(key@)),
            match r.1 {
                Some(row) => Some(row@),
                None => None,
            },
        ),
{
    let ghost pre = mission_views(rows@);
    let ghost p = mission_selected(Some(key@));
    let ghost f = change.effect();
    let mut first: Option<Mission> = None;
    let mut count: usize = 0;
    let mut i: usize = 0;
    while i < rows.len()
        invariant
            i <= rows.len(),
            rows.len() == pre.len(),
            p == mission_selected(Some(key@)),
            f == change.effect(),
            count == count_of(pre.take(i as int), p),
            count <= i,
            forall|j: int| 0 <= j < i ==> mission_views(rows@)[j] == rewritten(pre, p, f)[j],
            forall|j: int| i <= j < pre.len() ==> mission_views(rows@)[j] == pre[j],
            match first {
                Some(row) => exists|k: int|
                    k < i && first_at(pre, p, k) && row@ == mission_views(rows@)[k],
                None => forall|j: int| 0 <= j < i ==> !p(#[trigger] pre[j]),
            },
        decreases rows.len() - i,
    {
        proof {
            lemma_count_of_next(pre, p, i as int);
        }
        if !rows[i].is_deleted && rows[i].mission_id == *key {
            let row = change.apply(&rows[i]);
            if first.is_none() {
                first = Some(row.clone());
                assert(first_at(pre, p, i as int));
            }
            rows.set(i, row);
            count = count + 1;
        }
        assert forall|j: int| 0 <= j < i + 1 implies mission_views(rows@)[j] == rewritten(
            pre,
            p,
            f,
        )[j] by {
        }
        i = i + 1;
    }
    assert(pre.take(i as int) =~= pre);
    (count, first)
}

/// The place of the mission `key` in the table: the place of the first
/// live row with that identity.
pub open spec fn is_mission_at(db: DatabaseView, key: Seq<char>, i: int) -> bool {
    first_at(db.missions, mission_selected(Some(key)), i)
}

/// What adding a mission at `now` under the identity `id` does. The
/// procedure that the mission refers to has to be a live row of the store;
/// then `stored`, the new last row of the table, is `given` under that
/// identity, paused whatever status was handed in, with the next ordinal of
/// the table and `now` for its creation and its last update, and the data
/// is brought up to date. Else the answer is `NotFound` and nothing
/// changes.
pub open spec fn mission_created(
    pre: DatabaseView,
    post: DatabaseView,
    given: MissionView,
    kept: MissionView,
    id: Seq<char>,
    now: Timestamp,
    r: Result<MissionView, DbError>,
) -> bool {
    let stored = MissionView {
        id: next_ordinal(pre.missions.len()) as i32,
        mission_id: id,
        status: MissionStatus::Paused,
        create_at: now,
        update_at: now,
        ..given
    };
    if has_live_procedure(pre, given.procedure_id) {
        &&& r == Ok::<MissionView, DbError>(stored)
        &&& kept == stored
        &&& post == (DatabaseView { missions: pre.missions.push(stored), ..pre })
    } else {
        &&& r == Err::<MissionView, DbError>(DbError::NotFound)
        &&& kept == given
        &&& post == pre
    }
}

/// What an update at `now` does. Where a live row has the identity of
/// `given` and the procedure that `given` refers to is a live row, every
/// live row with that identity is overwritten by `given`, last updated at
/// `now`; each such row keeps its ordinal and its status. The first of
/// these rows comes back and the data gets the new instant. Else the answer
/// is `NotFound` and nothing changes; rows that are marked as deleted are
/// never rewritten.
pub open spec fn mission_updated(
    pre: DatabaseView,
    post: DatabaseView,
    given: MissionView,
    kept: MissionView,
    now: Timestamp,
    r: Result<MissionView, DbError>,
) -> bool {
    let pick = mission_selected(Some(given.mission_id));
    let data = MissionView { update_at: now, ..given };
    if !none_of(pre.missions, pick) && has_live_procedure(pre, given.procedure_id) {
        &&& kept == data
        &&& post == (DatabaseView {
            missions: rewritten(pre.missions, pick, mission_overwrite(data)),
            ..pre
        })
        &&& r matches Ok(row) && first_is(pre.missions, post.missions, pick, Some(row))
    } else {
        &&& r == Err::<MissionView, DbError>(DbError::NotFound)
        &&& kept == given
        &&& post == pre
    }
}

/// What a deletion by key does at `now`. Where a key is given and a live
/// row has that identity, every live row with it is marked as deleted at
/// `now`, and the answer is how many rows that were. Else the answer is
/// `NotFound` and nothing changes: a row that is marked as deleted already
/// keeps the instant of its deletion.
pub open spec fn mission_deleted(
    pre: DatabaseView,
    post: DatabaseView,
    key: Option<Seq<char>>,
    now: Timestamp,
    r: Result<usize, DbError>,
) -> bool {
    match key {
        Some(k) if !none_of(pre.missions, mission_selected(Some(k))) => {
            &&& post == (DatabaseView {
                missions: rewritten(
                    pre.missions,
                    mission_selected(Some(k)),
                    mission_deleted_at(now),
                ),
                ..pre
            })
            &&& is_count(r, count_of(pre.missions, mission_selected(Some(k))))
        },
        _ => post == pre && r == Err::<usize, DbError>(DbError::NotFound),
    }
}

/// Why the mission at `i` cannot be armed, if it cannot: the procedure
/// that it refers to is no live row of the store (`NotFound`), or the
/// mission is triggered by cron and the expression of its procedure is no
/// schedule (`InvalidCronExpression`).
pub open spec fn arming_refused(db: DatabaseView, i: int) -> Option<DbError> {
    let found = db.procedures.filter(procedure_selected(Some(db.missions[i].procedure_id)));
    if found.len() == 0 {
        Some(DbError::NotFound)
    } else if found[0].trigger == TriggerKind::Cron && schedule_of(found[0].cron_expression)
        is None {
        Some(DbError::InvalidCronExpression)
    } else {
        None
    }
}

/// What setting the status of the mission `key` does. The mission is the
/// first live row with that identity; without one the answer is
/// `NotFound`. Only a paused mission can be armed and only an armed one
/// paused: any other change, `Backuping` above all, is an
/// `InvalidTransition`. A mission is armed only where its procedure is a
/// live row and, for a cron mission, its expression is a schedule. Where
/// the change is made, the row has the new status and comes back, and no
/// other row is touched; every refusal leaves the store as it is.
pub open spec fn mission_status_set(
    pre: DatabaseView,
    post: DatabaseView,
    key: Seq<char>,
    status: MissionStatus,
    r: Result<MissionView, DbError>,
) -> bool {
    if none_of(pre.missions, mission_selected(Some(key))) {
        post == pre && r == Err::<MissionView, DbError>(DbError::NotFound)
    } else {
        exists|i: int|
            #![trigger pre.missions[i]]
            is_mission_at(pre, key, i) && if !may_switch(pre.missions[i].status, status) {
                post == pre && r == Err::<MissionView, DbError>(DbError::InvalidTransition)
            } else if status == MissionStatus::Running && arming_refused(pre, i) is Some {
                post == pre && r == Err::<MissionView, DbError>(arming_refused(pre, i)->Some_0)
            } else {
                let row = MissionView { status, ..pre.missions[i] };
                &&& post == (DatabaseView { missions: pre.missions.update(i, row), ..pre })
                &&& r == Ok::<MissionView, DbError>(row)
            }
    }
}

/// What setting an instant of the mission `key` does. With a label that
/// names one of the two instants and a live row with that identity, every
/// live row with it has `time` there afterwards, and the first of them
/// comes back. With any other label, or without such a row, the answer is
/// `NotFound` and nothing changes.
pub open spec fn mission_time_set(
    pre: DatabaseView,
    post: DatabaseView,
    label: Seq<char>,
    time: Timestamp,
    key: Seq<char>,
    r: Result<MissionView, DbError>,
) -> bool {
    let pick = mission_selected(Some(key));
    match TimeLabel::spec_parse(label) {
        Some(l) if !none_of(pre.missions, pick) => {
            &&& post == (DatabaseView {
                missions: rewritten(pre.missions, pick, l.effect(time)),
                ..pre
            })
            &&& r matches Ok(row) && first_is(pre.missions, post.missions, pick, Some(row))
        },
        _ => post == pre && r == Err::<MissionView, DbError>(DbError::NotFound),
    }
}

/// Setting a status leaves runs alone. Whatever is asked for and whatever
/// the answer, the rows that are `Backuping` afterwards are those that were
/// before: no run is started and none is ended by this way.
pub proof fn lemma_status_set_leaves_runs_alone(
    pre: DatabaseView,
    post: DatabaseView,
    key: Seq<char>,
    status: MissionStatus,
    r: Result<MissionView, DbError>,
)
    requires
        mission_status_set(pre, post, key, status, r),
    ensures
        post.missions.len() == pre.missions.len(),
        forall|i: int|
            0 <= i < pre.missions.len() ==> ((#[trigger] post.missions[i]).status
                == MissionStatus::Backuping <==> pre.missions[i].status
                == MissionStatus::Backuping),
        r matches Ok(row) ==> row.status != MissionStatus::Backuping,
{
}

/// An update keeps the status of every row.
pub proof fn lemma_update_keeps_status(
    pre: DatabaseView,
    post: DatabaseView,
    given: MissionView,
    kept: MissionView,
    now: Timestamp,
    r: Result<MissionView, DbError>,
)
    requires
        mission_updated(pre, post, given, kept, now, r),
    ensures
        post.missions.len() == pre.missions.len(),
        forall|i: int|
            0 <= i < pre.missions.len() ==> (#[trigger] post.missions[i]).status
                == pre.missions[i].status,
{
}

/// The place of the first live row with the identity `key`, if there is
/// one.
fn find_mission(db: &Database, key: &String) -> (r: Option<usize>)
    ensures
        match r {
            Some(i) => is_mission_at(db@, key@, i as int),
            None => none_of(db@.missions, mission_selected(Some(key@))),
        },
{
    let mut i: usize = 0;
    while i < db.missions.len()
        invariant
            i <= db.missions.len(),
            forall|j: int|
                0 <= j < i ==> !(mission_selected(Some(key@)))(#[trigger] db@.missions[j]),
        decreases db.missions.len() - i,
    {
        assert(db@.missions[i as int] == db.missions[i as int]@);
        if !db.missions[i].is_deleted && db.missions[i].mission_id == *key {
            return Some(i);
        }
        i = i + 1;
    }
    None
}

/// A mission is live in the store exactly where its identity selects a
/// row.
pub proof fn lemma_live_mission_is_selected(db: DatabaseView, key: Seq<char>)
    ensures
        has_live_mission(db, key) == !none_of(db.missions, mission_selected(Some(key))),
{
    if has_live_mission(db, key) {
        let i = choose|i: int|
            0 <= i < db.missions.len() && !(#[trigger] db.missions[i]).is_deleted
                && db.missions[i].mission_id == key;
        assert((mission_selected(Some(key)))(db.missions[i]));
    }
    if !none_of(db.missions, mission_selected(Some(key))) {
        let i = choose|i: int|
            0 <= i < db.missions.len() && (mission_selected(Some(key)))(#[trigger] db.missions[i]);
        assert(!db.missions[i].is_deleted && db.missions[i].mission_id == key);
    }
}

/// Writes the state of `held`, the mission as the registry holds it, to
/// the live rows of that mission: the status and the two times that a run
/// changes. The status of a row follows a run by this way alone.
pub(crate) fn settle_mission(db: &mut Database, held: &Mission)
    ensures
        final(db)@ == (DatabaseView {
            missions: rewritten(
                old(db)@.missions,
                mission_selected(Some(held@.mission_id)),
                mission_settled(held@),
            ),
            ..old(db)@
        }),
{
    let change = MissionChange::Settle(held.clone());
    let _ = rewrite_missions(&mut db.missions, &held.mission_id, &change);
}

/// Whether a live mission has the identity `key`.
pub fn live_mission_exists(db: &Database, key: &str) -> (r: bool)
    ensures
        r == has_live_mission(db@, key@),
{
    let k = String::from_str(key);
    match find_mission(db, &k) {
        Some(i) => {
            assert(db@.missions[i as int].mission_id == key@);
            true
        },
        None => {
            assert forall|j: int| 0 <= j < db@.missions.len() implies !(!(
            #[trigger] db@.missions[j]).is_deleted && db@.missions[j].mission_id == key@) by {
                assert(!(mission_selected(Some(key@)))(db@.missions[j]));
            }
            false
        },
    }
}

/// Whether some live mission refers to the procedure `key`.
pub fn mission_refers_to(db: &Database, key: &str) -> (r: bool)
    ensures
        r == has_mission_of(db@, key@),
{
    let k = String::from_str(key);
    let mut i: usize = 0;
    while i < db.missions.len()
        invariant
            i <= db.missions.len(),
            k@ == key@,
            forall|j: int|
                0 <= j < i ==> !(!(#[trigger] db@.missions[j]).is_deleted
                    && db@.missions[j].procedure_id == key@),
        decreases db.missions.len() - i,
    {
        assert(db@.missions[i as int] == db.missions[i as int]@);
        if !db.missions[i].is_deleted && db.missions[i].procedure_id == k {
            return true;
        }
        i = i + 1;
    }
    false
}

/// Adds `data` to the mission table under the identity `mission_id` at
/// `now`. See [`mission_created`].
pub fn create_mission_record_at(
    db: &mut Database,
    data: &mut Mission,
    mission_id: String,
    now: Timestamp,
) -> (r: Result<Mission, DbError>)
    ensures
        mission_created(
            old(db)@,
            final(db)@,
            old(data)@,
            final(data)@,
            mission_id@,
            now,
            mission_outcome(r),
        ),
{
    if !live_procedure_exists(db, data.procedure_id.as_str()) {
        return Err(DbError::NotFound);
    }
    data.id = ordinal_after(db.missions.len());
    data.mission_id = mission_id;
    data.status = MissionStatus::Paused;
    data.create_at = now;
    data.update_at = now;
    let stored = data.clone();
    db.missions.push(data.clone());
    assert(final(db)@.missions =~= old(db)@.missions.push(stored@));
    Ok(stored)
}

/// Adds `data` to the mission table under a fresh random identity, stamped
/// with the current time. See [`mission_created`].
pub fn create_mission_record(db: &mut Database, data: &mut Mission) -> (r: Result<Mission, DbError>)
    ensures
        exists|id: Seq<char>, now: Timestamp|
            is_uuid_text(id) && #[trigger] mission_created(
                old(db)@,
                final(db)@,
                old(data)@,
                final(data)@,
                id,
                now,
                mission_outcome(r),
            ),
{
    let now = clock_now();
    let mission_id = random_uuid();
    let ghost id = mission_id@;
    let r = create_mission_record_at(db, data, mission_id, now);
    assert(mission_created(old(db)@, db@, old(data)@, data@, id, now, mission_outcome(r)));
    r
}

/// Overwrites the live rows that have the identity of `data` with `data`,
/// last updated at `now`. See [`mission_updated`].
pub fn update_mission_record_at(db: &mut Database, data: &mut Mission, now: Timestamp) -> (r: Result<
    Mission,
    DbError,
>)
    ensures
        mission_updated(old(db)@, final(db)@, old(data)@, final(data)@, now, mission_outcome(r)),
{
    if !live_procedure_exists(db, data.procedure_id.as_str()) {
        return Err(DbError::NotFound);
    }
    if find_mission(db, &data.mission_id).is_none() {
        return Err(DbError::NotFound);
    }
    data.update_at = now;
    let change = MissionChange::Overwrite(data.clone());
    let (_, first) = rewrite_missions(&mut db.missions, &data.mission_id, &change);
    match first {
        Some(row) => Ok(row),
        None => Err(DbError::NotFound),
    }
}

/// Overwrites the live rows that have the identity of `data` with `data`,
/// last updated at the current time. See [`mission_updated`].
pub fn update_mission_record(db: &mut Database, data: &mut Mission) -> (r: Result<Mission, DbError>)
    ensures
        exists|now: Timestamp| #[trigger]
            mission_updated(old(db)@, final(db)@, old(data)@, final(data)@, now, mission_outcome(r)),
{
    let now = clock_now();
    let r = update_mission_record_at(db, data, now);
    assert(mission_updated(old(db)@, db@, old(data)@, data@, now, mission_outcome(r)));
    r
}

/// Sets the status of the mission `mid` where that is a change that may
/// be made. See [`mission_status_set`].
pub fn update_mission_status(db: &mut Database, stat: MissionStatus, mid: &str) -> (r: Result<
    Mission,
    DbError,
>)
    ensures
        mission_status_set(old(db)@, final(db)@, mid@, stat, mission_outcome(r)),
{
    let key = String::from_str(mid);
    let i = match find_mission(db, &key) {
        Some(i) => i,
        None => {
            return Err(DbError::NotFound);
        },
    };
    let ghost pre = db@;
    assert(pre.missions[i as int] == db.missions[i as int]@);
    let allowed = match (db.missions[i].status, stat) {
        (MissionStatus::Paused, MissionStatus::Running) => true,
        (MissionStatus::Running, MissionStatus::Paused) => true,
        _ => false,
    };
    if !allowed {
        return Err(DbError::InvalidTransition);
    }
    match stat {
        MissionStatus::Running => {
            let found = match query_procedure_record(
                db,
                Some(db.missions[i].procedure_id.as_str()),
            ) {
                Ok(rows) => rows,
                Err(_) => Vec::new(),
            };
            if found.len() == 0 {
                return Err(DbError::NotFound);
            }
            assert(procedure_views(found@)[0] == found[0]@);
            match found[0].trigger {
                TriggerKind::Cron => {
                    if CronSchedule::parse(found[0].cron_expression.as_str()).is_err() {
                        return Err(DbError::InvalidCronExpression);
                    }
                },
                _ => {},
            }
        },
        _ => {},
    }
    let mut row = db.missions[i].clone();
    row.status = stat;
    let ghost changed = row@;
    db.missions.set(i, row.clone());
    assert(db@.missions =~= pre.missions.update(i as int, changed));
    Ok(row)
}

/// Which of the two instants of a mission an update sets.
#[derive(Clone, Copy, Debug, PartialEq, Eq, Structural)]
pub enum TimeLabel {
    /// `next_runtime`, written `"next"`.
    Next,
    /// `last_trigger`, written `"last"`.
    Last,
}

impl TimeLabel {
    /// The label that `text` names, if it names one.
    pub open spec fn spec_parse(text: Seq<char>) -> Option<TimeLabel> {
        if text == "next"@ {
            Some(TimeLabel::Next)
        } else if text == "last"@ {
            Some(TimeLabel::Last)
        } else {
            None
        }
    }

    /// The label that `text` names: `"next"` or `"last"`.
    pub fn parse(text: &str) -> (r: Option<TimeLabel>)
        ensures
            r == Self::spec_parse(text@),
    {
        let t = String::from_str(text);
        if t == String::from_str("next") {
            Some(TimeLabel::Next)
        } else if t == String::from_str("last") {
            Some(TimeLabel::Last)
        } else {
            None
        }
    }

    /// What setting the instant named by the label does to a row.
    pub open spec fn effect(self, time: Timestamp) -> spec_fn(MissionView) -> MissionView {
        match self {
            TimeLabel::Next => mission_with_next_runtime(time),
            TimeLabel::Last => mission_with_last_trigger(time),
        }
    }
}

/// Sets `next_runtime` (label `"next"`) or `last_trigger` (label `"last"`)
/// of the mission `mid` to `time`. See [`mission_time_set`].
pub fn update_mission_time(db: &mut Database, label: &str, time: &Timestamp, mid: &str) -> (r: Result<
    Mission,
    DbError,
>)
    ensures
        mission_time_set(old(db)@, final(db)@, label@, *time, mid@, mission_outcome(r)),
{
    let change = match TimeLabel::parse(label) {
        Some(TimeLabel::Next) => MissionChange::NextRuntime(*time),
        Some(TimeLabel::Last) => MissionChange::LastTrigger(*time),
        None => {
            return Err(DbError::NotFound);
        },
    };
    let key = String::from_str(mid);
    let ghost pre = db@.missions;
    let (_, first) = rewrite_missions(&mut db.missions, &key, &change);
    match first {
        Some(row) => Ok(row),
        None => {
            proof {
                lemma_rewritten_none(pre, mission_selected(Some(mid@)), change.effect());
            }
            Err(DbError::NotFound)
        },
    }
}

/// The live rows of the mission table in their order: all of them, or the
/// one identified by `mid` where a key is given.
pub fn query_mission_record(db: &Database, mid: Option<&str>) -> (r: Result<Vec<Mission>, DbError>)
    ensures
        r matches Ok(rows) && mission_views(rows@) == db@.missions.filter(
            mission_selected(key_text(mid)),
        ),
{
    let key: Option<String> = match mid {
        Some(s) => Some(String::from_str(s)),
        None => None,
    };
    let ghost p = mission_selected(key_text(mid));
    let mut out: Vec<Mission> = Vec::new();
    let mut i: usize = 0;
    while i < db.missions.len()
        invariant
            i <= db.missions.len(),
            p == mission_selected(key_text(mid)),
            match key {
                Some(k) => key_text(mid) == Some(k@),
                None => key_text(mid) is None,
            },
            mission_views(out@) == db@.missions.take(i as int).filter(p),
        decreases db.missions.len() - i,
    {
        proof {
            lemma_count_of_next(db@.missions, p, i as int);
        }
        let row = &db.missions[i];
        let wanted = !row.is_deleted && match &key {
            Some(k) => row.mission_id == *k,
            None => true,
        };
        if wanted {
            out.push(row.clone());
        }
        i = i + 1;
    }
    assert(db@.missions.take(i as int) =~= db@.missions);
    Ok(out)
}

/// Marks the live rows identified by `mid` as deleted at `now`. See
/// [`mission_deleted`].
pub fn delete_mission_record_at(db: &mut Database, mid: Option<&str>, now: Timestamp) -> (r: Result<
    usize,
    DbError,
>)
    ensures
        mission_deleted(old(db)@, final(db)@, key_text(mid), now, r),
{
    match mid {
        Some(uid) => {
            let key = String::from_str(uid);
            let change = MissionChange::Delete(now);
            let ghost pre = db@.missions;
            let (count, first) = rewrite_missions(&mut db.missions, &key, &change);
            match first {
                Some(_) => Ok(count),
                None => {
                    proof {
                        lemma_rewritten_none(pre, mission_selected(Some(uid@)), change.effect());
                    }
                    Err(DbError::NotFound)
                },
            }
        },
        None => Err(DbError::NotFound),
    }
}

/// Marks the live rows identified by `mid` as deleted at the current time.
/// See [`mission_deleted`].
pub fn delete_mission_record(db: &mut Database, mid: Option<&str>) -> (r: Result<usize, DbError>)
    ensures
        exists|now: Timestamp| #[trigger] mission_deleted(old(db)@, final(db)@, key_text(mid), now, r),
{
    let now = clock_now();
    delete_mission_record_at(db, mid, now)
}

/// Removes every row of the mission table, live or deleted, and returns
/// how many rows that were.
pub fn clear_mission_record(db: &mut Database) -> (r: Result<usize, DbError>)
    ensures
        final(db)@ == (DatabaseView { missions: Seq::empty(), ..old(db)@ }),
        is_count(r, old(db)@.missions.len()),
{
    let count = db.missions.len();
    db.missions.clear();
    assert(final(db)@.missions =~= Seq::<MissionView>::empty());
    Ok(count)
}

/// Compacts the mission table: removes the rows that are marked as
/// deleted for good and numbers the remaining rows from 1 in their order.
/// Nothing but the ordinal of a remaining row changes. Returns how many
/// rows were removed.
pub fn clean_record(db: &mut Database) -> (r: Result<usize, DbError>)
    ensures
        final(db)@ == (DatabaseView {
            missions: missions_compacted(old(db)@.missions),
            ..old(db)@
        }),
        is_count(r, count_of(old(db)@.missions, mission_is_deleted())),
{
    let ghost pre = db@.missions;
    let ghost dead = mission_is_deleted();
    let mut kept: Vec<Mission> = Vec::new();
    let mut removed: usize = 0;
    let mut i: usize = 0;
    proof {
        lemma_compacted_empty(pre, mission_is_live(), mission_placed());
        lemma_compacted_empty(pre, dead, mission_placed());
    }
    while i < db.missions.len()
        invariant
            i <= db.missions.len(),
            db@.missions == pre,
            db@ == old(db)@,
            dead == mission_is_deleted(),
            removed == count_of(pre.take(i as int), dead),
            removed <= i,
            kept.len() <= i,
            mission_views(kept@) == missions_compacted(pre.take(i as int)),
        decreases db.missions.len() - i,
    {
        proof {
            lemma_count_of_next(pre, dead, i as int);
            lemma_compacted_next(pre, mission_is_live(), mission_placed(), i as int);
        }
        if db.missions[i].is_deleted {
            removed = removed + 1;
        } else {
            let mut row = db.missions[i].clone();
            row.id = ordinal_after(kept.len());
            kept.push(row);
        }
        i = i + 1;
    }
    assert(pre.take(i as int) =~= pre);
    db.missions = kept;
    Ok(removed)
}

/// What [`get_mission_related_record`] answers: the first live mission
/// identified by `key`, side by side with the first live procedure that it
/// refers to and with a blank ignore rule and a blank backup record.
/// `NotFound` where there is no such mission or no such procedure.
pub open spec fn mission_related(db: DatabaseView, key: Seq<char>, r: Result<Record, DbError>) -> bool {
    let missions = db.missions.filter(mission_selected(Some(key)));
    if missions.len() == 0 {
        r matches Err(e) && e == DbError::NotFound
    } else {
        let procedures = db.procedures.filter(
            procedure_selected(Some(missions[0].procedure_id)),
        );
        if procedures.len() == 0 {
            r matches Err(e) && e == DbError::NotFound
        } else {
            r matches Ok(rec) && {
                &&& rec@.mission == missions[0]
                &&& rec@.procedure == procedures[0]
                &&& ignore_is_blank(rec@.ignore)
                &&& backup_is_blank(rec@.backup)
            }
        }
    }
}

/// The live mission `mid` together with its live procedure. See
/// [`mission_related`].
pub fn get_mission_related_record(mid: &str, db: &Database) -> (r: Result<Record, DbError>)
    ensures
        mission_related(db@, mid@, r),
{
    let mut record = Record::default();
    let missions = match query_mission_record(db, Some(mid)) {
        Ok(missions) => missions,
        Err(_) => {
            return Err(DbError::NotFound);
        },
    };
    if missions.len() == 0 {
        return Err(DbError::NotFound);
    }
    record.mission = missions[0].clone();
    let procedures = match query_procedure_record(db, Some(record.mission.procedure_id.as_str())) {
        Ok(procedures) => procedures,
        Err(_) => {
            return Err(DbError::NotFound);
        },
    };
    if procedures.len() == 0 {
        return Err(DbError::NotFound);
    }
    record.procedure = procedures[0].clone();
    Ok(record)
}

} // verus!
