//! Backup records: the rows that keep the history of artifacts, and the
//! operations of the backup table.

use vstd::prelude::*;
use vstd::string::StringExecFns;
use crate::db::table::{
    compacted, count_of, first_at, first_is, is_count, key_text, lemma_compacted_empty,
    lemma_compacted_next, lemma_count_of_next, lemma_rewritten_none, next_ordinal, none_of,
    ordinal_after, rewritten,
};
use crate::db::{Database, DatabaseView, DbError};
use crate::ident::{is_uuid_text, random_uuid};
use crate::time::{clock_now, Timestamp};
use crate::db::mission::{has_live_mission, live_mission_exists, Mission};

verus! {

/// The record of one run of a mission: the artifact it made, or its
/// failure.
///
/// `backup_id` is the identity of the row and `mission_id` refers to the
/// owning mission by its identity. `id` is a display ordinal only.
#[derive(Debug, PartialEq, Eq)]
pub struct Backup {
    pub id: i32,
    pub backup_id: String,
    pub mission_id: String,
    /// Where the artifact was written.
    pub save_path: String,
    /// Size of the artifact in bytes.
    pub backup_size: u64,
    /// Whether the run that made this record went through.
    pub succeeded: bool,
    /// What went wrong, where the run failed.
    pub message: String,
    pub reserved_0: String,
    pub reserved_1: String,
    pub reserved_2: String,
    pub create_at: Timestamp,
    pub update_at: Timestamp,
    pub is_deleted: bool,
    pub delete_at: Timestamp,
}

/// The mathematical content of a [`Backup`].
pub struct BackupView {
    pub id: i32,
    pub backup_id: Seq<char>,
    pub mission_id: Seq<char>,
    pub save_path: Seq<char>,
    pub backup_size: u64,
    pub succeeded: bool,
    pub message: Seq<char>,
    pub reserved_0: Seq<char>,
    pub reserved_1: Seq<char>,
    pub reserved_2: Seq<char>,
    pub create_at: Timestamp,
    pub update_at: Timestamp,
    pub is_deleted: bool,
    pub delete_at: Timestamp,
}

impl View for Backup {
    type V = BackupView;

    open spec fn view(&self) -> BackupView {
        BackupView {
            id: self.id,
            backup_id: self.backup_id@,
            mission_id: self.mission_id@,
            save_path: self.save_path@,
            backup_size: self.backup_size,
            succeeded: self.succeeded,
            message: self.message@,
            reserved_0: self.reserved_0@,
            reserved_1: self.reserved_1@,
            reserved_2: self.reserved_2@,
            create_at: self.create_at,
            update_at: self.update_at,
            is_deleted: self.is_deleted,
            delete_at: self.delete_at,
        }
    }
}

impl Clone for Backup {
    fn clone(&self) -> (r: Self)
        ensures
            r == *self,
    {
        Backup {
            id: self.id,
            backup_id: self.backup_id.clone(),
            mission_id: self.mission_id.clone(),
            save_path: self.save_path.clone(),
            backup_size: self.backup_size,
            succeeded: self.succeeded,
            message: self.message.clone(),
            reserved_0: self.reserved_0.clone(),
            reserved_1: self.reserved_1.clone(),
            reserved_2: self.reserved_2.clone(),
            create_at: self.create_at,
            update_at: self.update_at,
            is_deleted: self.is_deleted,
            delete_at: self.delete_at,
        }
    }
}

/// The content of a record that nobody has filled in yet: no path, no
/// bytes, not succeeded, live, every instant `now`, not yet placed in a table.
pub open spec fn blank_backup(backup_id: Seq<char>, mission_id: Seq<char>, now: Timestamp) -> BackupView {
    BackupView {
        id: 0,
        backup_id,
        mission_id,
        save_path: Seq::empty(),
        backup_size: 0,
        succeeded: false,
        message: Seq::empty(),
        reserved_0: Seq::empty(),
        reserved_1: Seq::empty(),
        reserved_2: Seq::empty(),
        create_at: now,
        update_at: now,
        is_deleted: false,
        delete_at: now,
    }
}

impl Backup {
    /// A blank backup record with the given identities and instant.
    pub fn blank(backup_id: String, mission_id: String, now: Timestamp) -> (r: Backup)
        ensures
            r@ == blank_backup(backup_id@, mission_id@, now),
    {
        Backup {
            id: 0,
            backup_id,
            mission_id,
            save_path: String::new(),
            backup_size: 0,
            succeeded: false,
            message: String::new(),
            reserved_0: String::new(),
            reserved_1: String::new(),
            reserved_2: String::new(),
            create_at: now,
            update_at: now,
            is_deleted: false,
            delete_at: now,
        }
    }
}

/// `r` is a blank backup record with hyphenated UUIDs for its identities.
pub open spec fn backup_is_blank(r: BackupView) -> bool {
    &&& is_uuid_text(r.backup_id)
    &&& is_uuid_text(r.mission_id)
    &&& r == blank_backup(r.backup_id, r.mission_id, r.create_at)
}

impl Default for Backup {
    /// A blank backup record with fresh random identities, stamped with the
    /// current time.
    fn default() -> (r: Backup)
        ensures
            backup_is_blank(r@),
    {
        let now = clock_now();
        Backup::blank(random_uuid(), random_uuid(), now)
    }
}

/// The rows that a query returns: the live rows; of these only the one
/// identified by `bid` where that is given, else only those of the
/// mission `mid` where that is given.
pub open spec fn backup_selected(bid: Option<Seq<char>>, mid: Option<Seq<char>>) -> spec_fn(
    BackupView,
) -> bool {
    |r: BackupView|
        !r.is_deleted && match (bid, mid) {
            (Some(k), _) => r.backup_id == k,
            (None, Some(k)) => r.mission_id == k,
            (None, None) => true,
        }
}

/// Marks a row as deleted at `now`.
pub open spec fn backup_deleted_at(now: Timestamp) -> spec_fn(BackupView) -> BackupView {
    |r: BackupView| BackupView { is_deleted: true, delete_at: now, ..r }
}

/// The views of a sequence of backups, row by row.
pub open spec fn backup_views(rows: Seq<Backup>) -> Seq<BackupView> {
    rows.map_values(|r: Backup| r@)
}

/// The rows that are marked as deleted.
pub open spec fn backup_is_deleted() -> spec_fn(BackupView) -> bool {
    |r: BackupView| r.is_deleted
}

/// The rows that are not marked as deleted.
pub open spec fn backup_is_live() -> spec_fn(BackupView) -> bool {
    |r: BackupView| !r.is_deleted
}

/// Puts a row in its place after compaction: the row at place `place`
/// (counted from 0) gets the ordinal `place + 1` and is otherwise kept.
pub open spec fn backup_placed() -> spec_fn(BackupView, int) -> BackupView {
    |r: BackupView, place: int| BackupView { id: next_ordinal(place as nat) as i32, ..r }
}

/// The table after compaction: the live rows of `rows` in their order,
/// numbered from 1.
pub open spec fn backups_compacted(rows: Seq<BackupView>) -> Seq<BackupView> {
    compacted(rows, backup_is_live(), backup_placed())
}

/// What may be done to the rows that an update picks.
enum BackupChange {
    Delete(Timestamp),
}

impl BackupChange {
    spec fn effect(self) -> spec_fn(BackupView) -> BackupView {
        match self {
            BackupChange::Delete(now) => backup_deleted_at(now),
        }
    }

    fn apply(&self, row: &Backup) -> (r: Backup)
        ensures
            r@ == (self.effect())(row@),
    {
        match self {
            BackupChange::Delete(now) => {
                let mut r = row.clone();
                r.is_deleted = true;
                r.delete_at = *now;
                r
            },
        }
    }
}

/// The rows that an update by `key` picks: the live rows of the
/// mission `key` where `by_owner` holds, else the live row identified by
/// `key`. A row that is marked as deleted is never picked.
pub open spec fn backup_picked(key: Seq<char>, by_owner: bool) -> spec_fn(BackupView) -> bool {
    |r: BackupView|
        !r.is_deleted && if by_owner {
            r.mission_id == key
        } else {
            r.backup_id == key
        }
}

/// The outcome of an operation that hands a row back, as the contracts
/// hold it.
pub open spec fn backup_outcome(r: Result<Backup, DbError>) -> Result<BackupView, DbError> {
    match r {
        Ok(row) => Ok(row@),
        Err(e) => Err(e),
    }
}

/// Applies `change` to every row picked by `key`. Returns how many rows
/// that were, and the first of them as it stands afterwards.
fn rewrite_backups(rows: &mut Vec<Backup>, key: &String, by_owner: bool, change: &BackupChange) -> (r: (usize, Option<Backup>))
    ensures
        backup_views(final(rows)@) == rewritten(backup_views(old(rows)@), backup_picked(key@, by_owner), change.effect()),
        r.0 == count_of(backup_views(old(rows)@), backup_picked(key@, by_owner)),
        first_is(
            backup_views(old(rows)@),
            backup_views(final(rows)@),
            backup_picked(key@, by_owner),
            match r.1 {
                Some(row) => Some(row@),
                None => None,
            },
        ),
{
    let ghost pre = backup_views(rows@);
    let ghost p = backup_picked(key@, by_owner);
    let ghost f = change.effect();
    let mut first: Option<Backup> = None;
    let mut count: usize = 0;
    let mut i: usize = 0;
    while i < rows.len()
        invariant
            i <= rows.len(),
            rows.len() == pre.len(),
            p == backup_picked(key@, by_owner),
            f == change.effect(),
            count == count_of(pre.take(i as int), p),
            count <= i,
            forall|j: int| 0 <= j < i ==> backup_views(rows@)[j] == rewritten(pre, p, f)[j],
            forall|j: int| i <= j < pre.len() ==> backup_views(rows@)[j] == pre[j],
            match first {
                Some(row) => exists|k: int|
                    k < i && first_at(pre, p, k) && row@ == backup_views(rows@)[k],
                None => forall|j: int| 0 <= j < i ==> !p(#[trigger] pre[j]),
            },
        decreases rows.len() - i,
    {
        proof {
            lemma_count_of_next(pre, p, i as int);
        }
        let picked = !rows[i].is_deleted && if by_owner {
            rows[i].mission_id == *key
        } else {
            rows[i].backup_id == *key
        };
        if picked {
            let row = change.apply(&rows[i]);
            if first.is_none() {
                first = Some(row.clone());
                assert(first_at(pre, p, i as int));
            }
            rows.set(i, row);
            count = count + 1;
        }
        assert forall|j: int| 0 <= j < i + 1 implies backup_views(rows@)[j] == rewritten(
            pre,
            p,
            f,
        )[j] by {
        }
        i = i + 1;
    }
    assert(pre.take(i as int) =~= pre);
    (count, first)
}

/// What adding a row at `now` under the identity `id` does. The owner has
/// to be a live mission of the store; then `stored`, the new last row
/// of the table, is `given` under that identity, owned by that
/// mission, with the next ordinal of the table and `now` for its
/// creation and its last update, and the data is brought up to date. Else
/// the answer is `NotFound` and nothing changes.
pub open spec fn backup_created(
    pre: DatabaseView,
    post: DatabaseView,
    given: BackupView,
    kept: BackupView,
    owner: Seq<char>,
    id: Seq<char>,
    now: Timestamp,
    r: Result<BackupView, DbError>,
) -> bool {
    let stored = backup_appended(pre, given, owner, id, now);
    if has_live_mission(pre, owner) {
        &&& r == Ok::<BackupView, DbError>(stored)
        &&& kept == stored
        &&& post == (DatabaseView { backups: pre.backups.push(stored), ..pre })
    } else {
        &&& r == Err::<BackupView, DbError>(DbError::NotFound)
        &&& kept == given
        &&& post == pre
    }
}

/// The row that is added for `given`: under the identity `id`, owned by
/// `owner`, with the next ordinal of the table and `now` for its creation
/// and its last update.
pub open spec fn backup_appended(
    pre: DatabaseView,
    given: BackupView,
    owner: Seq<char>,
    id: Seq<char>,
    now: Timestamp,
) -> BackupView {
    BackupView {
        id: next_ordinal(pre.backups.len()) as i32,
        backup_id: id,
        mission_id: owner,
        create_at: now,
        update_at: now,
        ..given
    }
}

/// Adds the row for `data` to the table, whoever owns it.
pub(crate) fn append_backup(
    db: &mut Database,
    data: &mut Backup,
    owner: &String,
    backup_id: String,
    now: Timestamp,
) -> (stored: Backup)
    ensures
        stored@ == backup_appended(old(db)@, old(data)@, owner@, backup_id@, now),
        final(data)@ == stored@,
        final(db)@ == (DatabaseView { backups: old(db)@.backups.push(stored@), ..old(db)@ }),
{
    data.id = ordinal_after(db.backups.len());
    data.backup_id = backup_id;
    data.mission_id = owner.clone();
    data.create_at = now;
    data.update_at = now;
    let stored = data.clone();
    db.backups.push(data.clone());
    assert(final(db)@.backups =~= old(db)@.backups.push(stored@));
    stored
}

/// Adds `data` to the backup table under the identity `backup_id`, owned by
/// `mission`, at `now`. See [`backup_created`].
pub fn create_backup_record_at(
    db: &mut Database,
    data: &mut Backup,
    mission: &Mission,
    backup_id: String,
    now: Timestamp,
) -> (r: Result<Backup, DbError>)
    ensures
        backup_created(
            old(db)@,
            final(db)@,
            old(data)@,
            final(data)@,
            mission@.mission_id,
            backup_id@,
            now,
            backup_outcome(r),
        ),
{
    if !live_mission_exists(db, mission.mission_id.as_str()) {
        return Err(DbError::NotFound);
    }
    Ok(append_backup(db, data, &mission.mission_id, backup_id, now))
}

/// Adds `data` to the backup table under a fresh random identity, owned by
/// `mission`, stamped with the current time. See [`backup_created`].
pub fn create_backup_record(db: &mut Database, data: &mut Backup, mission: &Mission) -> (r: Result<Backup, DbError>)
    ensures
        exists|id: Seq<char>, now: Timestamp|
            is_uuid_text(id) && #[trigger] backup_created(
                old(db)@,
                final(db)@,
                old(data)@,
                final(data)@,
                mission@.mission_id,
                id,
                now,
                backup_outcome(r),
            ),
{
    let now = clock_now();
    let backup_id = random_uuid();
    let ghost id = backup_id@;
    let r = create_backup_record_at(db, data, mission, backup_id, now);
    assert(backup_created(old(db)@, db@, old(data)@, data@, mission@.mission_id, id, now, backup_outcome(r)));
    r
}

/// The live rows of the backup table in their order: the one identified
/// by `bid` where that is given, else those of the mission `mid` where that
/// is given, else all of them.
pub fn query_backup_record(db: &Database, bid: Option<&str>, mid: Option<&str>) -> (r: Result<
    Vec<Backup>,
    DbError,
>)
    ensures
        r matches Ok(rows) && backup_views(rows@) == db@.backups.filter(
            backup_selected(key_text(bid), key_text(mid)),
        ),
{
    let own: Option<String> = match bid {
        Some(s) => Some(String::from_str(s)),
        None => None,
    };
    let owner: Option<String> = match mid {
        Some(s) => Some(String::from_str(s)),
        None => None,
    };
    let ghost p = backup_selected(key_text(bid), key_text(mid));
    let mut out: Vec<Backup> = Vec::new();
    let mut i: usize = 0;
    while i < db.backups.len()
        invariant
            i <= db.backups.len(),
            p == backup_selected(key_text(bid), key_text(mid)),
            match own {
                Some(k) => key_text(bid) == Some(k@),
                None => key_text(bid) is None,
            },
            match owner {
                Some(k) => key_text(mid) == Some(k@),
                None => key_text(mid) is None,
            },
            backup_views(out@) == db@.backups.take(i as int).filter(p),
        decreases db.backups.len() - i,
    {
        proof {
            lemma_count_of_next(db@.backups, p, i as int);
        }
        let row = &db.backups[i];
        let wanted = !row.is_deleted && match &own {
            Some(k) => row.backup_id == *k,
            None => match &owner {
                Some(k) => row.mission_id == *k,
                None => true,
            },
        };
        if wanted {
            out.push(row.clone());
        }
        i = i + 1;
    }
    assert(db@.backups.take(i as int) =~= db@.backups);
    Ok(out)
}

/// What a deletion does at `now`.
///
/// With `own` given, the live row with that identity is picked; where
/// there is none the answer is `NotFound`. Else with `owner` given, the
/// live rows of that mission are picked; a live mission that
/// has no such row is answered with a count of 0, and an owner that is no
/// live mission and has no such row with `NotFound`. Without any key
/// the answer is `NotFound`. Every picked row is marked as deleted at
/// `now`, the answer is how many rows that were, and nothing else
/// changes: a row that is marked as deleted already keeps the instant of
/// its deletion.
pub open spec fn backup_deleted(
    pre: DatabaseView,
    post: DatabaseView,
    own: Option<Seq<char>>,
    owner: Option<Seq<char>>,
    now: Timestamp,
    r: Result<usize, DbError>,
) -> bool {
    match (own, owner) {
        (Some(k), _) => backup_marked(pre, post, backup_picked(k, false), false, now, r),
        (None, Some(k)) => backup_marked(
            pre,
            post,
            backup_picked(k, true),
            has_live_mission(pre, k),
            now,
            r,
        ),
        (None, None) => post == pre && r == Err::<usize, DbError>(DbError::NotFound),
    }
}

/// The rows that `pick` picks are marked as deleted at `now` and counted.
/// Where it picks none, nothing changes, and the answer is a count of 0
/// where `may_be_none` holds and `NotFound` where it does not.
pub open spec fn backup_marked(
    pre: DatabaseView,
    post: DatabaseView,
    pick: spec_fn(BackupView) -> bool,
    may_be_none: bool,
    now: Timestamp,
    r: Result<usize, DbError>,
) -> bool {
    if !none_of(pre.backups, pick) {
        &&& post == (DatabaseView {
            backups: rewritten(pre.backups, pick, backup_deleted_at(now)),
            ..pre
        })
        &&& is_count(r, count_of(pre.backups, pick))
    } else if may_be_none {
        post == pre && r == Ok::<usize, DbError>(0)
    } else {
        post == pre && r == Err::<usize, DbError>(DbError::NotFound)
    }
}

/// Marks live rows as deleted at `now`. See [`backup_deleted`].
pub fn delete_backup_record_at(
    db: &mut Database,
    bid: Option<&str>,
    mid: Option<&str>,
    now: Timestamp,
) -> (r: Result<usize, DbError>)
    ensures
        backup_deleted(old(db)@, final(db)@, key_text(bid), key_text(mid), now, r),
{
    let change = BackupChange::Delete(now);
    let ghost pre = db@.backups;
    let (key, by_owner) = if let Some(uuid) = bid {
        (String::from_str(uuid), false)
    } else if let Some(uuid) = mid {
        (String::from_str(uuid), true)
    } else {
        return Err(DbError::NotFound);
    };
    let (count, first) = rewrite_backups(&mut db.backups, &key, by_owner, &change);
    match first {
        Some(_) => Ok(count),
        None => {
            proof {
                lemma_rewritten_none(pre, backup_picked(key@, by_owner), change.effect());
            }
            if by_owner && live_mission_exists(db, key.as_str()) {
                Ok(0)
            } else {
                Err(DbError::NotFound)
            }
        },
    }
}

/// Marks live rows as deleted at the current time. See [`backup_deleted`].
pub fn delete_backup_record(db: &mut Database, bid: Option<&str>, mid: Option<&str>) -> (r: Result<
    usize,
    DbError,
>)
    ensures
        exists|now: Timestamp| #[trigger]
            backup_deleted(old(db)@, final(db)@, key_text(bid), key_text(mid), now, r),
{
    let now = clock_now();
    delete_backup_record_at(db, bid, mid, now)
}

/// Removes every row of the backup table, live or deleted, and returns how
/// many rows that were.
pub fn clear_backup_record(db: &mut Database) -> (r: Result<usize, DbError>)
    ensures
        final(db)@ == (DatabaseView { backups: Seq::empty(), ..old(db)@ }),
        is_count(r, old(db)@.backups.len()),
{
    let count = db.backups.len();
    db.backups.clear();
    assert(final(db)@.backups =~= Seq::<BackupView>::empty());
    Ok(count)
}

/// Compacts the backup table: removes the rows that are marked as deleted
/// for good and numbers the remaining rows from 1 in their order. Nothing
/// but the ordinal of a remaining row changes. Returns how many rows were
/// removed.
pub fn clean_record(db: &mut Database) -> (r: Result<usize, DbError>)
    ensures
        final(db)@ == (DatabaseView { backups: backups_compacted(old(db)@.backups), ..old(db)@ }),
        is_count(r, count_of(old(db)@.backups, backup_is_deleted())),
{
    let ghost pre = db@.backups;
    let ghost dead = backup_is_deleted();
    let mut kept: Vec<Backup> = Vec::new();
    let mut removed: usize = 0;
    let mut i: usize = 0;
    proof {
        lemma_compacted_empty(pre, backup_is_live(), backup_placed());
        lemma_compacted_empty(pre, dead, backup_placed());
    }
    while i < db.backups.len()
        invariant
            i <= db.backups.len(),
            db@.backups == pre,
            db@ == old(db)@,
            dead == backup_is_deleted(),
            removed == count_of(pre.take(i as int), dead),
            removed <= i,
            kept.len() <= i,
            backup_views(kept@) == backups_compacted(pre.take(i as int)),
        decreases db.backups.len() - i,
    {
        proof {
            lemma_count_of_next(pre, dead, i as int);
            lemma_compacted_next(pre, backup_is_live(), backup_placed(), i as int);
        }
        if db.backups[i].is_deleted {
            removed = removed + 1;
        } else {
            let mut row = db.backups[i].clone();
            row.id = ordinal_after(kept.len());
            kept.push(row);
        }
        i = i + 1;
    }
    assert(pre.take(i as int) =~= pre);
    db.backups = kept;
    Ok(removed)
}

} // verus!
