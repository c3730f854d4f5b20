//! Ignore rules: the rows that say what a backup leaves out, and the
//! operations of the ignore table.

use vstd::prelude::*;
use vstd::string::StringExecFns;
use crate::db::table::{
    compacted, count_of, first_at, first_is, is_count, key_text, lemma_compacted_empty,
    lemma_compacted_next, lemma_count_of_next, lemma_rewritten_none, next_ordinal, none_of,
    ordinal_after, rewritten,
};
use crate::db::{Database, DatabaseView, DbError};
use crate::ident::{is_uuid_text, random_uuid};
use crate::time::{clock_now, Timestamp};
use crate::db::procedure::{has_live_procedure, live_procedure_exists, Procedure};

verus! {

/// One ignore rule of a procedure.
///
/// `ignore_id` is the identity of the row and `procedure_id` refers to the
/// owning procedure by its identity. `id` is a display ordinal only.
#[derive(Debug, PartialEq, Eq)]
pub struct Ignore {
    pub id: i32,
    pub ignore_id: String,
    pub procedure_id: String,
    /// The pattern that an entry of the source is held against.
    pub keyword: String,
    pub reserved_0: String,
    pub reserved_1: String,
    pub reserved_2: String,
    pub create_at: Timestamp,
    pub update_at: Timestamp,
    pub is_deleted: bool,
    pub delete_at: Timestamp,
}

/// The mathematical content of an [`Ignore`].
pub struct IgnoreView {
    pub id: i32,
    pub ignore_id: Seq<char>,
    pub procedure_id: Seq<char>,
    pub keyword: Seq<char>,
    pub reserved_0: Seq<char>,
    pub reserved_1: Seq<char>,
    pub reserved_2: Seq<char>,
    pub create_at: Timestamp,
    pub update_at: Timestamp,
    pub is_deleted: bool,
    pub delete_at: Timestamp,
}

impl View for Ignore {
    type V = IgnoreView;

    open spec fn view(&self) -> IgnoreView {
        IgnoreView {
            id: self.id,
            ignore_id: self.ignore_id@,
            procedure_id: self.procedure_id@,
            keyword: self.keyword@,
            reserved_0: self.reserved_0@,
            reserved_1: self.reserved_1@,
            reserved_2: self.reserved_2@,
            create_at: self.create_at,
            update_at: self.update_at,
            is_deleted: self.is_deleted,
            delete_at: self.delete_at,
        }
    }
}

impl Clone for Ignore {
    fn clone(&self) -> (r: Self)
        ensures
            r == *self,
    {
        Ignore {
            id: self.id,
            ignore_id: self.ignore_id.clone(),
            procedure_id: self.procedure_id.clone(),
            keyword: self.keyword.clone(),
            reserved_0: self.reserved_0.clone(),
            reserved_1: self.reserved_1.clone(),
            reserved_2: self.reserved_2.clone(),
            create_at: self.create_at,
            update_at: self.update_at,
            is_deleted: self.is_deleted,
            delete_at: self.delete_at,
        }
    }
}

/// The content of an ignore rule that nobody has filled in yet: an empty
/// keyword, live, every instant `now`, not yet placed in a table.
pub open spec fn blank_ignore(ignore_id: Seq<char>, procedure_id: Seq<char>, now: Timestamp) -> IgnoreView {
    IgnoreView {
        id: 0,
        ignore_id,
        procedure_id,
        keyword: Seq::empty(),
        reserved_0: Seq::empty(),
        reserved_1: Seq::empty(),
        reserved_2: Seq::empty(),
        create_at: now,
        update_at: now,
        is_deleted: false,
        delete_at: now,
    }
}

impl Ignore {
    /// A blank ignore rule with the given identities and instant.
    pub fn blank(ignore_id: String, procedure_id: String, now: Timestamp) -> (r: Ignore)
        ensures
            r@ == blank_ignore(ignore_id@, procedure_id@, now),
    {
        Ignore {
            id: 0,
            ignore_id,
            procedure_id,
            keyword: String::new(),
            reserved_0: String::new(),
            reserved_1: String::new(),
            reserved_2: String::new(),
            create_at: now,
            update_at: now,
            is_deleted: false,
            delete_at: now,
        }
    }
}

/// `r` is a blank ignore rule with hyphenated UUIDs for its identities.
pub open spec fn ignore_is_blank(r: IgnoreView) -> bool {
    &&& is_uuid_text(r.ignore_id)
    &&& is_uuid_text(r.procedure_id)
    &&& r == blank_ignore(r.ignore_id, r.procedure_id, r.create_at)
}

impl Default for Ignore {
    /// A blank ignore rule with fresh random identities, stamped with the
    /// current time.
    fn default() -> (r: Ignore)
        ensures
            ignore_is_blank(r@),
    {
        let now = clock_now();
        Ignore::blank(random_uuid(), random_uuid(), now)
    }
}

/// The rows that a query for `key` returns: the live rows, and of these
/// only those of the procedure `key` where a key is given.
pub open spec fn ignore_selected(key: Option<Seq<char>>) -> spec_fn(IgnoreView) -> bool {
    |r: IgnoreView| !r.is_deleted && (key matches Some(k) ==> r.procedure_id == k)
}

/// The keyword of a rule.
pub open spec fn ignore_keyword() -> spec_fn(IgnoreView) -> Seq<char> {
    |r: IgnoreView| r.keyword
}

/// Replaces a row by `data`. The row keeps its ordinal, its owner and
/// what says whether and when it was deleted.
pub open spec fn ignore_overwrite(data: IgnoreView) -> spec_fn(IgnoreView) -> IgnoreView {
    |r: IgnoreView|
        IgnoreView {
            id: r.id,
            procedure_id: r.procedure_id,
            is_deleted: r.is_deleted,
            delete_at: r.delete_at,
            ..data
        }
}

/// Marks a row as deleted at `now`.
pub open spec fn ignore_deleted_at(now: Timestamp) -> spec_fn(IgnoreView) -> IgnoreView {
    |r: IgnoreView| IgnoreView { is_deleted: true, delete_at: now, ..r }
}

/// The views of a sequence of ignores, row by row.
pub open spec fn ignore_views(rows: Seq<Ignore>) -> Seq<IgnoreView> {
    rows.map_values(|r: Ignore| r@)
}

/// The rows that are marked as deleted.
pub open spec fn ignore_is_deleted() -> spec_fn(IgnoreView) -> bool {
    |r: IgnoreView| r.is_deleted
}

/// The rows that are not marked as deleted.
pub open spec fn ignore_is_live() -> spec_fn(IgnoreView) -> bool {
    |r: IgnoreView| !r.is_deleted
}

/// Puts a row in its place after compaction: the row at place `place`
/// (counted from 0) gets the ordinal `place + 1` and is otherwise kept.
pub open spec fn ignore_placed() -> spec_fn(IgnoreView, int) -> IgnoreView {
    |r: IgnoreView, place: int| IgnoreView { id: next_ordinal(place as nat) as i32, ..r }
}

/// The table after compaction: the live rows of `rows` in their order,
/// numbered from 1.
pub open spec fn ignores_compacted(rows: Seq<IgnoreView>) -> Seq<IgnoreView> {
    compacted(rows, ignore_is_live(), ignore_placed())
}

/// What may be done to the rows that an update picks.
enum IgnoreChange {
    Overwrite(Ignore),
    Delete(Timestamp),
}

impl IgnoreChange {
    spec fn effect(self) -> spec_fn(IgnoreView) -> IgnoreView {
        match self {
            IgnoreChange::Overwrite(data) => ignore_overwrite(data@),
            IgnoreChange::Delete(now) => ignore_deleted_at(now),
        }
    }

    fn apply(&self, row: &Ignore) -> (r: Ignore)
        ensures
            r@ == (self.effect())(row@),
    {
        match self {
            IgnoreChange::Overwrite(data) => {
                let mut r = data.clone();
                r.id = row.id;
                r.procedure_id = row.procedure_id.clone();
                r.is_deleted = row.is_deleted;
                r.delete_at = row.delete_at;
                r
            },
            IgnoreChange::Delete(now) => {
                let mut r = row.clone();
                r.is_deleted = true;
                r.delete_at = *now;
                r
            },
        }
    }
}

/// The rows that an update by `key` picks: the live rows of the
/// procedure `key` where `by_owner` holds, else the live row identified by
/// `key`. A row that is marked as deleted is never picked.
pub open spec fn ignore_picked(key: Seq<char>, by_owner: bool) -> spec_fn(IgnoreView) -> bool {
    |r: IgnoreView|
        !r.is_deleted && if by_owner {
            r.procedure_id == key
        } else {
            r.ignore_id == key
        }
}

/// The outcome of an operation that hands a row back, as the contracts
/// hold it.
pub open spec fn ignore_outcome(r: Result<Ignore, DbError>) -> Result<IgnoreView, DbError> {
    match r {
        Ok(row) => Ok(row@),
        Err(e) => Err(e),
    }
}

/// Whether `key` picks any row.
fn picks_any(rows: &Vec<Ignore>, key: &String, by_owner: bool) -> (r: bool)
    ensures
        r == !none_of(ignore_views(rows@), ignore_picked(key@, by_owner)),
{
    let mut i: usize = 0;
    while i < rows.len()
        invariant
            i <= rows.len(),
            forall|j: int|
                0 <= j < i ==> !(ignore_picked(key@, by_owner))(#[trigger] ignore_views(rows@)[j]),
        decreases rows.len() - i,
    {
        assert(ignore_views(rows@)[i as int] == rows[i as int]@);
        let picked = !rows[i].is_deleted && if by_owner {
            rows[i].procedure_id == *key
        } else {
            rows[i].ignore_id == *key
        };
        if picked {
            return true;
        }
        i = i + 1;
    }
    false
}

/// Applies `change` to every row picked by `key`. Returns how many rows
/// that were, and the first of them as it stands afterwards.
fn rewrite_ignores(rows: &mut Vec<Ignore>, key: &String, by_owner: bool, change: &IgnoreChange) -> (r: (usize, Option<Ignore>))
    ensures
        ignore_views(final(rows)@) == rewritten(ignore_views(old(rows)@), ignore_picked(key@, by_owner), change.effect()),
        r.0 == count_of(ignore_views(old(rows)@), ignore_picked(key@, by_owner)),
        first_is(
            ignore_views(old(rows)@),
            ignore_views(final(rows)@),
            ignore_picked(key@, by_owner),
            match r.1 {
                Some(row) => Some(row@),
                None => None,
            },
        ),
{
    let ghost pre = ignore_views(rows@);
    let ghost p = ignore_picked(key@, by_owner);
    let ghost f = change.effect();
    let mut first: Option<Ignore> = None;
    let mut count: usize = 0;
    let mut i: usize = 0;
    while i < rows.len()
        invariant
            i <= rows.len(),
            rows.len() == pre.len(),
            p == ignore_picked(key@, by_owner),
            f == change.effect(),
            count == count_of(pre.take(i as int), p),
            count <= i,
            forall|j: int| 0 <= j < i ==> ignore_views(rows@)[j] == rewritten(pre, p, f)[j],
            forall|j: int| i <= j < pre.len() ==> ignore_views(rows@)[j] == pre[j],
            match first {
                Some(row) => exists|k: int|
                    k < i && first_at(pre, p, k) && row@ == ignore_views(rows@)[k],
                None => forall|j: int| 0 <= j < i ==> !p(#[trigger] pre[j]),
            },
        decreases rows.len() - i,
    {
        proof {
            lemma_count_of_next(pre, p, i as int);
        }
        let picked = !rows[i].is_deleted && if by_owner {
            rows[i].procedure_id == *key
        } else {
            rows[i].ignore_id == *key
        };
        if picked {
            let row = change.apply(&rows[i]);
            if first.is_none() {
                first = Some(row.clone());
                assert(first_at(pre, p, i as int));
            }
            rows.set(i, row);
            count = count + 1;
        }
        assert forall|j: int| 0 <= j < i + 1 implies ignore_views(rows@)[j] == rewritten(
            pre,
            p,
            f,
        )[j] by {
        }
        i = i + 1;
    }
    assert(pre.take(i as int) =~= pre);
    (count, first)
}

/// What adding a row at `now` under the identity `id` does. The owner has
/// to be a live procedure of the store; then `stored`, the new last row
/// of the table, is `given` under that identity, owned by that
/// procedure, with the next ordinal of the table and `now` for its
/// creation and its last update, and the data is brought up to date. Else
/// the answer is `NotFound` and nothing changes.
pub open spec fn ignore_created(
    pre: DatabaseView,
    post: DatabaseView,
    given: IgnoreView,
    kept: IgnoreView,
    owner: Seq<char>,
    id: Seq<char>,
    now: Timestamp,
    r: Result<IgnoreView, DbError>,
) -> bool {
    let stored = ignore_appended(pre, given, owner, id, now);
    if has_live_procedure(pre, owner) {
        &&& r == Ok::<IgnoreView, DbError>(stored)
        &&& kept == stored
        &&& post == (DatabaseView { ignores: pre.ignores.push(stored), ..pre })
    } else {
        &&& r == Err::<IgnoreView, DbError>(DbError::NotFound)
        &&& kept == given
        &&& post == pre
    }
}

/// The row that is added for `given`: under the identity `id`, owned by
/// `owner`, with the next ordinal of the table and `now` for its creation
/// and its last update.
pub open spec fn ignore_appended(
    pre: DatabaseView,
    given: IgnoreView,
    owner: Seq<char>,
    id: Seq<char>,
    now: Timestamp,
) -> IgnoreView {
    IgnoreView {
        id: next_ordinal(pre.ignores.len()) as i32,
        ignore_id: id,
        procedure_id: owner,
        create_at: now,
        update_at: now,
        ..given
    }
}

/// Adds the row for `data` to the table, whoever owns it.
fn append_ignore(
    db: &mut Database,
    data: &mut Ignore,
    owner: &String,
    ignore_id: String,
    now: Timestamp,
) -> (stored: Ignore)
    ensures
        stored@ == ignore_appended(old(db)@, old(data)@, owner@, ignore_id@, now),
        final(data)@ == stored@,
        final(db)@ == (DatabaseView { ignores: old(db)@.ignores.push(stored@), ..old(db)@ }),
{
    data.id = ordinal_after(db.ignores.len());
    data.ignore_id = ignore_id;
    data.procedure_id = owner.clone();
    data.create_at = now;
    data.update_at = now;
    let stored = data.clone();
    db.ignores.push(data.clone());
    assert(final(db)@.ignores =~= old(db)@.ignores.push(stored@));
    stored
}

/// Adds `data` to the ignore table under the identity `ignore_id`, owned by
/// `procedure`, at `now`. See [`ignore_created`].
pub fn create_ignore_record_at(
    db: &mut Database,
    data: &mut Ignore,
    procedure: &Procedure,
    ignore_id: String,
    now: Timestamp,
) -> (r: Result<Ignore, DbError>)
    ensures
        ignore_created(
            old(db)@,
            final(db)@,
            old(data)@,
            final(data)@,
            procedure@.procedure_id,
            ignore_id@,
            now,
            ignore_outcome(r),
        ),
{
    if !live_procedure_exists(db, procedure.procedure_id.as_str()) {
        return Err(DbError::NotFound);
    }
    Ok(append_ignore(db, data, &procedure.procedure_id, ignore_id, now))
}

/// Adds `data` to the ignore table under a fresh random identity, owned by
/// `procedure`, stamped with the current time. See [`ignore_created`].
pub fn create_ignore_record(db: &mut Database, data: &mut Ignore, procedure: &Procedure) -> (r: Result<Ignore, DbError>)
    ensures
        exists|id: Seq<char>, now: Timestamp|
            is_uuid_text(id) && #[trigger] ignore_created(
                old(db)@,
                final(db)@,
                old(data)@,
                final(data)@,
                procedure@.procedure_id,
                id,
                now,
                ignore_outcome(r),
            ),
{
    let now = clock_now();
    let ignore_id = random_uuid();
    let ghost id = ignore_id@;
    let r = create_ignore_record_at(db, data, procedure, ignore_id, now);
    assert(ignore_created(old(db)@, db@, old(data)@, data@, procedure@.procedure_id, id, now, ignore_outcome(r)));
    r
}

/// What an update at `now` does. Where a live row has the identity of
/// `given`, it is overwritten by `given`, last updated at `now`, and keeps
/// its ordinal and its owner. The first such row comes back and the data
/// gets the new instant. Else the answer is `NotFound` and nothing
/// changes; rows that are marked as deleted are never rewritten.
pub open spec fn ignore_updated(
    pre: DatabaseView,
    post: DatabaseView,
    given: IgnoreView,
    kept: IgnoreView,
    now: Timestamp,
    r: Result<IgnoreView, DbError>,
) -> bool {
    let pick = ignore_picked(given.ignore_id, false);
    let data = IgnoreView { update_at: now, ..given };
    if !none_of(pre.ignores, pick) {
        &&& kept == data
        &&& post == (DatabaseView {
            ignores: rewritten(pre.ignores, pick, ignore_overwrite(data)),
            ..pre
        })
        &&& r matches Ok(row) && first_is(pre.ignores, post.ignores, pick, Some(row))
    } else {
        &&& r == Err::<IgnoreView, DbError>(DbError::NotFound)
        &&& kept == given
        &&& post == pre
    }
}

/// Overwrites the live row that has the identity of `data` with `data`,
/// last updated at `now`. See [`ignore_updated`].
pub fn update_ignore_record_at(db: &mut Database, data: &mut Ignore, now: Timestamp) -> (r: Result<
    Ignore,
    DbError,
>)
    ensures
        ignore_updated(old(db)@, final(db)@, old(data)@, final(data)@, now, ignore_outcome(r)),
{
    if !picks_any(&db.ignores, &data.ignore_id, false) {
        return Err(DbError::NotFound);
    }
    data.update_at = now;
    let change = IgnoreChange::Overwrite(data.clone());
    let (_, first) = rewrite_ignores(&mut db.ignores, &data.ignore_id, false, &change);
    match first {
        Some(row) => Ok(row),
        None => Err(DbError::NotFound),
    }
}

/// Overwrites the live row that has the identity of `data` with `data`,
/// last updated at the current time. See [`ignore_updated`].
pub fn update_ignore_record(db: &mut Database, data: &mut Ignore) -> (r: Result<Ignore, DbError>)
    ensures
        exists|now: Timestamp| #[trigger]
            ignore_updated(old(db)@, final(db)@, old(data)@, final(data)@, now, ignore_outcome(r)),
{
    let now = clock_now();
    let r = update_ignore_record_at(db, data, now);
    assert(ignore_updated(old(db)@, db@, old(data)@, data@, now, ignore_outcome(r)));
    r
}

/// Marks the live rules of the procedure `pid` as deleted at `now`.
pub(crate) fn mark_rules_deleted(db: &mut Database, pid: &str, now: Timestamp)
    ensures
        final(db)@ == (DatabaseView {
            ignores: rewritten(old(db)@.ignores, ignore_picked(pid@, true), ignore_deleted_at(now)),
            ..old(db)@
        }),
{
    let key = String::from_str(pid);
    let change = IgnoreChange::Delete(now);
    let _ = rewrite_ignores(&mut db.ignores, &key, true, &change);
}

/// The live rows of the ignore table in their order: all of them, or
/// those of the procedure `uuid` where a key is given.
pub fn query_ignore_record(db: &Database, uuid: Option<&str>) -> (r: Result<Vec<Ignore>, DbError>)
    ensures
        r matches Ok(rows) && ignore_views(rows@) == db@.ignores.filter(ignore_selected(key_text(uuid))),
{
    let key: Option<String> = match uuid {
        Some(s) => Some(String::from_str(s)),
        None => None,
    };
    let ghost p = ignore_selected(key_text(uuid));
    let mut out: Vec<Ignore> = Vec::new();
    let mut i: usize = 0;
    while i < db.ignores.len()
        invariant
            i <= db.ignores.len(),
            p == ignore_selected(key_text(uuid)),
            match key {
                Some(k) => key_text(uuid) == Some(k@),
                None => key_text(uuid) is None,
            },
            ignore_views(out@) == db@.ignores.take(i as int).filter(p),
        decreases db.ignores.len() - i,
    {
        proof {
            lemma_count_of_next(db@.ignores, p, i as int);
        }
        let row = &db.ignores[i];
        let wanted = !row.is_deleted && match &key {
            Some(k) => row.procedure_id == *k,
            None => true,
        };
        if wanted {
            out.push(row.clone());
        }
        i = i + 1;
    }
    assert(db@.ignores.take(i as int) =~= db@.ignores);
    Ok(out)
}

/// What a deletion does at `now`.
///
/// With `own` given, the live row with that identity is picked; where
/// there is none the answer is `NotFound`. Else with `owner` given, the
/// live rows of that procedure are picked; a live procedure that
/// has no such row is answered with a count of 0, and an owner that is no
/// live procedure and has no such row with `NotFound`. Without any key
/// the answer is `NotFound`. Every picked row is marked as deleted at
/// `now`, the answer is how many rows that were, and nothing else
/// changes: a row that is marked as deleted already keeps the instant of
/// its deletion.
pub open spec fn ignore_deleted(
    pre: DatabaseView,
    post: DatabaseView,
    own: Option<Seq<char>>,
    owner: Option<Seq<char>>,
    now: Timestamp,
    r: Result<usize, DbError>,
) -> bool {
    match (own, owner) {
        (Some(k), _) => ignore_marked(pre, post, ignore_picked(k, false), false, now, r),
        (None, Some(k)) => ignore_marked(
            pre,
            post,
            ignore_picked(k, true),
            has_live_procedure(pre, k),
            now,
            r,
        ),
        (None, None) => post == pre && r == Err::<usize, DbError>(DbError::NotFound),
    }
}

/// The rows that `pick` picks are marked as deleted at `now` and counted.
/// Where it picks none, nothing changes, and the answer is a count of 0
/// where `may_be_none` holds and `NotFound` where it does not.
pub open spec fn ignore_marked(
    pre: DatabaseView,
    post: DatabaseView,
    pick: spec_fn(IgnoreView) -> bool,
    may_be_none: bool,
    now: Timestamp,
    r: Result<usize, DbError>,
) -> bool {
    if !none_of(pre.ignores, pick) {
        &&& post == (DatabaseView {
            ignores: rewritten(pre.ignores, pick, ignore_deleted_at(now)),
            ..pre
        })
        &&& is_count(r, count_of(pre.ignores, pick))
    } else if may_be_none {
        post == pre && r == Ok::<usize, DbError>(0)
    } else {
        post == pre && r == Err::<usize, DbError>(DbError::NotFound)
    }
}

/// Marks live rows as deleted at `now`. See [`ignore_deleted`].
pub fn delete_ignore_record_at(
    db: &mut Database,
    nid: Option<&str>,
    pid: Option<&str>,
    now: Timestamp,
) -> (r: Result<usize, DbError>)
    ensures
        ignore_deleted(old(db)@, final(db)@, key_text(nid), key_text(pid), now, r),
{
    let change = IgnoreChange::Delete(now);
    let ghost pre = db@.ignores;
    let (key, by_owner) = if let Some(uuid) = nid {
        (String::from_str(uuid), false)
    } else if let Some(uuid) = pid {
        (String::from_str(uuid), true)
    } else {
        return Err(DbError::NotFound);
    };
    let (count, first) = rewrite_ignores(&mut db.ignores, &key, by_owner, &change);
    match first {
        Some(_) => Ok(count),
        None => {
            proof {
                lemma_rewritten_none(pre, ignore_picked(key@, by_owner), change.effect());
            }
            if by_owner && live_procedure_exists(db, key.as_str()) {
                Ok(0)
            } else {
                Err(DbError::NotFound)
            }
        },
    }
}

/// Marks live rows as deleted at the current time. See [`ignore_deleted`].
pub fn delete_ignore_record(db: &mut Database, nid: Option<&str>, pid: Option<&str>) -> (r: Result<
    usize,
    DbError,
>)
    ensures
        exists|now: Timestamp| #[trigger]
            ignore_deleted(old(db)@, final(db)@, key_text(nid), key_text(pid), now, r),
{
    let now = clock_now();
    delete_ignore_record_at(db, nid, pid, now)
}

/// The keywords of the live rules of the procedure `pid`, in the order of
/// the table.
pub fn get_procedure_ignores(pid: &str, db: &Database) -> (data: Vec<String>)
    ensures
        data@.map_values(|s: String| s@) == db@.ignores.filter(
            ignore_selected(Some(pid@)),
        ).map_values(ignore_keyword()),
{
    let mut data: Vec<String> = Vec::new();
    let ghost texts = |s: String| s@;
    match query_ignore_record(db, Some(pid)) {
        Ok(ignores) => {
            let ghost rows = ignore_views(ignores@);
            let mut i: usize = 0;
            while i < ignores.len()
                invariant
                    i <= ignores.len(),
                    rows == ignore_views(ignores@),
                    texts == |s: String| s@,
                    data@.map_values(texts) == rows.take(i as int).map_values(ignore_keyword()),
                decreases ignores.len() - i,
            {
                let ghost before = data@.map_values(texts);
                data.push(ignores[i].keyword.clone());
                assert(data@.map_values(texts) =~= before.push(rows[i as int].keyword));
                i = i + 1;
            }
        },
        Err(_) => {},
    }
    data
}

/// Removes every row of the ignore table, live or deleted, and returns how
/// many rows that were.
pub fn clear_ignore_record(db: &mut Database) -> (r: Result<usize, DbError>)
    ensures
        final(db)@ == (DatabaseView { ignores: Seq::empty(), ..old(db)@ }),
        is_count(r, old(db)@.ignores.len()),
{
    let count = db.ignores.len();
    db.ignores.clear();
    assert(final(db)@.ignores =~= Seq::<IgnoreView>::empty());
    Ok(count)
}

/// Compacts the ignore table: removes the rows that are marked as deleted
/// for good and numbers the remaining rows from 1 in their order. Nothing
/// but the ordinal of a remaining row changes. Returns how many rows were
/// removed.
pub fn clean_record(db: &mut Database) -> (r: Result<usize, DbError>)
    ensures
        final(db)@ == (DatabaseView { ignores: ignores_compacted(old(db)@.ignores), ..old(db)@ }),
        is_count(r, count_of(old(db)@.ignores, ignore_is_deleted())),
{
    let ghost pre = db@.ignores;
    let ghost dead = ignore_is_deleted();
    let mut kept: Vec<Ignore> = Vec::new();
    let mut removed: usize = 0;
    let mut i: usize = 0;
    proof {
        lemma_compacted_empty(pre, ignore_is_live(), ignore_placed());
        lemma_compacted_empty(pre, dead, ignore_placed());
    }
    while i < db.ignores.len()
        invariant
            i <= db.ignores.len(),
            db@.ignores == pre,
            db@ == old(db)@,
            dead == ignore_is_deleted(),
            removed == count_of(pre.take(i as int), dead),
            removed <= i,
            kept.len() <= i,
            ignore_views(kept@) == ignores_compacted(pre.take(i as int)),
        decreases db.ignores.len() - i,
    {
        proof {
            lemma_count_of_next(pre, dead, i as int);
            lemma_compacted_next(pre, ignore_is_live(), ignore_placed(), i as int);
        }
        if db.ignores[i].is_deleted {
            removed = removed + 1;
        } else {
            let mut row = db.ignores[i].clone();
            row.id = ordinal_after(kept.len());
            kept.push(row);
        }
        i = i + 1;
    }
    assert(pre.take(i as int) =~= pre);
    db.ignores = kept;
    Ok(removed)
}

} // verus!
