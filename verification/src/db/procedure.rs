//! Procedures: the rows that say how a mission is backed up, and the
//! operations of the procedure table.

use vstd::prelude::*;
use vstd::string::StringExecFns;
use crate::db::table::{
    compacted, count_of, first_at, first_is, is_count, key_text, lemma_compacted_empty,
    lemma_compacted_next, lemma_count_of_next, next_ordinal, none_of, ordinal_after, rewritten,
};
use crate::db::ignore::{ignore_deleted_at, ignore_picked, mark_rules_deleted};
use crate::db::integrity::{lemma_procedure_deleted_keeps_references, references_resolve};
use crate::db::mission::{has_mission_of, mission_refers_to};
use crate::db::{Database, DatabaseView, DbError};
use crate::ident::{is_uuid_text, random_uuid};
use crate::time::{clock_now, Timestamp};

verus! {

/// Which entries of the source a backup leaves out.
#[derive(Clone, Copy, Debug, PartialEq, Eq, Structural)]
pub enum IgnoreMethod {
    /// Nothing is left out.
    Disabled,
    /// What the ignore rules of the procedure match.
    Custom,
    /// What the version-control ignore files of the source exclude.
    VcsIgnore,
}

impl IgnoreMethod {
    /// The number under which the ignore method is stored.
    pub open spec fn spec_code(self) -> int {
        match self {
            IgnoreMethod::Disabled => 0,
            IgnoreMethod::Custom => 1,
            IgnoreMethod::VcsIgnore => 2,
        }
    }

    /// The ignore method stored under `code`, if there is one.
    pub open spec fn spec_from_code(code: int) -> Option<IgnoreMethod> {
        if code == 0 {
            Some(IgnoreMethod::Disabled)
        } else if code == 1 {
            Some(IgnoreMethod::Custom)
        } else if code == 2 {
            Some(IgnoreMethod::VcsIgnore)
        } else {
            None
        }
    }

    /// The number under which the ignore method is stored.
    pub fn code(self) -> (c: i16)
        ensures
            c == self.spec_code(),
    {
        match self {
            IgnoreMethod::Disabled => 0,
            IgnoreMethod::Custom => 1,
            IgnoreMethod::VcsIgnore => 2,
        }
    }

    /// The ignore method stored under `code`; `None` for any other number.
    pub fn from_code(code: i16) -> (r: Option<IgnoreMethod>)
        ensures
            r == Self::spec_from_code(code as int),
    {
        if code == 0 {
            Some(IgnoreMethod::Disabled)
        } else if code == 1 {
            Some(IgnoreMethod::Custom)
        } else if code == 2 {
            Some(IgnoreMethod::VcsIgnore)
        } else {
            None
        }
    }
}

/// The archive format of a compressed artifact.
#[derive(Clone, Copy, Debug, PartialEq, Eq, Structural)]
pub enum CompressFormat {
    Uncompressed,
    Zip,
    TarGz,
    TarBz2,
    TarXz,
    SevenZip,
}

impl CompressFormat {
    /// The number under which the format is stored.
    pub open spec fn spec_code(self) -> int {
        match self {
            CompressFormat::Uncompressed => 0,
            CompressFormat::Zip => 1,
            CompressFormat::TarGz => 2,
            CompressFormat::TarBz2 => 3,
            CompressFormat::TarXz => 4,
            CompressFormat::SevenZip => 5,
        }
    }

    /// The format stored under `code`, if there is one.
    pub open spec fn spec_from_code(code: int) -> Option<CompressFormat> {
        if code == 0 {
            Some(CompressFormat::Uncompressed)
        } else if code == 1 {
            Some(CompressFormat::Zip)
        } else if code == 2 {
            Some(CompressFormat::TarGz)
        } else if code == 3 {
            Some(CompressFormat::TarBz2)
        } else if code == 4 {
            Some(CompressFormat::TarXz)
        } else if code == 5 {
            Some(CompressFormat::SevenZip)
        } else {
            None
        }
    }

    /// The number under which the format is stored.
    pub fn code(self) -> (c: i16)
        ensures
            c == self.spec_code(),
    {
        match self {
            CompressFormat::Uncompressed => 0,
            CompressFormat::Zip => 1,
            CompressFormat::TarGz => 2,
            CompressFormat::TarBz2 => 3,
            CompressFormat::TarXz => 4,
            CompressFormat::SevenZip => 5,
        }
    }

    /// The format stored under `code`; `None` for any other number.
    pub fn from_code(code: i16) -> (r: Option<CompressFormat>)
        ensures
            r == Self::spec_from_code(code as int),
    {
        if code == 0 {
            Some(CompressFormat::Uncompressed)
        } else if code == 1 {
            Some(CompressFormat::Zip)
        } else if code == 2 {
            Some(CompressFormat::TarGz)
        } else if code == 3 {
            Some(CompressFormat::TarBz2)
        } else if code == 4 {
            Some(CompressFormat::TarXz)
        } else if code == 5 {
            Some(CompressFormat::SevenZip)
        } else {
            None
        }
    }
}

/// What sets a run of a mission off.
#[derive(Clone, Copy, Debug, PartialEq, Eq, Structural)]
pub enum TriggerKind {
    /// Nothing.
    Reserved,
    /// A cron schedule.
    Cron,
    /// A change under the source path.
    Monitor,
}

impl TriggerKind {
    /// The number under which the trigger kind is stored.
    pub open spec fn spec_code(self) -> int {
        match self {
            TriggerKind::Reserved => 0,
            TriggerKind::Cron => 1,
            TriggerKind::Monitor => 2,
        }
    }

    /// The trigger kind stored under `code`, if there is one.
    pub open spec fn spec_from_code(code: int) -> Option<TriggerKind> {
        if code == 0 {
            Some(TriggerKind::Reserved)
        } else if code == 1 {
            Some(TriggerKind::Cron)
        } else if code == 2 {
            Some(TriggerKind::Monitor)
        } else {
            None
        }
    }

    /// The number under which the trigger kind is stored.
    pub fn code(self) -> (c: i16)
        ensures
            c == self.spec_code(),
    {
        match self {
            TriggerKind::Reserved => 0,
            TriggerKind::Cron => 1,
            TriggerKind::Monitor => 2,
        }
    }

    /// The trigger kind stored under `code`; `None` for any other number.
    pub fn from_code(code: i16) -> (r: Option<TriggerKind>)
        ensures
            r == Self::spec_from_code(code as int),
    {
        if code == 0 {
            Some(TriggerKind::Reserved)
        } else if code == 1 {
            Some(TriggerKind::Cron)
        } else if code == 2 {
            Some(TriggerKind::Monitor)
        } else {
            None
        }
    }
}

/// How the history of artifacts is pruned.
#[derive(Clone, Copy, Debug, PartialEq, Eq, Structural)]
pub enum RestrictPolicy {
    /// Nothing is pruned.
    Unrestricted,
    /// By age.
    ByDays,
    /// By accumulated size.
    BySize,
    /// By age and by accumulated size.
    ByBoth,
}

impl RestrictPolicy {
    /// The number under which the policy is stored.
    pub open spec fn spec_code(self) -> int {
        match self {
            RestrictPolicy::Unrestricted => 0,
            RestrictPolicy::ByDays => 1,
            RestrictPolicy::BySize => 2,
            RestrictPolicy::ByBoth => 3,
        }
    }

    /// The policy stored under `code`, if there is one.
    pub open spec fn spec_from_code(code: int) -> Option<RestrictPolicy> {
        if code == 0 {
            Some(RestrictPolicy::Unrestricted)
        } else if code == 1 {
            Some(RestrictPolicy::ByDays)
        } else if code == 2 {
            Some(RestrictPolicy::BySize)
        } else if code == 3 {
            Some(RestrictPolicy::ByBoth)
        } else {
            None
        }
    }

    /// The number under which the policy is stored.
    pub fn code(self) -> (c: i16)
        ensures
            c == self.spec_code(),
    {
        match self {
            RestrictPolicy::Unrestricted => 0,
            RestrictPolicy::ByDays => 1,
            RestrictPolicy::BySize => 2,
            RestrictPolicy::ByBoth => 3,
        }
    }

    /// The policy stored under `code`; `None` for any other number.
    pub fn from_code(code: i16) -> (r: Option<RestrictPolicy>)
        ensures
            r == Self::spec_from_code(code as int),
    {
        if code == 0 {
            Some(RestrictPolicy::Unrestricted)
        } else if code == 1 {
            Some(RestrictPolicy::ByDays)
        } else if code == 2 {
            Some(RestrictPolicy::BySize)
        } else if code == 3 {
            Some(RestrictPolicy::ByBoth)
        } else {
            None
        }
    }
}

/// Every kind of a procedure is found again under its own code.
pub proof fn lemma_procedure_codes_round_trip(
    ignore_method: IgnoreMethod,
    format: CompressFormat,
    trigger: TriggerKind,
    restrict: RestrictPolicy,
)
    ensures
        IgnoreMethod::spec_from_code(ignore_method.spec_code()) == Some(ignore_method),
        CompressFormat::spec_from_code(format.spec_code()) == Some(format),
        TriggerKind::spec_from_code(trigger.spec_code()) == Some(trigger),
        RestrictPolicy::spec_from_code(restrict.spec_code()) == Some(restrict),
{
}

/// How a mission is backed up: what is left out, whether and how the
/// artifact is compressed, what triggers a run, and how the history of
/// artifacts is pruned.
///
/// `procedure_id` is the identity of the row; `id` is a display ordinal only.
#[derive(Debug, PartialEq, Eq)]
pub struct Procedure {
    pub id: i32,
    pub procedure_id: String,
    pub name: String,
    pub has_ignores: bool,
    pub ignore_method: IgnoreMethod,
    /// Whether the artifact is compressed.
    pub is_compress: bool,
    pub compress_format: CompressFormat,
    pub trigger: TriggerKind,
    /// Seven fields: second, minute, hour, day of month, month, day of week,
    /// year.
    pub cron_expression: String,
    pub restrict: RestrictPolicy,
    /// How many days an artifact is kept under a policy by days.
    pub restrict_days: i16,
    /// How many bytes of artifacts are kept under a policy by size.
    pub restrict_size: i64,
    pub reserved_0: String,
    pub reserved_1: String,
    pub reserved_2: String,
    pub create_at: Timestamp,
    pub update_at: Timestamp,
    pub is_deleted: bool,
    pub delete_at: Timestamp,
}

/// The mathematical content of a [`Procedure`].
pub struct ProcedureView {
    pub id: i32,
    pub procedure_id: Seq<char>,
    pub name: Seq<char>,
    pub has_ignores: bool,
    pub ignore_method: IgnoreMethod,
    pub is_compress: bool,
    pub compress_format: CompressFormat,
    pub trigger: TriggerKind,
    pub cron_expression: Seq<char>,
    pub restrict: RestrictPolicy,
    pub restrict_days: i16,
    pub restrict_size: i64,
    pub reserved_0: Seq<char>,
    pub reserved_1: Seq<char>,
    pub reserved_2: Seq<char>,
    pub create_at: Timestamp,
    pub update_at: Timestamp,
    pub is_deleted: bool,
    pub delete_at: Timestamp,
}

impl View for Procedure {
    type V = ProcedureView;

    open spec fn view(&self) -> ProcedureView {
        ProcedureView {
            id: self.id,
            procedure_id: self.procedure_id@,
            name: self.name@,
            has_ignores: self.has_ignores,
            ignore_method: self.ignore_method,
            is_compress: self.is_compress,
            compress_format: self.compress_format,
            trigger: self.trigger,
            cron_expression: self.cron_expression@,
            restrict: self.restrict,
            restrict_days: self.restrict_days,
            restrict_size: self.restrict_size,
            reserved_0: self.reserved_0@,
            reserved_1: self.reserved_1@,
            reserved_2: self.reserved_2@,
            create_at: self.create_at,
            update_at: self.update_at,
            is_deleted: self.is_deleted,
            delete_at: self.delete_at,
        }
    }
}

impl Clone for Procedure {
    fn clone(&self) -> (r: Self)
        ensures
            r == *self,
    {
        Procedure {
            id: self.id,
            procedure_id: self.procedure_id.clone(),
            name: self.name.clone(),
            has_ignores: self.has_ignores,
            ignore_method: self.ignore_method,
            is_compress: self.is_compress,
            compress_format: self.compress_format,
            trigger: self.trigger,
            cron_expression: self.cron_expression.clone(),
            restrict: self.restrict,
            restrict_days: self.restrict_days,
            restrict_size: self.restrict_size,
            reserved_0: self.reserved_0.clone(),
            reserved_1: self.reserved_1.clone(),
            reserved_2: self.reserved_2.clone(),
            create_at: self.create_at,
            update_at: self.update_at,
            is_deleted: self.is_deleted,
            delete_at: self.delete_at,
        }
    }
}

/// The content of a procedure that nobody has filled in yet: custom ignore
/// rules, no compression (format zip once switched on), triggered by cron
/// with an empty expression, no retention (3 days and 1024 bytes once
/// switched on), live, every instant `now`, not yet placed in a table.
pub open spec fn blank_procedure(procedure_id: Seq<char>, now: Timestamp) -> ProcedureView {
    ProcedureView {
        id: 0,
        procedure_id,
        name: Seq::empty(),
        has_ignores: false,
        ignore_method: IgnoreMethod::Custom,
        is_compress: false,
        compress_format: CompressFormat::Zip,
        trigger: TriggerKind::Cron,
        cron_expression: Seq::empty(),
        restrict: RestrictPolicy::Unrestricted,
        restrict_days: 3,
        restrict_size: 1024,
        reserved_0: Seq::empty(),
        reserved_1: Seq::empty(),
        reserved_2: Seq::empty(),
        create_at: now,
        update_at: now,
        is_deleted: false,
        delete_at: now,
    }
}

impl Procedure {
    /// A blank procedure with the given identity and instant.
    pub fn blank(procedure_id: String, now: Timestamp) -> (r: Procedure)
        ensures
            r@ == blank_procedure(procedure_id@, now),
    {
        Procedure {
            id: 0,
            procedure_id,
            name: String::new(),
            has_ignores: false,
            ignore_method: IgnoreMethod::Custom,
            is_compress: false,
            compress_format: CompressFormat::Zip,
            trigger: TriggerKind::Cron,
            cron_expression: String::new(),
            restrict: RestrictPolicy::Unrestricted,
            restrict_days: 3,
            restrict_size: 1024,
            reserved_0: String::new(),
            reserved_1: String::new(),
            reserved_2: String::new(),
            create_at: now,
            update_at: now,
            is_deleted: false,
            delete_at: now,
        }
    }
}

/// `r` is a blank procedure with a hyphenated UUID for its identity.
pub open spec fn procedure_is_blank(r: ProcedureView) -> bool {
    &&& is_uuid_text(r.procedure_id)
    &&& r == blank_procedure(r.procedure_id, r.create_at)
}

impl Default for Procedure {
    /// A blank procedure with a fresh random identity, stamped with the
    /// current time.
    fn default() -> (r: Procedure)
        ensures
            procedure_is_blank(r@),
    {
        let now = clock_now();
        Procedure::blank(random_uuid(), now)
    }
}

/// The rows that a query for `key` returns: the live rows, and of these
/// only the one identified by `key` where a key is given.
pub open spec fn procedure_selected(key: Option<Seq<char>>) -> spec_fn(ProcedureView) -> bool {
    |r: ProcedureView| !r.is_deleted && (key matches Some(k) ==> r.procedure_id == k)
}

/// Replaces a row by `data`. The row keeps its ordinal and what says
/// whether and when it was deleted.
pub open spec fn procedure_overwrite(data: ProcedureView) -> spec_fn(ProcedureView) -> ProcedureView {
    |r: ProcedureView|
        ProcedureView { id: r.id, is_deleted: r.is_deleted, delete_at: r.delete_at, ..data }
}

/// The procedure table has a live row with the identity `key`.
pub open spec fn has_live_procedure(db: DatabaseView, key: Seq<char>) -> bool {
    exists|i: int|
        0 <= i < db.procedures.len() && !(#[trigger] db.procedures[i]).is_deleted
            && db.procedures[i].procedure_id == key
}

/// The outcome of an operation that hands a row back, as the contracts
/// hold it.
pub open spec fn procedure_outcome(r: Result<Procedure, DbError>) -> Result<
    ProcedureView,
    DbError,
> {
    match r {
        Ok(row) => Ok(row@),
        Err(e) => Err(e),
    }
}

/// Marks a row as deleted at `now`.
pub open spec fn procedure_deleted_at(now: Timestamp) -> spec_fn(ProcedureView) -> ProcedureView {
    |r: ProcedureView| ProcedureView { is_deleted: true, delete_at: now, ..r }
}

/// The views of a sequence of procedures, row by row.
pub open spec fn procedure_views(rows: Seq<Procedure>) -> Seq<ProcedureView> {
    rows.map_values(|r: Procedure| r@)
}

/// The rows that are marked as deleted.
pub open spec fn procedure_is_deleted() -> spec_fn(ProcedureView) -> bool {
    |r: ProcedureView| r.is_deleted
}

/// The rows that are not marked as deleted.
pub open spec fn procedure_is_live() -> spec_fn(ProcedureView) -> bool {
    |r: ProcedureView| !r.is_deleted
}

/// Puts a row in its place after compaction: the row at place `place`
/// (counted from 0) gets the ordinal `place + 1` and is otherwise kept.
pub open spec fn procedure_placed() -> spec_fn(ProcedureView, int) -> ProcedureView {
    |r: ProcedureView, place: int| ProcedureView { id: next_ordinal(place as nat) as i32, ..r }
}

/// The table after compaction: the live rows of `rows` in their order,
/// numbered from 1.
pub open spec fn procedures_compacted(rows: Seq<ProcedureView>) -> Seq<ProcedureView> {
    compacted(rows, procedure_is_live(), procedure_placed())
}

/// What may be done to the rows that an update picks.
enum ProcedureChange {
    Overwrite(Procedure),
    Delete(Timestamp),
}

impl ProcedureChange {
    spec fn effect(self) -> spec_fn(ProcedureView) -> ProcedureView {
        match self {
            ProcedureChange::Overwrite(data) => procedure_overwrite(data@),
            ProcedureChange::Delete(now) => procedure_deleted_at(now),
        }
    }

    fn apply(&self, row: &Procedure) -> (r: Procedure)
        ensures
            r@ == (self.effect())(row@),
    {
        match self {
            ProcedureChange::Overwrite(data) => {
                let mut r = data.clone();
                r.id = row.id;
                r.is_deleted = row.is_deleted;
                r.delete_at = row.delete_at;
                r
            },
            ProcedureChange::Delete(now) => {
                let mut r = row.clone();
                r.is_deleted = true;
                r.delete_at = *now;
                r
            },
        }
    }
}

/// Applies `change` to every live row identified by `key`. Returns how many
/// rows that were, and the first of them as it stands afterwards.
fn rewrite_procedures(rows: &mut Vec<Procedure>, key: &String, change: &ProcedureChange) -> (r: (usize, Option<Procedure>))
    ensures
        procedure_views(final(rows)@) == rewritten(procedure_views(old(rows)@), procedure_selected(Some(key@)), change.effect()),
        r.0 == count_of(procedure_views(old(rows)@), procedure_selected(Some(key@))),
        first_is(
            procedure_views(old(rows)@),
            procedure_views(final(rows)@),
            procedure_selected(Some(key@)),
            match r.1 {
                Some(row) => Some(row@),
                None => None,
            },
        ),
{
    let ghost pre = procedure_views(rows@);
    let ghost p = procedure_selected(Some(key@));
    let ghost f = change.effect();
    let mut first: Option<Procedure> = None;
    let mut count: usize = 0;
    let mut i: usize = 0;
    while i < rows.len()
        invariant
            i <= rows.len(),
            rows.len() == pre.len(),
            p == procedure_selected(Some(key@)),
            f == change.effect(),
            count == count_of(pre.take(i as int), p),
            count <= i,
            forall|j: int| 0 <= j < i ==> procedure_views(rows@)[j] == rewritten(pre, p, f)[j],
            forall|j: int| i <= j < pre.len() ==> procedure_views(rows@)[j] == pre[j],
            match first {
                Some(row) => exists|k: int|
                    k < i && first_at(pre, p, k) && row@ == procedure_views(rows@)[k],
                None => forall|j: int| 0 <= j < i ==> !p(#[trigger] pre[j]),
            },
        decreases rows.len() - i,
    {
        proof {
            lemma_count_of_next(pre, p, i as int);
        }
        let picked = !rows[i].is_deleted && rows[i].procedure_id == *key;
        if picked {
            let row = change.apply(&rows[i]);
            if first.is_none() {
                first = Some(row.clone());
                assert(first_at(pre, p, i as int));
            }
            rows.set(i, row);
            count = count + 1;
        }
        assert forall|j: int| 0 <= j < i + 1 implies procedure_views(rows@)[j] == rewritten(
            pre,
            p,
            f,
        )[j] by {
        }
        i = i + 1;
    }
    assert(pre.take(i as int) =~= pre);
    (count, first)
}

/// What adding a row does: `stored`, the new last row of the table, is
/// `given` with a hyphenated UUID for its identity, with the next ordinal of
/// the table and with one instant for its creation and its last update.
/// Nothing else changes.
pub open spec fn procedure_created(pre: DatabaseView, post: DatabaseView, given: ProcedureView, stored: ProcedureView) -> bool {
    &&& is_uuid_text(stored.procedure_id)
    &&& stored == (ProcedureView {
            id: next_ordinal(pre.procedures.len()) as i32,
            procedure_id: stored.procedure_id,
            create_at: stored.create_at,
            update_at: stored.create_at,
            ..given
        })
    &&& post == (DatabaseView { procedures: pre.procedures.push(stored), ..pre })
}

/// Adds `data` to the procedure table under the identity `procedure_id`,
/// created and last updated at `now`, with the next ordinal of the table.
/// `data` is brought up to date and the stored row is returned.
pub fn create_procedure_record_at(
    db: &mut Database,
    data: &mut Procedure,
    procedure_id: String,
    now: Timestamp,
) -> (stored: Procedure)
    ensures
        stored@ == (ProcedureView {
            id: next_ordinal(old(db)@.procedures.len()) as i32,
            procedure_id: procedure_id@,
            create_at: now,
            update_at: now,
            ..old(data)@
        }),
        final(data)@ == stored@,
        final(db)@ == (DatabaseView { procedures: old(db)@.procedures.push(stored@), ..old(db)@ }),
{
    data.id = ordinal_after(db.procedures.len());
    data.procedure_id = procedure_id;
    data.create_at = now;
    data.update_at = now;
    let stored = data.clone();
    db.procedures.push(data.clone());
    assert(final(db)@.procedures =~= old(db)@.procedures.push(stored@));
    stored
}

/// Adds `data` to the procedure table under a fresh random identity,
/// stamped with the current time. See [`procedure_created`].
pub fn create_procedure_record(db: &mut Database, data: &mut Procedure) -> (r: Result<Procedure, DbError>)
    ensures
        r matches Ok(stored) && final(data)@ == stored@ && procedure_created(old(db)@, final(db)@, old(data)@, stored@),
{
    let now = clock_now();
    let procedure_id = random_uuid();
    Ok(create_procedure_record_at(db, data, procedure_id, now))
}

/// What an update at `now` does. Where a live row has the identity of
/// `given`, every live row with that identity is overwritten by `given`,
/// last updated at `now`, and keeps its ordinal. The first of these rows
/// comes back and the data gets the new instant. Else the answer is
/// `NotFound` and nothing changes; rows that are marked as deleted are
/// never rewritten.
pub open spec fn procedure_updated(
    pre: DatabaseView,
    post: DatabaseView,
    given: ProcedureView,
    kept: ProcedureView,
    now: Timestamp,
    r: Result<ProcedureView, DbError>,
) -> bool {
    let pick = procedure_selected(Some(given.procedure_id));
    let data = ProcedureView { update_at: now, ..given };
    if !none_of(pre.procedures, pick) {
        &&& kept == data
        &&& post == (DatabaseView {
            procedures: rewritten(pre.procedures, pick, procedure_overwrite(data)),
            ..pre
        })
        &&& r matches Ok(row) && first_is(pre.procedures, post.procedures, pick, Some(row))
    } else {
        &&& r == Err::<ProcedureView, DbError>(DbError::NotFound)
        &&& kept == given
        &&& post == pre
    }
}

/// The place of the first live row with the identity `key`, if there is
/// one.
fn find_procedure(db: &Database, key: &String) -> (r: Option<usize>)
    ensures
        match r {
            Some(i) => first_at(db@.procedures, procedure_selected(Some(key@)), i as int),
            None => none_of(db@.procedures, procedure_selected(Some(key@))),
        },
{
    let mut i: usize = 0;
    while i < db.procedures.len()
        invariant
            i <= db.procedures.len(),
            forall|j: int|
                0 <= j < i ==> !(procedure_selected(Some(key@)))(#[trigger] db@.procedures[j]),
        decreases db.procedures.len() - i,
    {
        assert(db@.procedures[i as int] == db.procedures[i as int]@);
        if !db.procedures[i].is_deleted && db.procedures[i].procedure_id == *key {
            return Some(i);
        }
        i = i + 1;
    }
    None
}

/// A procedure is live in the store exactly where the query by its
/// identity finds a row.
pub proof fn lemma_live_procedure_is_found(db: DatabaseView, key: Seq<char>)
    ensures
        has_live_procedure(db, key) == (db.procedures.filter(procedure_selected(Some(key))).len()
            > 0),
{
    let p = procedure_selected(Some(key));
    let found = db.procedures.filter(p);
    if found.len() > 0 {
        db.procedures.lemma_filter_pred(p, 0);
        assert(found.contains(found[0]));
        db.procedures.lemma_filter_contains_rev(p, found[0]);
        let i = choose|i: int| 0 <= i < db.procedures.len() && db.procedures[i] == found[0];
        assert(!db.procedures[i].is_deleted && db.procedures[i].procedure_id == key);
    }
    if has_live_procedure(db, key) {
        let i = choose|i: int|
            0 <= i < db.procedures.len() && !(#[trigger] db.procedures[i]).is_deleted
                && db.procedures[i].procedure_id == key;
        assert(p(db.procedures[i]));
        db.procedures.lemma_filter_contains(p, i);
    }
}

/// Whether a live procedure has the identity `key`.
pub fn live_procedure_exists(db: &Database, key: &str) -> (r: bool)
    ensures
        r == has_live_procedure(db@, key@),
        r == !none_of(db@.procedures, procedure_selected(Some(key@))),
{
    let k = String::from_str(key);
    match find_procedure(db, &k) {
        Some(i) => {
            assert(db@.procedures[i as int].procedure_id == key@);
            assert((procedure_selected(Some(key@)))(db@.procedures[i as int]));
            true
        },
        None => {
            assert forall|j: int| 0 <= j < db@.procedures.len() implies !(!(
            #[trigger] db@.procedures[j]).is_deleted && db@.procedures[j].procedure_id == key@) by {
                assert(!(procedure_selected(Some(key@)))(db@.procedures[j]));
            }
            false
        },
    }
}

/// Overwrites the live rows that have the identity of `data` with `data`,
/// last updated at `now`. See [`procedure_updated`].
pub fn update_procedure_record_at(db: &mut Database, data: &mut Procedure, now: Timestamp) -> (r: Result<
    Procedure,
    DbError,
>)
    ensures
        procedure_updated(
            old(db)@,
            final(db)@,
            old(data)@,
            final(data)@,
            now,
            procedure_outcome(r),
        ),
{
    if find_procedure(db, &data.procedure_id).is_none() {
        return Err(DbError::NotFound);
    }
    data.update_at = now;
    let change = ProcedureChange::Overwrite(data.clone());
    let (_, first) = rewrite_procedures(&mut db.procedures, &data.procedure_id, &change);
    match first {
        Some(row) => Ok(row),
        None => Err(DbError::NotFound),
    }
}

/// Overwrites the live rows that have the identity of `data` with `data`,
/// last updated at the current time. See [`procedure_updated`].
pub fn update_procedure_record(db: &mut Database, data: &mut Procedure) -> (r: Result<Procedure, DbError>)
    ensures
        exists|now: Timestamp| #[trigger]
            procedure_updated(
                old(db)@,
                final(db)@,
                old(data)@,
                final(data)@,
                now,
                procedure_outcome(r),
            ),
{
    let now = clock_now();
    let r = update_procedure_record_at(db, data, now);
    assert(procedure_updated(old(db)@, db@, old(data)@, data@, now, procedure_outcome(r)));
    r
}

/// The live rows of the procedure table in their order: all of them, or
/// the one identified by `pid` where a key is given.
pub fn query_procedure_record(db: &Database, pid: Option<&str>) -> (r: Result<Vec<Procedure>, DbError>)
    ensures
        r matches Ok(rows) && procedure_views(rows@) == db@.procedures.filter(procedure_selected(key_text(pid))),
{
    let key: Option<String> = match pid {
        Some(s) => Some(String::from_str(s)),
        None => None,
    };
    let ghost p = procedure_selected(key_text(pid));
    let mut out: Vec<Procedure> = Vec::new();
    let mut i: usize = 0;
    while i < db.procedures.len()
        invariant
            i <= db.procedures.len(),
            p == procedure_selected(key_text(pid)),
            match key {
                Some(k) => key_text(pid) == Some(k@),
                None => key_text(pid) is None,
            },
            procedure_views(out@) == db@.procedures.take(i as int).filter(p),
        decreases db.procedures.len() - i,
    {
        proof {
            lemma_count_of_next(db@.procedures, p, i as int);
        }
        let row = &db.procedures[i];
        let wanted = !row.is_deleted && match &key {
            Some(k) => row.procedure_id == *k,
            None => true,
        };
        if wanted {
            out.push(row.clone());
        }
        i = i + 1;
    }
    assert(db@.procedures.take(i as int) =~= db@.procedures);
    Ok(out)
}

/// The store after the procedure `key` and its ignore rules were marked
/// as deleted at `now`.
pub open spec fn without_procedure(pre: DatabaseView, key: Seq<char>, now: Timestamp) -> DatabaseView {
    DatabaseView {
        procedures: rewritten(
            pre.procedures,
            procedure_selected(Some(key)),
            procedure_deleted_at(now),
        ),
        ignores: rewritten(pre.ignores, ignore_picked(key, true), ignore_deleted_at(now)),
        ..pre
    }
}

/// What a deletion by key does at `now`. Where a key is given, a live
/// row has that identity and no live mission refers to it, every live row
/// with it is marked as deleted at `now`, and so are the live ignore rules
/// of the procedure; the answer is how many procedures that were. A
/// procedure that a live mission refers to is not deleted: the answer is
/// `InvalidTransition`. Without a key or without such a live row the answer
/// is `NotFound`. Every refusal leaves the store as it is.
pub open spec fn procedure_deleted(
    pre: DatabaseView,
    post: DatabaseView,
    key: Option<Seq<char>>,
    now: Timestamp,
    r: Result<usize, DbError>,
) -> bool {
    match key {
        Some(k) if !none_of(pre.procedures, procedure_selected(Some(k))) => if has_mission_of(
            pre,
            k,
        ) {
            post == pre && r == Err::<usize, DbError>(DbError::InvalidTransition)
        } else {
            &&& post == without_procedure(pre, k, now)
            &&& is_count(r, count_of(pre.procedures, procedure_selected(Some(k))))
        },
        _ => post == pre && r == Err::<usize, DbError>(DbError::NotFound),
    }
}

/// Marks the live rows identified by `pid`, and the rules that belong to
/// them, as deleted at `now`, unless a live mission refers to the
/// procedure. See [`procedure_deleted`]. Where every reference of a live
/// row led to a live row before, it does so afterwards.
pub fn delete_procedure_record_at(db: &mut Database, pid: Option<&str>, now: Timestamp) -> (r: Result<
    usize,
    DbError,
>)
    ensures
        procedure_deleted(old(db)@, final(db)@, key_text(pid), now, r),
        references_resolve(old(db)@) ==> references_resolve(final(db)@),
{
    match pid {
        Some(uid) => {
            let key = String::from_str(uid);
            if find_procedure(db, &key).is_none() {
                return Err(DbError::NotFound);
            }
            if mission_refers_to(db, uid) {
                return Err(DbError::InvalidTransition);
            }
            let change = ProcedureChange::Delete(now);
            let (count, _) = rewrite_procedures(&mut db.procedures, &key, &change);
            mark_rules_deleted(db, uid, now);
            proof {
                if references_resolve(old(db)@) {
                    lemma_procedure_deleted_keeps_references(old(db)@, uid@, now);
                }
            }
            Ok(count)
        },
        None => Err(DbError::NotFound),
    }
}

/// Marks the live rows identified by `pid`, and the rules that belong to
/// them, as deleted at the current time. See [`procedure_deleted`].
pub fn delete_procedure_record(db: &mut Database, pid: Option<&str>) -> (r: Result<usize, DbError>)
    ensures
        exists|now: Timestamp| #[trigger] procedure_deleted(old(db)@, final(db)@, key_text(pid), now, r),
        references_resolve(old(db)@) ==> references_resolve(final(db)@),
{
    let now = clock_now();
    delete_procedure_record_at(db, pid, now)
}

/// Removes every row of the procedure table, live or deleted, and returns how
/// many rows that were.
pub fn clear_procedure_record(db: &mut Database) -> (r: Result<usize, DbError>)
    ensures
        final(db)@ == (DatabaseView { procedures: Seq::empty(), ..old(db)@ }),
        is_count(r, old(db)@.procedures.len()),
{
    let count = db.procedures.len();
    db.procedures.clear();
    assert(final(db)@.procedures =~= Seq::<ProcedureView>::empty());
    Ok(count)
}

/// Compacts the procedure table: removes the rows that are marked as deleted
/// for good and numbers the remaining rows from 1 in their order. Nothing
/// but the ordinal of a remaining row changes. Returns how many rows were
/// removed.
pub fn clean_record(db: &mut Database) -> (r: Result<usize, DbError>)
    ensures
        final(db)@ == (DatabaseView { procedures: procedures_compacted(old(db)@.procedures), ..old(db)@ }),
        is_count(r, count_of(old(db)@.procedures, procedure_is_deleted())),
{
    let ghost pre = db@.procedures;
    let ghost dead = procedure_is_deleted();
    let mut kept: Vec<Procedure> = Vec::new();
    let mut removed: usize = 0;
    let mut i: usize = 0;
    proof {
        lemma_compacted_empty(pre, procedure_is_live(), procedure_placed());
        lemma_compacted_empty(pre, dead, procedure_placed());
    }
    while i < db.procedures.len()
        invariant
            i <= db.procedures.len(),
            db@.procedures == pre,
            db@ == old(db)@,
            dead == procedure_is_deleted(),
            removed == count_of(pre.take(i as int), dead),
            removed <= i,
            kept.len() <= i,
            procedure_views(kept@) == procedures_compacted(pre.take(i as int)),
        decreases db.procedures.len() - i,
    {
        proof {
            lemma_count_of_next(pre, dead, i as int);
            lemma_compacted_next(pre, procedure_is_live(), procedure_placed(), i as int);
        }
        if db.procedures[i].is_deleted {
            removed = removed + 1;
        } else {
            let mut row = db.procedures[i].clone();
            row.id = ordinal_after(kept.len());
            kept.push(row);
        }
        i = i + 1;
    }
    assert(pre.take(i as int) =~= pre);
    db.procedures = kept;
    Ok(removed)
}

} // verus!
