//! The tables of the store and the operations on their rows.

pub mod table;
pub mod mission;
pub mod procedure;
pub mod ignore;
pub mod backup;
pub mod integrity;
pub mod owners;

use vstd::prelude::*;
use vstd::string::StringExecFns;
use crate::db::backup::{
    backup_created, backup_deleted, backup_is_blank, backup_is_deleted, backup_outcome,
    backup_selected, backup_views, backups_compacted, Backup, BackupView,
};
use crate::db::ignore::{
    ignore_created, ignore_deleted, ignore_is_blank, ignore_is_deleted, ignore_outcome,
    ignore_selected, ignore_updated, ignore_views, ignores_compacted, Ignore, IgnoreView,
};
use crate::db::mission::{
    mission_created, mission_deleted, mission_is_blank, mission_is_deleted, mission_outcome,
    mission_selected, mission_updated, mission_views, missions_compacted, Mission, MissionView,
};
use crate::db::procedure::{
    procedure_created, procedure_deleted, procedure_is_blank, procedure_is_deleted,
    procedure_outcome, procedure_selected, procedure_updated, procedure_views,
    procedures_compacted, Procedure, ProcedureView,
};
use crate::db::table::{count_of, is_count, key_text};
use crate::ident::is_uuid_text;
use crate::time::Timestamp;

verus! {

/// Why an operation on the store did not go through.
#[derive(Clone, Copy, Debug, PartialEq, Eq, Structural)]
pub enum DbError {
    /// No such table, no live row with the identity, no live row that is
    /// referred to, or no key to look a row up by.
    NotFound,
    /// The row stands in the way of the change: its status does not allow
    /// it, or a live row still refers to it.
    InvalidTransition,
    /// The cron expression of the procedure is no schedule.
    InvalidCronExpression,
}

/// The store: one table per kind of row, each in the order in which its
/// rows were added.
pub struct Database {
    pub missions: Vec<Mission>,
    pub procedures: Vec<Procedure>,
    pub ignores: Vec<Ignore>,
    pub backups: Vec<Backup>,
}

/// The mathematical content of a [`Database`].
pub struct DatabaseView {
    pub missions: Seq<MissionView>,
    pub procedures: Seq<ProcedureView>,
    pub ignores: Seq<IgnoreView>,
    pub backups: Seq<BackupView>,
}

impl View for Database {
    type V = DatabaseView;

    open spec fn view(&self) -> DatabaseView {
        DatabaseView {
            missions: mission_views(self.missions@),
            procedures: procedure_views(self.procedures@),
            ignores: ignore_views(self.ignores@),
            backups: backup_views(self.backups@),
        }
    }
}

impl Database {
    /// A store without rows.
    pub fn new() -> (db: Database)
        ensures
            db@.missions.len() == 0,
            db@.procedures.len() == 0,
            db@.ignores.len() == 0,
            db@.backups.len() == 0,
    {
        Database {
            missions: Vec::new(),
            procedures: Vec::new(),
            ignores: Vec::new(),
            backups: Vec::new(),
        }
    }
}

/// One row of each kind side by side. An operation on one table reads and
/// writes the part of that table and leaves the other parts alone.
#[derive(Debug, PartialEq, Eq)]
pub struct Record {
    pub backup: Backup,
    pub ignore: Ignore,
    pub mission: Mission,
    pub procedure: Procedure,
}

/// The mathematical content of a [`Record`].
pub struct RecordView {
    pub backup: BackupView,
    pub ignore: IgnoreView,
    pub mission: MissionView,
    pub procedure: ProcedureView,
}

impl View for Record {
    type V = RecordView;

    open spec fn view(&self) -> RecordView {
        RecordView {
            backup: self.backup@,
            ignore: self.ignore@,
            mission: self.mission@,
            procedure: self.procedure@,
        }
    }
}

impl Clone for Record {
    fn clone(&self) -> (r: Self)
        ensures
            r == *self,
    {
        Record {
            backup: self.backup.clone(),
            ignore: self.ignore.clone(),
            mission: self.mission.clone(),
            procedure: self.procedure.clone(),
        }
    }
}

/// Every part of `r` is blank.
pub open spec fn record_is_blank(r: RecordView) -> bool {
    &&& backup_is_blank(r.backup)
    &&& ignore_is_blank(r.ignore)
    &&& mission_is_blank(r.mission)
    &&& procedure_is_blank(r.procedure)
}

impl Default for Record {
    /// A record of four blank rows, each with fresh random identities.
    fn default() -> (r: Record)
        ensures
            record_is_blank(r@),
    {
        Record {
            backup: Backup::default(),
            ignore: Ignore::default(),
            mission: Mission::default(),
            procedure: Procedure::default(),
        }
    }
}

/// The four tables of the store.
#[derive(Clone, Copy, Debug, PartialEq, Eq, Structural)]
pub enum Table {
    Ignore,
    Procedure,
    Mission,
    Backup,
}

impl Table {
    /// The table that `name` names, if it names one.
    pub open spec fn spec_parse(name: Seq<char>) -> Option<Table> {
        if name == "ignore"@ {
            Some(Table::Ignore)
        } else if name == "procedure"@ {
            Some(Table::Procedure)
        } else if name == "mission"@ {
            Some(Table::Mission)
        } else if name == "backup"@ {
            Some(Table::Backup)
        } else {
            None
        }
    }

    /// The table that `name` names: `"ignore"`, `"procedure"`, `"mission"`
    /// or `"backup"`.
    pub fn parse(name: &str) -> (r: Option<Table>)
        ensures
            r == Self::spec_parse(name@),
    {
        let n = String::from_str(name);
        if n == String::from_str("ignore") {
            Some(Table::Ignore)
        } else if n == String::from_str("procedure") {
            Some(Table::Procedure)
        } else if n == String::from_str("mission") {
            Some(Table::Mission)
        } else if n == String::from_str("backup") {
            Some(Table::Backup)
        } else {
            None
        }
    }
}

/// The outcome of an operation on records, seen from the ignore table.
pub open spec fn ignore_part(r: Result<Record, DbError>) -> Result<IgnoreView, DbError> {
    match r {
        Ok(rec) => Ok(rec@.ignore),
        Err(e) => Err(e),
    }
}

/// The outcome of an operation on records, seen from the mission table.
pub open spec fn mission_part(r: Result<Record, DbError>) -> Result<MissionView, DbError> {
    match r {
        Ok(rec) => Ok(rec@.mission),
        Err(e) => Err(e),
    }
}

/// The outcome of an operation on records, seen from the backup table.
pub open spec fn backup_part(r: Result<Record, DbError>) -> Result<BackupView, DbError> {
    match r {
        Ok(rec) => Ok(rec@.backup),
        Err(e) => Err(e),
    }
}

/// The outcome of an update of records, seen from the table: the row
/// `row` where the update went through, else its error.
pub open spec fn answered<T>(r: Result<Record, DbError>, row: T) -> Result<T, DbError> {
    match r {
        Ok(_) => Ok(row),
        Err(e) => Err(e),
    }
}

/// What [`create_db_record`] does. The part of `given` that belongs to the
/// named table is added to it as the row module says, under a fresh
/// identity and at one instant; an ignore rule is owned by the procedure
/// of the record and a backup by its mission, and a row whose owner or
/// procedure is no live row is refused with `NotFound`. `kept`, the record
/// afterwards, differs from `given` in that part alone, and a copy of it
/// comes back. With a name that names no table nothing changes and the
/// answer is `NotFound`.
pub open spec fn record_created(
    pre: DatabaseView,
    post: DatabaseView,
    table: Seq<char>,
    given: RecordView,
    kept: RecordView,
    r: Result<Record, DbError>,
) -> bool {
    match Table::spec_parse(table) {
        Some(Table::Ignore) => {
            &&& kept == (RecordView { ignore: kept.ignore, ..given })
            &&& r matches Ok(rec) ==> rec@ == kept
            &&& exists|id: Seq<char>, now: Timestamp|
                is_uuid_text(id) && #[trigger] ignore_created(
                    pre,
                    post,
                    given.ignore,
                    kept.ignore,
                    given.procedure.procedure_id,
                    id,
                    now,
                    ignore_part(r),
                )
        },
        Some(Table::Procedure) => {
            &&& kept == (RecordView { procedure: kept.procedure, ..given })
            &&& procedure_created(pre, post, given.procedure, kept.procedure)
            &&& r matches Ok(rec) && rec@ == kept
        },
        Some(Table::Mission) => {
            &&& kept == (RecordView { mission: kept.mission, ..given })
            &&& r matches Ok(rec) ==> rec@ == kept
            &&& exists|id: Seq<char>, now: Timestamp|
                is_uuid_text(id) && #[trigger] mission_created(
                    pre,
                    post,
                    given.mission,
                    kept.mission,
                    id,
                    now,
                    mission_part(r),
                )
        },
        Some(Table::Backup) => {
            &&& kept == (RecordView { backup: kept.backup, ..given })
            &&& r matches Ok(rec) ==> rec@ == kept
            &&& exists|id: Seq<char>, now: Timestamp|
                is_uuid_text(id) && #[trigger] backup_created(
                    pre,
                    post,
                    given.backup,
                    kept.backup,
                    given.mission.mission_id,
                    id,
                    now,
                    backup_part(r),
                )
        },
        None => {
            &&& post == pre
            &&& kept == given
            &&& r matches Err(e) && e == DbError::NotFound
        },
    }
}

/// Adds the part of `data` that belongs to the table `table` to that table.
/// See [`record_created`].
pub fn create_db_record(table: &str, data: &mut Record, db: &mut Database) -> (r: Result<
    Record,
    DbError,
>)
    ensures
        record_created(old(db)@, final(db)@, table@, old(data)@, final(data)@, r),
{
    match Table::parse(table) {
        Some(Table::Ignore) => {
            let part = ignore::create_ignore_record(db, &mut data.ignore, &data.procedure);
            let ghost (id, now) = choose|id: Seq<char>, now: Timestamp|
                is_uuid_text(id) && #[trigger] ignore_created(
                    old(db)@,
                    db@,
                    old(data).ignore@,
                    data.ignore@,
                    old(data)@.procedure.procedure_id,
                    id,
                    now,
                    ignore_outcome(part),
                );
            match part {
                Ok(_) => Ok(data.clone()),
                Err(e) => Err(e),
            }
        },
        Some(Table::Procedure) => {
            let _ = procedure::create_procedure_record(db, &mut data.procedure);
            Ok(data.clone())
        },
        Some(Table::Mission) => {
            let part = mission::create_mission_record(db, &mut data.mission);
            let ghost (id, now) = choose|id: Seq<char>, now: Timestamp|
                is_uuid_text(id) && #[trigger] mission_created(
                    old(db)@,
                    db@,
                    old(data).mission@,
                    data.mission@,
                    id,
                    now,
                    mission_outcome(part),
                );
            match part {
                Ok(_) => Ok(data.clone()),
                Err(e) => Err(e),
            }
        },
        Some(Table::Backup) => {
            let part = backup::create_backup_record(db, &mut data.backup, &data.mission);
            let ghost (id, now) = choose|id: Seq<char>, now: Timestamp|
                is_uuid_text(id) && #[trigger] backup_created(
                    old(db)@,
                    db@,
                    old(data).backup@,
                    data.backup@,
                    old(data)@.mission.mission_id,
                    id,
                    now,
                    backup_outcome(part),
                );
            match part {
                Ok(_) => Ok(data.clone()),
                Err(e) => Err(e),
            }
        },
        None => Err(DbError::NotFound),
    }
}

/// What [`update_db_record`] does. The live row of the named table that
/// has the identity of the matching part of `given` is overwritten by
/// that part as the row module says, at one instant. `kept`, the record
/// afterwards, differs from `given` in that part alone, and a copy of it
/// comes back; where the row module refuses, its error comes back and
/// nothing changes. Backup records are never rewritten: for that table
/// nothing changes and a copy of the record comes back. With a name that
/// names no table nothing changes and the answer is `NotFound`.
pub open spec fn record_updated(
    pre: DatabaseView,
    post: DatabaseView,
    table: Seq<char>,
    given: RecordView,
    kept: RecordView,
    r: Result<Record, DbError>,
) -> bool {
    match Table::spec_parse(table) {
        Some(Table::Ignore) => {
            &&& kept == (RecordView { ignore: kept.ignore, ..given })
            &&& r matches Ok(rec) ==> rec@ == kept
            &&& exists|now: Timestamp, row: IgnoreView| #[trigger]
                ignore_updated(
                    pre,
                    post,
                    given.ignore,
                    kept.ignore,
                    now,
                    answered(r, row),
                )
        },
        Some(Table::Procedure) => {
            &&& kept == (RecordView { procedure: kept.procedure, ..given })
            &&& r matches Ok(rec) ==> rec@ == kept
            &&& exists|now: Timestamp, row: ProcedureView| #[trigger]
                procedure_updated(
                    pre,
                    post,
                    given.procedure,
                    kept.procedure,
                    now,
                    answered(r, row),
                )
        },
        Some(Table::Mission) => {
            &&& kept == (RecordView { mission: kept.mission, ..given })
            &&& r matches Ok(rec) ==> rec@ == kept
            &&& exists|now: Timestamp, row: MissionView| #[trigger]
                mission_updated(
                    pre,
                    post,
                    given.mission,
                    kept.mission,
                    now,
                    answered(r, row),
                )
        },
        Some(Table::Backup) => {
            &&& post == pre
            &&& kept == given
            &&& r matches Ok(rec) && rec@ == kept
        },
        None => {
            &&& post == pre
            &&& kept == given
            &&& r matches Err(e) && e == DbError::NotFound
        },
    }
}

/// Overwrites the live row of the table `table` that has the identity of
/// the matching part of `data`. See [`record_updated`].
pub fn update_db_record(table: &str, data: &mut Record, db: &mut Database) -> (r: Result<
    Record,
    DbError,
>)
    ensures
        record_updated(old(db)@, final(db)@, table@, old(data)@, final(data)@, r),
{
    match Table::parse(table) {
        Some(Table::Ignore) => {
            let part = ignore::update_ignore_record(db, &mut data.ignore);
            let ghost now = choose|now: Timestamp| #[trigger]
                ignore_updated(old(db)@, db@, old(data).ignore@, data.ignore@, now, ignore_outcome(part));
            match part {
                Ok(row) => {
                    let r = Ok(data.clone());
                    assert(ignore_updated(
                        old(db)@,
                        db@,
                        old(data)@.ignore,
                        data@.ignore,
                        now,
                        answered(r, row@),
                    ));
                    r
                },
                Err(e) => {
                    let r = Err(e);
                    assert(ignore_updated(
                        old(db)@,
                        db@,
                        old(data)@.ignore,
                        data@.ignore,
                        now,
                        answered(r, arbitrary::<IgnoreView>()),
                    ));
                    r
                },
            }
        },
        Some(Table::Procedure) => {
            let part = procedure::update_procedure_record(db, &mut data.procedure);
            let ghost now = choose|now: Timestamp| #[trigger]
                procedure_updated(old(db)@, db@, old(data).procedure@, data.procedure@, now, procedure_outcome(part));
            match part {
                Ok(row) => {
                    let r = Ok(data.clone());
                    assert(procedure_updated(
                        old(db)@,
                        db@,
                        old(data)@.procedure,
                        data@.procedure,
                        now,
                        answered(r, row@),
                    ));
                    r
                },
                Err(e) => {
                    let r = Err(e);
                    assert(procedure_updated(
                        old(db)@,
                        db@,
                        old(data)@.procedure,
                        data@.procedure,
                        now,
                        answered(r, arbitrary::<ProcedureView>()),
                    ));
                    r
                },
            }
        },
        Some(Table::Mission) => {
            let part = mission::update_mission_record(db, &mut data.mission);
            let ghost now = choose|now: Timestamp| #[trigger]
                mission_updated(old(db)@, db@, old(data).mission@, data.mission@, now, mission_outcome(part));
            match part {
                Ok(row) => {
                    let r = Ok(data.clone());
                    assert(mission_updated(
                        old(db)@,
                        db@,
                        old(data)@.mission,
                        data@.mission,
                        now,
                        answered(r, row@),
                    ));
                    r
                },
                Err(e) => {
                    let r = Err(e);
                    assert(mission_updated(
                        old(db)@,
                        db@,
                        old(data)@.mission,
                        data@.mission,
                        now,
                        answered(r, arbitrary::<MissionView>()),
                    ));
                    r
                },
            }
        },
        Some(Table::Backup) => Ok(data.clone()),
        None => Err(DbError::NotFound),
    }
}

/// What [`query_db_record`] answers. For each live row of the named table
/// that the key selects, in the order of the table, one record that holds
/// the row in its part and blank rows in the other three parts. Ignore
/// rules are selected by the procedure they belong to, backup records by
/// their mission, procedures and missions by their own identity; without
/// a key every live row is selected. `NotFound` for a name that names no
/// table.
pub open spec fn records_queried(
    db: DatabaseView,
    table: Seq<char>,
    uid: Option<Seq<char>>,
    r: Result<Vec<Record>, DbError>,
) -> bool {
    match Table::spec_parse(table) {
        Some(Table::Ignore) => r matches Ok(recs) && {
            let rows = db.ignores.filter(ignore_selected(uid));
            &&& recs.len() == rows.len()
            &&& forall|i: int|
                0 <= i < recs.len() ==> {
                    &&& (#[trigger] recs[i])@.ignore == rows[i]
                    &&& backup_is_blank(recs[i]@.backup)
                    &&& mission_is_blank(recs[i]@.mission)
                    &&& procedure_is_blank(recs[i]@.procedure)
                }
        },
        Some(Table::Procedure) => r matches Ok(recs) && {
            let rows = db.procedures.filter(procedure_selected(uid));
            &&& recs.len() == rows.len()
            &&& forall|i: int|
                0 <= i < recs.len() ==> {
                    &&& (#[trigger] recs[i])@.procedure == rows[i]
                    &&& backup_is_blank(recs[i]@.backup)
                    &&& ignore_is_blank(recs[i]@.ignore)
                    &&& mission_is_blank(recs[i]@.mission)
                }
        },
        Some(Table::Mission) => r matches Ok(recs) && {
            let rows = db.missions.filter(mission_selected(uid));
            &&& recs.len() == rows.len()
            &&& forall|i: int|
                0 <= i < recs.len() ==> {
                    &&& (#[trigger] recs[i])@.mission == rows[i]
                    &&& backup_is_blank(recs[i]@.backup)
                    &&& ignore_is_blank(recs[i]@.ignore)
                    &&& procedure_is_blank(recs[i]@.procedure)
                }
        },
        Some(Table::Backup) => r matches Ok(recs) && {
            let rows = db.backups.filter(backup_selected(None, uid));
            &&& recs.len() == rows.len()
            &&& forall|i: int|
                0 <= i < recs.len() ==> {
                    &&& (#[trigger] recs[i])@.backup == rows[i]
                    &&& ignore_is_blank(recs[i]@.ignore)
                    &&& mission_is_blank(recs[i]@.mission)
                    &&& procedure_is_blank(recs[i]@.procedure)
                }
        },
        None => r matches Err(e) && e == DbError::NotFound,
    }
}

/// The live rows of the table `table` that `uid` selects, each in a record
/// of its own. See [`records_queried`].
pub fn query_db_record(table: &str, uid: Option<&str>, db: &Database) -> (r: Result<
    Vec<Record>,
    DbError,
>)
    ensures
        records_queried(db@, table@, key_text(uid), r),
{
    let mut res: Vec<Record> = Vec::new();
    match Table::parse(table) {
        Some(Table::Ignore) => {
            let records = match ignore::query_ignore_record(db, uid) {
                Ok(records) => records,
                Err(e) => {
                    return Err(e);
                },
            };
            let mut i: usize = 0;
            while i < records.len()
                invariant
                    i <= records.len(),
                    res.len() == i,
                    forall|j: int|
                        0 <= j < i ==> {
                            &&& (#[trigger] res[j])@.ignore == ignore_views(records@)[j]
                            &&& backup_is_blank(res[j]@.backup)
                            &&& mission_is_blank(res[j]@.mission)
                            &&& procedure_is_blank(res[j]@.procedure)
                        },
                decreases records.len() - i,
            {
                let mut full = Record::default();
                full.ignore = records[i].clone();
                res.push(full);
                i = i + 1;
            }
        },
        Some(Table::Procedure) => {
            let records = match procedure::query_procedure_record(db, uid) {
                Ok(records) => records,
                Err(e) => {
                    return Err(e);
                },
            };
            let mut i: usize = 0;
            while i < records.len()
                invariant
                    i <= records.len(),
                    res.len() == i,
                    forall|j: int|
                        0 <= j < i ==> {
                            &&& (#[trigger] res[j])@.procedure == procedure_views(records@)[j]
                            &&& backup_is_blank(res[j]@.backup)
                            &&& ignore_is_blank(res[j]@.ignore)
                            &&& mission_is_blank(res[j]@.mission)
                        },
                decreases records.len() - i,
            {
                let mut full = Record::default();
                full.procedure = records[i].clone();
                res.push(full);
                i = i + 1;
            }
        },
        Some(Table::Mission) => {
            let records = match mission::query_mission_record(db, uid) {
                Ok(records) => records,
                Err(e) => {
                    return Err(e);
                },
            };
            let mut i: usize = 0;
            while i < records.len()
                invariant
                    i <= records.len(),
                    res.len() == i,
                    forall|j: int|
                        0 <= j < i ==> {
                            &&& (#[trigger] res[j])@.mission == mission_views(records@)[j]
                            &&& backup_is_blank(res[j]@.backup)
                            &&& ignore_is_blank(res[j]@.ignore)
                            &&& procedure_is_blank(res[j]@.procedure)
                        },
                decreases records.len() - i,
            {
                let mut full = Record::default();
                full.mission = records[i].clone();
                res.push(full);
                i = i + 1;
            }
        },
        Some(Table::Backup) => {
            let records = match backup::query_backup_record(db, None, uid) {
                Ok(records) => records,
                Err(e) => {
                    return Err(e);
                },
            };
            let mut i: usize = 0;
            while i < records.len()
                invariant
                    i <= records.len(),
                    res.len() == i,
                    forall|j: int|
                        0 <= j < i ==> {
                            &&& (#[trigger] res[j])@.backup == backup_views(records@)[j]
                            &&& ignore_is_blank(res[j]@.ignore)
                            &&& mission_is_blank(res[j]@.mission)
                            &&& procedure_is_blank(res[j]@.procedure)
                        },
                decreases records.len() - i,
            {
                let mut full = Record::default();
                full.backup = records[i].clone();
                res.push(full);
                i = i + 1;
            }
        },
        None => {
            return Err(DbError::NotFound);
        },
    }
    Ok(res)
}

/// What [`delete_db_record`] does: the deletion of the named table at
/// some instant. Ignore rules and backup records are picked by their own
/// identity `uuid_0` or, without it, by their owner `uuid_1`; procedures
/// and missions by `uuid_0` alone. With a name that names no table nothing
/// changes and the answer is `NotFound`.
pub open spec fn record_deleted(
    pre: DatabaseView,
    post: DatabaseView,
    table: Seq<char>,
    uuid_0: Option<Seq<char>>,
    uuid_1: Option<Seq<char>>,
    r: Result<usize, DbError>,
) -> bool {
    match Table::spec_parse(table) {
        Some(Table::Ignore) => exists|now: Timestamp| #[trigger]
            ignore_deleted(pre, post, uuid_0, uuid_1, now, r),
        Some(Table::Procedure) => exists|now: Timestamp| #[trigger]
            procedure_deleted(pre, post, uuid_0, now, r),
        Some(Table::Mission) => exists|now: Timestamp| #[trigger]
            mission_deleted(pre, post, uuid_0, now, r),
        Some(Table::Backup) => exists|now: Timestamp| #[trigger]
            backup_deleted(pre, post, uuid_0, uuid_1, now, r),
        None => post == pre && r == Err::<usize, DbError>(DbError::NotFound),
    }
}

/// Marks rows of the table `table` as deleted and returns how many. See
/// [`record_deleted`].
pub fn delete_db_record(
    table: &str,
    uuid_0: Option<&str>,
    uuid_1: Option<&str>,
    db: &mut Database,
) -> (r: Result<usize, DbError>)
    ensures
        record_deleted(old(db)@, final(db)@, table@, key_text(uuid_0), key_text(uuid_1), r),
{
    match Table::parse(table) {
        Some(Table::Ignore) => ignore::delete_ignore_record(db, uuid_0, uuid_1),
        Some(Table::Procedure) => procedure::delete_procedure_record(db, uuid_0),
        Some(Table::Mission) => mission::delete_mission_record(db, uuid_0),
        Some(Table::Backup) => backup::delete_backup_record(db, uuid_0, uuid_1),
        None => Err(DbError::NotFound),
    }
}

/// What [`clear_db_record`] does: the named table is empty afterwards,
/// the other tables are as before, and the answer is how many rows the
/// table had. With a name that names no table nothing changes and the
/// answer is `NotFound`.
pub open spec fn record_cleared(
    pre: DatabaseView,
    post: DatabaseView,
    table: Seq<char>,
    r: Result<usize, DbError>,
) -> bool {
    match Table::spec_parse(table) {
        Some(Table::Ignore) => {
            &&& post == (DatabaseView { ignores: Seq::empty(), ..pre })
            &&& is_count(r, pre.ignores.len())
        },
        Some(Table::Procedure) => {
            &&& post == (DatabaseView { procedures: Seq::empty(), ..pre })
            &&& is_count(r, pre.procedures.len())
        },
        Some(Table::Mission) => {
            &&& post == (DatabaseView { missions: Seq::empty(), ..pre })
            &&& is_count(r, pre.missions.len())
        },
        Some(Table::Backup) => {
            &&& post == (DatabaseView { backups: Seq::empty(), ..pre })
            &&& is_count(r, pre.backups.len())
        },
        None => post == pre && r == Err::<usize, DbError>(DbError::NotFound),
    }
}

/// Removes every row of the table `table`. See [`record_cleared`].
pub fn clear_db_record(table: &str, db: &mut Database) -> (r: Result<usize, DbError>)
    ensures
        record_cleared(old(db)@, final(db)@, table@, r),
{
    match Table::parse(table) {
        Some(Table::Ignore) => ignore::clear_ignore_record(db),
        Some(Table::Procedure) => procedure::clear_procedure_record(db),
        Some(Table::Mission) => mission::clear_mission_record(db),
        Some(Table::Backup) => backup::clear_backup_record(db),
        None => Err(DbError::NotFound),
    }
}

/// What [`clean_db_record`] does: the named table is compacted, the other
/// tables are as before, and the answer is how many rows were removed.
/// With a name that names no table nothing changes and the answer is
/// `NotFound`.
pub open spec fn record_cleaned(
    pre: DatabaseView,
    post: DatabaseView,
    table: Seq<char>,
    r: Result<usize, DbError>,
) -> bool {
    match Table::spec_parse(table) {
        Some(Table::Ignore) => {
            &&& post == (DatabaseView { ignores: ignores_compacted(pre.ignores), ..pre })
            &&& is_count(r, count_of(pre.ignores, ignore_is_deleted()))
        },
        Some(Table::Procedure) => {
            &&& post == (DatabaseView {
                procedures: procedures_compacted(pre.procedures),
                ..pre
            })
            &&& is_count(r, count_of(pre.procedures, procedure_is_deleted()))
        },
        Some(Table::Mission) => {
            &&& post == (DatabaseView { missions: missions_compacted(pre.missions), ..pre })
            &&& is_count(r, count_of(pre.missions, mission_is_deleted()))
        },
        Some(Table::Backup) => {
            &&& post == (DatabaseView { backups: backups_compacted(pre.backups), ..pre })
            &&& is_count(r, count_of(pre.backups, backup_is_deleted()))
        },
        None => post == pre && r == Err::<usize, DbError>(DbError::NotFound),
    }
}

/// Compacts the table `table`. See [`record_cleaned`].
pub fn clean_db_record(table: &str, db: &mut Database) -> (r: Result<usize, DbError>)
    ensures
        record_cleaned(old(db)@, final(db)@, table@, r),
{
    match Table::parse(table) {
        Some(Table::Ignore) => ignore::clean_record(db),
        Some(Table::Procedure) => procedure::clean_record(db),
        Some(Table::Mission) => mission::clean_record(db),
        Some(Table::Backup) => backup::clean_record(db),
        None => Err(DbError::NotFound),
    }
}

} // verus!
