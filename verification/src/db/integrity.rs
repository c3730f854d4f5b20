//! What compaction of a table keeps: the rows, their order and what they
//! refer to. Only the display ordinals change, and they become dense.

use vstd::prelude::*;
use crate::db::backup::{
    backup_is_deleted, backup_is_live, backup_placed, backups_compacted, BackupView,
};
use crate::db::ignore::{
    ignore_is_deleted, ignore_is_live, ignore_placed, ignores_compacted, IgnoreView,
};
use crate::db::mission::{
    has_live_mission, has_mission_of, mission_is_deleted, mission_is_live, mission_placed,
    missions_compacted, MissionView,
};
use crate::db::procedure::{
    has_live_procedure, procedure_is_deleted, procedure_is_live, procedure_placed,
    procedures_compacted, without_procedure, ProcedureView,
};
use crate::db::table::{
    compacted, count_of, has_alike_image, has_alike_source, lemma_compacted_rows,
};
use crate::time::Timestamp;
use crate::db::{record_cleaned, Database, DatabaseView, DbError, Table};

verus! {

/// Every reference of a live row leads to a live row: each live mission
/// and each live ignore rule has its procedure, each live backup record
/// its mission.
pub open spec fn references_resolve(db: DatabaseView) -> bool {
    &&& forall|i: int|
        0 <= i < db.missions.len() && !(#[trigger] db.missions[i]).is_deleted
            ==> has_live_procedure(db, db.missions[i].procedure_id)
    &&& forall|i: int|
        0 <= i < db.ignores.len() && !(#[trigger] db.ignores[i]).is_deleted ==> has_live_procedure(
            db,
            db.ignores[i].procedure_id,
        )
    &&& forall|i: int|
        0 <= i < db.backups.len() && !(#[trigger] db.backups[i]).is_deleted ==> has_live_mission(
            db,
            db.backups[i].mission_id,
        )
}

/// Deleting a procedure that no live mission refers to, together with its
/// ignore rules, leaves no reference of a live row without its target.
pub proof fn lemma_procedure_deleted_keeps_references(
    pre: DatabaseView,
    key: Seq<char>,
    now: Timestamp,
)
    requires
        !has_mission_of(pre, key),
        references_resolve(pre),
    ensures
        references_resolve(without_procedure(pre, key, now)),
{
    let post = without_procedure(pre, key, now);
    assert forall|k: Seq<char>| k != key && has_live_procedure(pre, k) implies has_live_procedure(
        post,
        k,
    ) by {
        let j = choose|j: int|
            0 <= j < pre.procedures.len() && !(#[trigger] pre.procedures[j]).is_deleted
                && pre.procedures[j].procedure_id == k;
        assert(post.procedures[j] == pre.procedures[j]);
    }
    assert forall|i: int|
        0 <= i < post.missions.len() && !(#[trigger] post.missions[i]).is_deleted implies has_live_procedure(
        post,
        post.missions[i].procedure_id,
    ) by {
        assert(pre.missions[i].procedure_id != key);
    }
    assert forall|i: int|
        0 <= i < post.ignores.len() && !(#[trigger] post.ignores[i]).is_deleted implies has_live_procedure(
        post,
        post.ignores[i].procedure_id,
    ) by {
        assert(post.ignores[i] == pre.ignores[i]);
        assert(pre.ignores[i].procedure_id != key);
    }
    assert forall|i: int|
        0 <= i < post.backups.len() && !(#[trigger] post.backups[i]).is_deleted implies has_live_mission(
        post,
        post.backups[i].mission_id,
    ) by {
        let j = choose|j: int|
            0 <= j < pre.missions.len() && !(#[trigger] pre.missions[j]).is_deleted
                && pre.missions[j].mission_id == pre.backups[i].mission_id;
        assert(!post.missions[j].is_deleted);
    }
}

/// Two missions that differ in their ordinal at most.
pub open spec fn same_mission() -> spec_fn(MissionView, MissionView) -> bool {
    |a: MissionView, b: MissionView| b == (MissionView { id: b.id, ..a })
}

/// Two procedures that differ in their ordinal at most.
pub open spec fn same_procedure() -> spec_fn(ProcedureView, ProcedureView) -> bool {
    |a: ProcedureView, b: ProcedureView| b == (ProcedureView { id: b.id, ..a })
}

/// Two ignore rules that differ in their ordinal at most.
pub open spec fn same_ignore() -> spec_fn(IgnoreView, IgnoreView) -> bool {
    |a: IgnoreView, b: IgnoreView| b == (IgnoreView { id: b.id, ..a })
}

/// Two backup records that differ in their ordinal at most.
pub open spec fn same_backup() -> spec_fn(BackupView, BackupView) -> bool {
    |a: BackupView, b: BackupView| b == (BackupView { id: b.id, ..a })
}

/// After a table was compacted its ordinals are dense: the row at place
/// `i`, counted from 0, has the ordinal `i + 1`, as far as ordinals reach.
pub open spec fn ordinals_are_dense(db: DatabaseView, table: Table) -> bool {
    match table {
        Table::Ignore => forall|i: int|
            0 <= i < db.ignores.len() && i < i32::MAX ==> (#[trigger] db.ignores[i]).id == i + 1,
        Table::Procedure => forall|i: int|
            0 <= i < db.procedures.len() && i < i32::MAX ==> (#[trigger] db.procedures[i]).id == i
                + 1,
        Table::Mission => forall|i: int|
            0 <= i < db.missions.len() && i < i32::MAX ==> (#[trigger] db.missions[i]).id == i + 1,
        Table::Backup => forall|i: int|
            0 <= i < db.backups.len() && i < i32::MAX ==> (#[trigger] db.backups[i]).id == i + 1,
    }
}

/// The rows that compaction leaves in a table are its live rows in their
/// order, unchanged but for the ordinal.
pub open spec fn rows_are_kept(pre: DatabaseView, post: DatabaseView, table: Table) -> bool {
    match table {
        Table::Ignore => {
            let kept = pre.ignores.filter(ignore_is_live());
            &&& post.ignores.len() == kept.len()
            &&& forall|i: int|
                0 <= i < kept.len() ==> (same_ignore())(kept[i], #[trigger] post.ignores[i])
        },
        Table::Procedure => {
            let kept = pre.procedures.filter(procedure_is_live());
            &&& post.procedures.len() == kept.len()
            &&& forall|i: int|
                0 <= i < kept.len() ==> (same_procedure())(kept[i], #[trigger] post.procedures[i])
        },
        Table::Mission => {
            let kept = pre.missions.filter(mission_is_live());
            &&& post.missions.len() == kept.len()
            &&& forall|i: int|
                0 <= i < kept.len() ==> (same_mission())(kept[i], #[trigger] post.missions[i])
        },
        Table::Backup => {
            let kept = pre.backups.filter(backup_is_live());
            &&& post.backups.len() == kept.len()
            &&& forall|i: int|
                0 <= i < kept.len() ==> (same_backup())(kept[i], #[trigger] post.backups[i])
        },
    }
}

/// Compaction of the mission table: dense ordinals, the live rows kept
/// in their order, and the same identities lead to a live mission.
pub proof fn lemma_missions_compacted(pre: DatabaseView, post: DatabaseView)
    requires
        post.missions == compacted(pre.missions, mission_is_live(), mission_placed()),
    ensures
        ordinals_are_dense(post, Table::Mission),
        rows_are_kept(pre, post, Table::Mission),
        post.missions.len() + count_of(pre.missions, mission_is_deleted())
            == pre.missions.len(),
        forall|key: Seq<char>|
            #![trigger has_live_mission(post, key)]
            #![trigger has_live_mission(pre, key)]
            has_live_mission(post, key) == has_live_mission(pre, key),
{
    let rows = pre.missions;
    lemma_compacted_rows(rows, mission_is_live(), mission_placed(), same_mission());
    lemma_live_and_deleted_add_up(
        rows,
        mission_is_live(),
        mission_is_deleted(),
    );
    assert forall|key: Seq<char>| has_live_mission(post, key) == has_live_mission(pre, key) by {
    }
}

/// Compaction of the procedure table: dense ordinals, the live rows kept
/// in their order, and the same identities lead to a live procedure.
pub proof fn lemma_procedures_compacted(pre: DatabaseView, post: DatabaseView)
    requires
        post.procedures == compacted(pre.procedures, procedure_is_live(), procedure_placed()),
    ensures
        ordinals_are_dense(post, Table::Procedure),
        rows_are_kept(pre, post, Table::Procedure),
        post.procedures.len() + count_of(
            pre.procedures,
            procedure_is_deleted(),
        ) == pre.procedures.len(),
        forall|key: Seq<char>|
            #![trigger has_live_procedure(post, key)]
            #![trigger has_live_procedure(pre, key)]
            has_live_procedure(post, key) == has_live_procedure(pre, key),
{
    let rows = pre.procedures;
    lemma_compacted_rows(rows, procedure_is_live(), procedure_placed(), same_procedure());
    lemma_live_and_deleted_add_up(
        rows,
        procedure_is_live(),
        procedure_is_deleted(),
    );
    assert forall|key: Seq<char>|
        has_live_procedure(post, key) == has_live_procedure(pre, key) by {
    }
}

/// Compaction of the ignore table: dense ordinals and the live rows kept
/// in their order.
pub proof fn lemma_ignores_compacted(pre: DatabaseView, post: DatabaseView)
    requires
        post.ignores == compacted(pre.ignores, ignore_is_live(), ignore_placed()),
    ensures
        ordinals_are_dense(post, Table::Ignore),
        rows_are_kept(pre, post, Table::Ignore),
        post.ignores.len() + count_of(pre.ignores, ignore_is_deleted())
            == pre.ignores.len(),
{
    lemma_compacted_rows(pre.ignores, ignore_is_live(), ignore_placed(), same_ignore());
    lemma_live_and_deleted_add_up(
        pre.ignores,
        ignore_is_live(),
        ignore_is_deleted(),
    );
}

/// Compaction of the backup table: dense ordinals and the live rows kept
/// in their order.
pub proof fn lemma_backups_compacted(pre: DatabaseView, post: DatabaseView)
    requires
        post.backups == compacted(pre.backups, backup_is_live(), backup_placed()),
    ensures
        ordinals_are_dense(post, Table::Backup),
        rows_are_kept(pre, post, Table::Backup),
        post.backups.len() + count_of(pre.backups, backup_is_deleted())
            == pre.backups.len(),
{
    lemma_compacted_rows(pre.backups, backup_is_live(), backup_placed(), same_backup());
    lemma_live_and_deleted_add_up(
        pre.backups,
        backup_is_live(),
        backup_is_deleted(),
    );
}

/// `post` is `pre` with the table `table` compacted and the other tables
/// as they were.
pub open spec fn cleaned(pre: DatabaseView, post: DatabaseView, table: Table) -> bool {
    match table {
        Table::Ignore => post == (DatabaseView { ignores: ignores_compacted(pre.ignores), ..pre }),
        Table::Procedure => post == (DatabaseView {
            procedures: procedures_compacted(pre.procedures),
            ..pre
        }),
        Table::Mission => post == (DatabaseView {
            missions: missions_compacted(pre.missions),
            ..pre
        }),
        Table::Backup => post == (DatabaseView { backups: backups_compacted(pre.backups), ..pre }),
    }
}

/// Compaction renumbers and touches nothing else. Once a table was
/// cleaned, its ordinals run densely from 1, its rows are the rows that
/// were live before, in the same order and with the same identities and
/// references, and exactly the identities that led to a live row before
/// lead to one afterwards.
pub proof fn lemma_cleaned_renumbers_only(pre: DatabaseView, post: DatabaseView, table: Table)
    requires
        cleaned(pre, post, table),
    ensures
        ordinals_are_dense(post, table),
        rows_are_kept(pre, post, table),
        forall|key: Seq<char>|
            #![trigger has_live_mission(post, key)]
            #![trigger has_live_mission(pre, key)]
            has_live_mission(post, key) == has_live_mission(pre, key),
        forall|key: Seq<char>|
            #![trigger has_live_procedure(post, key)]
            #![trigger has_live_procedure(pre, key)]
            has_live_procedure(post, key) == has_live_procedure(pre, key),
{
    match table {
        Table::Ignore => {
            lemma_ignores_compacted(pre, post);
        },
        Table::Procedure => {
            lemma_procedures_compacted(pre, post);
        },
        Table::Mission => {
            lemma_missions_compacted(pre, post);
        },
        Table::Backup => {
            lemma_backups_compacted(pre, post);
        },
    }
}

/// References outlive compaction: where every reference of a live row led
/// to a live row before a table was cleaned, it does so afterwards, and
/// the other way round.
pub proof fn lemma_cleaned_keeps_references(pre: DatabaseView, post: DatabaseView, table: Table)
    requires
        cleaned(pre, post, table),
    ensures
        references_resolve(post) == references_resolve(pre),
{
    lemma_cleaned_renumbers_only(pre, post, table);
    match table {
        Table::Ignore => {
            assert(post.missions == pre.missions && post.backups == pre.backups);
            lemma_live_refs_kept(
                pre.ignores,
                post.ignores,
                ignore_is_live(),
                ignore_placed(),
                same_ignore(),
            );
            assert(references_resolve(pre) ==> references_resolve(post)) by {
                if references_resolve(pre) {
                    assert forall|i: int|
                        0 <= i < post.ignores.len() && !(
                        #[trigger] post.ignores[i]).is_deleted implies has_live_procedure(
                        post,
                        post.ignores[i].procedure_id,
                    ) by {
                        let j = choose|j: int|
                            0 <= j < pre.ignores.len() && (ignore_is_live())(
                                #[trigger] pre.ignores[j],
                            ) && (same_ignore())(pre.ignores[j], post.ignores[i]);
                    }
                }
            }
            assert(references_resolve(post) ==> references_resolve(pre)) by {
                if references_resolve(post) {
                    assert forall|j: int|
                        0 <= j < pre.ignores.len() && !(
                        #[trigger] pre.ignores[j]).is_deleted implies has_live_procedure(
                        pre,
                        pre.ignores[j].procedure_id,
                    ) by {
                        let i = choose|i: int|
                            0 <= i < post.ignores.len() && (same_ignore())(
                                pre.ignores[j],
                                #[trigger] post.ignores[i],
                            );
                    }
                }
            }
        },
        Table::Backup => {
            assert(post.missions == pre.missions && post.ignores == pre.ignores);
            lemma_live_refs_kept(
                pre.backups,
                post.backups,
                backup_is_live(),
                backup_placed(),
                same_backup(),
            );
            assert(references_resolve(pre) ==> references_resolve(post)) by {
                if references_resolve(pre) {
                    assert forall|i: int|
                        0 <= i < post.backups.len() && !(
                        #[trigger] post.backups[i]).is_deleted implies has_live_mission(
                        post,
                        post.backups[i].mission_id,
                    ) by {
                        let j = choose|j: int|
                            0 <= j < pre.backups.len() && (backup_is_live())(
                                #[trigger] pre.backups[j],
                            ) && (same_backup())(pre.backups[j], post.backups[i]);
                    }
                }
            }
            assert(references_resolve(post) ==> references_resolve(pre)) by {
                if references_resolve(post) {
                    assert forall|j: int|
                        0 <= j < pre.backups.len() && !(
                        #[trigger] pre.backups[j]).is_deleted implies has_live_mission(
                        pre,
                        pre.backups[j].mission_id,
                    ) by {
                        let i = choose|i: int|
                            0 <= i < post.backups.len() && (same_backup())(
                                pre.backups[j],
                                #[trigger] post.backups[i],
                            );
                    }
                }
            }
        },
        Table::Mission => {
            assert(post.backups == pre.backups && post.ignores == pre.ignores);
            lemma_live_refs_kept(
                pre.missions,
                post.missions,
                mission_is_live(),
                mission_placed(),
                same_mission(),
            );
            assert(references_resolve(pre) ==> references_resolve(post)) by {
                if references_resolve(pre) {
                    assert forall|i: int|
                        0 <= i < post.missions.len() && !(
                        #[trigger] post.missions[i]).is_deleted implies has_live_procedure(
                        post,
                        post.missions[i].procedure_id,
                    ) by {
                        let j = choose|j: int|
                            0 <= j < pre.missions.len() && (mission_is_live())(
                                #[trigger] pre.missions[j],
                            ) && (same_mission())(pre.missions[j], post.missions[i]);
                    }
                }
            }
            assert(references_resolve(post) ==> references_resolve(pre)) by {
                if references_resolve(post) {
                    assert forall|j: int|
                        0 <= j < pre.missions.len() && !(
                        #[trigger] pre.missions[j]).is_deleted implies has_live_procedure(
                        pre,
                        pre.missions[j].procedure_id,
                    ) by {
                    }
                }
            }
        },
        Table::Procedure => {
            assert(post.missions == pre.missions && post.backups == pre.backups
                && post.ignores == pre.ignores);
        },
    }
}

/// What cleaning a table by its name does, said of the table: the named
/// table is compacted and the others are as they were.
pub proof fn lemma_clean_is_compaction(
    pre: DatabaseView,
    post: DatabaseView,
    table: Seq<char>,
    r: Result<usize, DbError>,
)
    requires
        record_cleaned(pre, post, table, r),
    ensures
        match Table::spec_parse(table) {
            Some(t) => cleaned(pre, post, t),
            None => post == pre,
        },
{
}

/// Cleaning a table renumbers and touches nothing else: afterwards its
/// ordinals run densely from 1, its rows are the rows that were live
/// before, in the same order and unchanged but for the ordinal, and every
/// reference of a live row leads to a live row exactly if it did before.
pub proof fn lemma_clean_renumbers_only(
    pre: DatabaseView,
    post: DatabaseView,
    table: Seq<char>,
    r: Result<usize, DbError>,
)
    requires
        record_cleaned(pre, post, table, r),
    ensures
        references_resolve(post) == references_resolve(pre),
        Table::spec_parse(table) matches Some(t) ==> ordinals_are_dense(post, t) && rows_are_kept(
            pre,
            post,
            t,
        ),
        forall|key: Seq<char>|
            #![trigger has_live_mission(post, key)]
            #![trigger has_live_mission(pre, key)]
            has_live_mission(post, key) == has_live_mission(pre, key),
        forall|key: Seq<char>|
            #![trigger has_live_procedure(post, key)]
            #![trigger has_live_procedure(pre, key)]
            has_live_procedure(post, key) == has_live_procedure(pre, key),
{
    match Table::spec_parse(table) {
        Some(t) => {
            lemma_cleaned_renumbers_only(pre, post, t);
            lemma_cleaned_keeps_references(pre, post, t);
        },
        None => {},
    }
}

/// The rows of a compacted table and the live rows it was made from are
/// alike, row for row in both directions.
proof fn lemma_live_refs_kept<T>(
    rows: Seq<T>,
    c: Seq<T>,
    live: spec_fn(T) -> bool,
    place: spec_fn(T, int) -> T,
    alike: spec_fn(T, T) -> bool,
)
    requires
        c == compacted(rows, live, place),
        forall|r: T, i: int| #[trigger] alike(r, place(r, i)),
    ensures
        forall|i: int| 0 <= i < c.len() ==> has_alike_source(rows, live, alike, #[trigger] c[i]),
        forall|j: int|
            0 <= j < rows.len() && live(#[trigger] rows[j]) ==> has_alike_image(c, alike, rows[j]),
{
    lemma_compacted_rows(rows, live, place, alike);
}

/// A row is live or marked as deleted, never both: the two counts add up
/// to the length of the table.
proof fn lemma_live_and_deleted_add_up<T>(
    rows: Seq<T>,
    live: spec_fn(T) -> bool,
    dead: spec_fn(T) -> bool,
)
    requires
        forall|r: T| #[trigger] live(r) == !dead(r),
    ensures
        count_of(rows, live) + count_of(rows, dead) == rows.len(),
    decreases rows.len(),
{
    if rows.len() == 0 {
        rows.lemma_filter_len(live);
        rows.lemma_filter_len(dead);
    } else {
        let front = rows.drop_last();
        lemma_live_and_deleted_add_up(front, live, dead);
        assert(rows =~= front.push(rows.last()));
        front.lemma_filter_push(rows.last(), live);
        front.lemma_filter_push(rows.last(), dead);
    }
}

/// The store with all four tables compacted.
pub open spec fn database_compacted(db: DatabaseView) -> DatabaseView {
    DatabaseView {
        missions: missions_compacted(db.missions),
        procedures: procedures_compacted(db.procedures),
        ignores: ignores_compacted(db.ignores),
        backups: backups_compacted(db.backups),
    }
}

/// How many rows a compaction removed from each table.
#[derive(Clone, Copy, Debug, PartialEq, Eq, Structural)]
pub struct Removed {
    pub missions: usize,
    pub procedures: usize,
    pub ignores: usize,
    pub backups: usize,
}

/// Compacts all four tables: every row that is marked as deleted is
/// removed for good, and the remaining rows of each table are numbered
/// from 1 in their order. Returns how many rows each table lost.
pub fn compact_all(db: &mut Database) -> (removed: Removed)
    ensures
        final(db)@ == database_compacted(old(db)@),
        removed.missions == count_of(old(db)@.missions, mission_is_deleted()),
        removed.procedures == count_of(old(db)@.procedures, procedure_is_deleted()),
        removed.ignores == count_of(old(db)@.ignores, ignore_is_deleted()),
        removed.backups == count_of(old(db)@.backups, backup_is_deleted()),
{
    proof {
        db@.missions.lemma_filter_len(mission_is_deleted());
        db@.procedures.lemma_filter_len(procedure_is_deleted());
        db@.ignores.lemma_filter_len(ignore_is_deleted());
        db@.backups.lemma_filter_len(backup_is_deleted());
    }
    let missions = match crate::db::mission::clean_record(db) {
        Ok(n) => n,
        Err(_) => 0,
    };
    let procedures = match crate::db::procedure::clean_record(db) {
        Ok(n) => n,
        Err(_) => 0,
    };
    let ignores = match crate::db::ignore::clean_record(db) {
        Ok(n) => n,
        Err(_) => 0,
    };
    let backups = match crate::db::backup::clean_record(db) {
        Ok(n) => n,
        Err(_) => 0,
    };
    Removed { missions, procedures, ignores, backups }
}

/// Compaction of the whole store renumbers and touches nothing else:
/// the ordinals of every table run densely from 1, and every reference of a
/// live row leads to a live row afterwards exactly if it did before.
pub proof fn lemma_compaction_keeps_references(db: DatabaseView)
    ensures
        references_resolve(database_compacted(db)) == references_resolve(db),
        ordinals_are_dense(database_compacted(db), Table::Mission),
        ordinals_are_dense(database_compacted(db), Table::Procedure),
        ordinals_are_dense(database_compacted(db), Table::Ignore),
        ordinals_are_dense(database_compacted(db), Table::Backup),
        forall|key: Seq<char>|
            #![trigger has_live_mission(database_compacted(db), key)]
            #![trigger has_live_mission(db, key)]
            has_live_mission(database_compacted(db), key) == has_live_mission(db, key),
        forall|key: Seq<char>|
            #![trigger has_live_procedure(database_compacted(db), key)]
            #![trigger has_live_procedure(db, key)]
            has_live_procedure(database_compacted(db), key) == has_live_procedure(db, key),
{
    let a = DatabaseView { missions: missions_compacted(db.missions), ..db };
    let b = DatabaseView { procedures: procedures_compacted(db.procedures), ..a };
    let c = DatabaseView { ignores: ignores_compacted(db.ignores), ..b };
    let d = DatabaseView { backups: backups_compacted(db.backups), ..c };
    lemma_cleaned_keeps_references(db, a, Table::Mission);
    lemma_cleaned_keeps_references(a, b, Table::Procedure);
    lemma_cleaned_keeps_references(b, c, Table::Ignore);
    lemma_cleaned_keeps_references(c, d, Table::Backup);
    lemma_cleaned_renumbers_only(db, a, Table::Mission);
    lemma_cleaned_renumbers_only(a, b, Table::Procedure);
    lemma_cleaned_renumbers_only(b, c, Table::Ignore);
    lemma_cleaned_renumbers_only(c, d, Table::Backup);
}

} // verus!
