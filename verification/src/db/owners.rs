//! Every live mission refers to a live procedure, and the operations on
//! records keep it so: creating, updating and deleting a row of any table,
//! setting a status and setting an instant.

use vstd::prelude::*;
use crate::db::mission::{mission_status_set, mission_time_set, MissionStatus, MissionView};
use crate::db::procedure::{has_live_procedure, procedure_selected};
use crate::db::{
    record_created, record_deleted, record_updated, DatabaseView, DbError, Record, RecordView,
    Table,
};
use crate::db::mission::has_mission_of;
use crate::time::Timestamp;

verus! {

/// Every mission that is not marked as deleted refers to a procedure that
/// is not marked as deleted.
pub open spec fn missions_have_procedures(db: DatabaseView) -> bool {
    forall|i: int|
        0 <= i < db.missions.len() && !(#[trigger] db.missions[i]).is_deleted
            ==> has_live_procedure(db, db.missions[i].procedure_id)
}

/// The live procedures of `pre` are live procedures of `post`, each in
/// its place.
pub open spec fn procedures_stay(pre: DatabaseView, post: DatabaseView) -> bool {
    &&& pre.procedures.len() <= post.procedures.len()
    &&& forall|j: int|
        0 <= j < pre.procedures.len() && !(#[trigger] pre.procedures[j]).is_deleted ==> {
            &&& !post.procedures[j].is_deleted
            &&& post.procedures[j].procedure_id == pre.procedures[j].procedure_id
        }
}

/// A procedure that stays is found again.
pub proof fn lemma_found_again(pre: DatabaseView, post: DatabaseView, key: Seq<char>)
    requires
        procedures_stay(pre, post),
        has_live_procedure(pre, key),
    ensures
        has_live_procedure(post, key),
{
    let j = choose|j: int|
        0 <= j < pre.procedures.len() && !(#[trigger] pre.procedures[j]).is_deleted
            && pre.procedures[j].procedure_id == key;
    assert(!post.procedures[j].is_deleted);
}

/// Where the procedures stay and the missions are as before, every live
/// mission has its procedure as before.
proof fn lemma_missions_as_before(pre: DatabaseView, post: DatabaseView)
    requires
        missions_have_procedures(pre),
        procedures_stay(pre, post),
        post.missions == pre.missions,
    ensures
        missions_have_procedures(post),
{
    assert forall|i: int|
        0 <= i < post.missions.len() && !(#[trigger] post.missions[i]).is_deleted implies has_live_procedure(
        post,
        post.missions[i].procedure_id,
    ) by {
        lemma_found_again(pre, post, pre.missions[i].procedure_id);
    }
}

/// Creating a row of any table keeps every live mission with a live
/// procedure: a mission is stored only where its procedure is a live row.
pub proof fn lemma_create_keeps_procedures(
    pre: DatabaseView,
    post: DatabaseView,
    table: Seq<char>,
    given: RecordView,
    kept: RecordView,
    r: Result<Record, DbError>,
)
    requires
        record_created(pre, post, table, given, kept, r),
        missions_have_procedures(pre),
    ensures
        missions_have_procedures(post),
{
    match Table::spec_parse(table) {
        Some(Table::Mission) => {
            if has_live_procedure(pre, given.mission.procedure_id) {
                assert(procedures_stay(pre, post));
                assert forall|i: int|
                    0 <= i < post.missions.len() && !(
                    #[trigger] post.missions[i]).is_deleted implies has_live_procedure(
                    post,
                    post.missions[i].procedure_id,
                ) by {
                    if i < pre.missions.len() {
                        lemma_found_again(pre, post, pre.missions[i].procedure_id);
                    } else {
                        lemma_found_again(pre, post, given.mission.procedure_id);
                    }
                }
            }
        },
        Some(Table::Procedure) => {
            assert(procedures_stay(pre, post));
            lemma_missions_as_before(pre, post);
        },
        _ => {
            assert(procedures_stay(pre, post));
            lemma_missions_as_before(pre, post);
        },
    }
}

/// Updating a row of any table keeps every live mission with a live
/// procedure: a mission is given another procedure only where that is a
/// live row, and a procedure keeps its identity and stays live.
pub proof fn lemma_update_keeps_procedures(
    pre: DatabaseView,
    post: DatabaseView,
    table: Seq<char>,
    given: RecordView,
    kept: RecordView,
    r: Result<Record, DbError>,
)
    requires
        record_updated(pre, post, table, given, kept, r),
        missions_have_procedures(pre),
    ensures
        missions_have_procedures(post),
{
    match Table::spec_parse(table) {
        Some(Table::Mission) => {
            assert(procedures_stay(pre, post));
            assert forall|i: int|
                0 <= i < post.missions.len() && !(
                #[trigger] post.missions[i]).is_deleted implies has_live_procedure(
                post,
                post.missions[i].procedure_id,
            ) by {
                if post.missions[i] == pre.missions[i] {
                    lemma_found_again(pre, post, pre.missions[i].procedure_id);
                } else {
                    lemma_found_again(pre, post, given.mission.procedure_id);
                }
            }
        },
        Some(Table::Procedure) => {
            assert(procedures_stay(pre, post));
            lemma_missions_as_before(pre, post);
        },
        _ => {
            assert(procedures_stay(pre, post));
            lemma_missions_as_before(pre, post);
        },
    }
}

/// Deleting rows of any table keeps every live mission with a live
/// procedure: a procedure that a live mission refers to is not deleted.
pub proof fn lemma_delete_keeps_procedures(
    pre: DatabaseView,
    post: DatabaseView,
    table: Seq<char>,
    uuid_0: Option<Seq<char>>,
    uuid_1: Option<Seq<char>>,
    r: Result<usize, DbError>,
)
    requires
        record_deleted(pre, post, table, uuid_0, uuid_1, r),
        missions_have_procedures(pre),
    ensures
        missions_have_procedures(post),
{
    match Table::spec_parse(table) {
        Some(Table::Mission) => {
            assert(procedures_stay(pre, post));
            assert forall|i: int|
                0 <= i < post.missions.len() && !(
                #[trigger] post.missions[i]).is_deleted implies has_live_procedure(
                post,
                post.missions[i].procedure_id,
            ) by {
                lemma_found_again(pre, post, pre.missions[i].procedure_id);
            }
        },
        Some(Table::Procedure) => {
            assert(post.missions == pre.missions);
            if post != pre {
                let key = uuid_0->Some_0;
                assert(!has_mission_of(pre, key));
                assert forall|i: int|
                    0 <= i < post.missions.len() && !(
                    #[trigger] post.missions[i]).is_deleted implies has_live_procedure(
                    post,
                    post.missions[i].procedure_id,
                ) by {
                    let k = pre.missions[i].procedure_id;
                    assert(k != key);
                    let j = choose|j: int|
                        0 <= j < pre.procedures.len() && !(#[trigger] pre.procedures[j]).is_deleted
                            && pre.procedures[j].procedure_id == k;
                    assert(!(procedure_selected(Some(key)))(pre.procedures[j]));
                    assert(post.procedures[j] == pre.procedures[j]);
                }
            }
        },
        _ => {
            assert(procedures_stay(pre, post));
            lemma_missions_as_before(pre, post);
        },
    }
}

/// Setting the status of a mission keeps every live mission with a live
/// procedure.
pub proof fn lemma_status_keeps_procedures(
    pre: DatabaseView,
    post: DatabaseView,
    key: Seq<char>,
    status: MissionStatus,
    r: Result<MissionView, DbError>,
)
    requires
        mission_status_set(pre, post, key, status, r),
        missions_have_procedures(pre),
    ensures
        missions_have_procedures(post),
{
    assert(procedures_stay(pre, post));
    assert forall|i: int|
        0 <= i < post.missions.len() && !(#[trigger] post.missions[i]).is_deleted implies has_live_procedure(
        post,
        post.missions[i].procedure_id,
    ) by {
        lemma_found_again(pre, post, pre.missions[i].procedure_id);
    }
}

/// Setting an instant of a mission keeps every live mission with a live
/// procedure.
pub proof fn lemma_time_keeps_procedures(
    pre: DatabaseView,
    post: DatabaseView,
    label: Seq<char>,
    time: Timestamp,
    key: Seq<char>,
    r: Result<MissionView, DbError>,
)
    requires
        mission_time_set(pre, post, label, time, key, r),
        missions_have_procedures(pre),
    ensures
        missions_have_procedures(post),
{
    assert(procedures_stay(pre, post));
    assert forall|i: int|
        0 <= i < post.missions.len() && !(#[trigger] post.missions[i]).is_deleted implies has_live_procedure(
        post,
        post.missions[i].procedure_id,
    ) by {
        lemma_found_again(pre, post, pre.missions[i].procedure_id);
    }
}

} // verus!
