//! The ticket discipline of the registry: over any sequence of calls, at
//! most one ticket per mission is out at any moment, and a ticket is out
//! exactly while the status of the mission is `Backuping`.

use vstd::prelude::*;
use crate::db::mission::{MissionStatus, MissionView};
use crate::db::table::{compacted, lemma_compacted_next, lemma_compacted_rows};
use crate::registry::{
    admissible, distinct_ids, hands_out, holds, in_flight, index_of, is_live, known,
    lemma_index_of, mission_of, snapshot_is_kept, snapshot_placed, step, takes_back, SnapshotView,
    Step,
};

verus! {

/// The state after a sequence of steps, taken one after the other.
pub open spec fn run(entries: Seq<SnapshotView>, steps: Seq<Step>) -> Seq<SnapshotView>
    decreases steps.len(),
{
    if steps.len() == 0 {
        entries
    } else {
        step(run(entries, steps.drop_last()), steps.last())
    }
}

/// How many tickets for the mission `id` are out after a sequence of
/// steps: the one that was out at the start, if one was, and one more for
/// each step that handed one out, and one less for each step that took one
/// back.
pub open spec fn tickets_out(entries: Seq<SnapshotView>, steps: Seq<Step>, id: Seq<char>) -> int
    decreases steps.len(),
{
    if steps.len() == 0 {
        if in_flight(entries, id) {
            1
        } else {
            0
        }
    } else {
        let before = run(entries, steps.drop_last());
        tickets_out(entries, steps.drop_last(), id) + (if hands_out(before, steps.last(), id) {
            1int
        } else {
            0int
        }) - (if takes_back(before, steps.last(), id) {
            1int
        } else {
            0int
        })
    }
}

/// Two entries that belong to the same mission in the same status.
pub open spec fn same_run_state() -> spec_fn(SnapshotView, SnapshotView) -> bool {
    |a: SnapshotView, b: SnapshotView|
        a.mission.mission_id == b.mission.mission_id && a.mission.status == b.mission.status
            && a.mission.is_deleted == b.mission.is_deleted
}

/// Putting an entry in the place of the entry of the same mission keeps
/// the identities distinct, makes the new entry the entry of that mission
/// and leaves every other mission as it was.
pub proof fn lemma_replace(entries: Seq<SnapshotView>, id: Seq<char>, e: SnapshotView)
    requires
        distinct_ids(entries),
        known(entries, id),
        e.mission.mission_id == id,
    ensures
        distinct_ids(entries.update(index_of(entries, id), e)),
        known(entries.update(index_of(entries, id), e), id),
        mission_of(entries.update(index_of(entries, id), e), id) == e.mission,
        forall|other: Seq<char>|
            other != id ==> #[trigger] known(entries.update(index_of(entries, id), e), other)
                == known(entries, other),
        forall|other: Seq<char>|
            other != id && known(entries, other) ==> #[trigger] mission_of(
                entries.update(index_of(entries, id), e),
                other,
            ) == mission_of(entries, other),
{
    let i = index_of(entries, id);
    let post = entries.update(i, e);
    assert forall|a: int, b: int| 0 <= a < b < post.len() implies (#[trigger] post[a]).mission.mission_id
        != (#[trigger] post[b]).mission.mission_id by {}
    lemma_index_of(post, id, i);
    assert forall|other: Seq<char>| other != id implies #[trigger] known(post, other) == known(
        entries,
        other,
    ) by {
        if known(entries, other) {
            let k = index_of(entries, other);
            assert(holds(post, other, k));
        }
        if known(post, other) {
            let k = index_of(post, other);
            assert(holds(entries, other, k));
        }
    }
    assert forall|other: Seq<char>| other != id && known(entries, other) implies #[trigger] mission_of(
        post,
        other,
    ) == mission_of(entries, other) by {
        let k = index_of(entries, other);
        lemma_index_of(post, other, k);
    }
}

/// Adding an entry for a mission that is not known keeps the identities
/// distinct, makes the new entry the entry of that mission and leaves every
/// other mission as it was.
pub proof fn lemma_append(entries: Seq<SnapshotView>, e: SnapshotView)
    requires
        distinct_ids(entries),
        !known(entries, e.mission.mission_id),
    ensures
        distinct_ids(entries.push(e)),
        known(entries.push(e), e.mission.mission_id),
        mission_of(entries.push(e), e.mission.mission_id) == e.mission,
        forall|other: Seq<char>|
            other != e.mission.mission_id ==> #[trigger] known(entries.push(e), other) == known(
                entries,
                other,
            ),
        forall|other: Seq<char>|
            other != e.mission.mission_id && known(entries, other) ==> #[trigger] mission_of(
                entries.push(e),
                other,
            ) == mission_of(entries, other),
{
    let id = e.mission.mission_id;
    let post = entries.push(e);
    let n = entries.len() as int;
    assert forall|a: int, b: int| 0 <= a < b < post.len() implies (#[trigger] post[a]).mission.mission_id
        != (#[trigger] post[b]).mission.mission_id by {
        if b >= n {
            assert(!holds(entries, id, a));
        }
    }
    lemma_index_of(post, id, n);
    assert forall|other: Seq<char>| other != id implies #[trigger] known(post, other) == known(
        entries,
        other,
    ) by {
        if known(entries, other) {
            let k = index_of(entries, other);
            assert(holds(post, other, k));
        }
        if known(post, other) {
            let k = index_of(post, other);
            assert(holds(entries, other, k));
        }
    }
    assert forall|other: Seq<char>| other != id && known(entries, other) implies #[trigger] mission_of(
        post,
        other,
    ) == mission_of(entries, other) by {
        let k = index_of(entries, other);
        lemma_index_of(post, other, k);
    }
}

/// Compaction keeps the identities distinct.
pub proof fn lemma_compacted_distinct(entries: Seq<SnapshotView>)
    requires
        distinct_ids(entries),
    ensures
        distinct_ids(compacted(entries, snapshot_is_kept(), snapshot_placed())),
    decreases entries.len(),
{
    let live = snapshot_is_kept();
    let place = snapshot_placed();
    if entries.len() == 0 {
        entries.lemma_filter_len(live);
    } else {
        let n = entries.len() - 1;
        let front = entries.take(n);
        assert(entries.take(n + 1) =~= entries);
        assert forall|a: int, b: int| 0 <= a < b < front.len() implies (
        #[trigger] front[a]).mission.mission_id != (#[trigger] front[b]).mission.mission_id by {}
        lemma_compacted_distinct(front);
        lemma_compacted_next(entries, live, place, n);
        let c = compacted(front, live, place);
        if live(entries[n]) {
            let post = compacted(entries, live, place);
            lemma_compacted_rows(front, live, place, same_run_state());
            assert forall|a: int, b: int| 0 <= a < b < post.len() implies (
            #[trigger] post[a]).mission.mission_id != (#[trigger] post[b]).mission.mission_id by {}
        }
    }
}

/// Compaction drops no mission with a run under way and changes the
/// status of none: the same missions have a run under way before and
/// after.
pub proof fn lemma_compacted_in_flight(entries: Seq<SnapshotView>, id: Seq<char>)
    requires
        distinct_ids(entries),
    ensures
        in_flight(compacted(entries, snapshot_is_kept(), snapshot_placed()), id) == in_flight(
            entries,
            id,
        ),
{
    let live = snapshot_is_kept();
    let place = snapshot_placed();
    let post = compacted(entries, live, place);
    lemma_compacted_distinct(entries);
    lemma_compacted_rows(entries, live, place, same_run_state());
    if in_flight(entries, id) {
        let j = index_of(entries, id);
        let i = choose|i: int| 0 <= i < post.len() && (same_run_state())(entries[j], #[trigger] post[i]);
        lemma_index_of(post, id, i);
    }
    if in_flight(post, id) {
        let i = index_of(post, id);
        let j = choose|j: int|
            0 <= j < entries.len() && live(#[trigger] entries[j]) && (same_run_state())(
                entries[j],
                post[i],
            );
        lemma_index_of(entries, id, j);
    }
}

/// What one step does to the runs under way. The identities stay
/// distinct. A ticket is handed out only for a mission without a run under
/// way and taken back only for a mission with one; and after the step a
/// run of a mission is under way exactly if the step handed its ticket
/// out, or one was under way before and the step did not take the ticket
/// back.
pub proof fn lemma_step(entries: Seq<SnapshotView>, s: Step, id: Seq<char>)
    requires
        distinct_ids(entries),
    ensures
        distinct_ids(step(entries, s)),
        hands_out(entries, s, id) ==> !in_flight(entries, id),
        takes_back(entries, s, id) ==> in_flight(entries, id),
        in_flight(step(entries, s), id) == (hands_out(entries, s, id) || (in_flight(entries, id)
            && !takes_back(entries, s, id))),
{
    match s {
        Step::SetStatus(who, target) => {
            if is_live(entries, who) {
                let m = MissionView { status: target, ..mission_of(entries, who) };
                let i = index_of(entries, who);
                lemma_replace(entries, who, SnapshotView { mission: m, ..entries[i] });
            }
        },
        Step::Begin(who) => {
            if hands_out(entries, s, who) {
                let m = MissionView {
                    status: MissionStatus::Backuping,
                    ..mission_of(entries, who)
                };
                let i = index_of(entries, who);
                lemma_replace(entries, who, SnapshotView { mission: m, ..entries[i] });
            }
        },
        Step::End(who, trigger, fired_at, outcome) => {
            if in_flight(entries, who) {
                let m = crate::registry::after_run(
                    mission_of(entries, who),
                    trigger,
                    fired_at,
                    outcome,
                );
                let i = index_of(entries, who);
                lemma_replace(entries, who, SnapshotView { mission: m, ..entries[i] });
            }
        },
        Step::Upsert(snapshot) => {
            let who = snapshot.mission.mission_id;
            if admissible(snapshot) {
                if known(entries, who) {
                    if is_live(entries, who) {
                        let e = SnapshotView {
                            mission: MissionView {
                                id: mission_of(entries, who).id,
                                status: mission_of(entries, who).status,
                                ..snapshot.mission
                            },
                            ..snapshot
                        };
                        lemma_replace(entries, who, e);
                    }
                } else {
                    let e = SnapshotView {
                        mission: MissionView {
                            id: crate::db::table::next_ordinal(entries.len()) as i32,
                            status: MissionStatus::Paused,
                            ..snapshot.mission
                        },
                        ..snapshot
                    };
                    lemma_append(entries, e);
                }
            }
        },
        Step::Remove(who, now) => {
            if is_live(entries, who) {
                let m = MissionView { is_deleted: true, delete_at: now, ..mission_of(entries, who) };
                let i = index_of(entries, who);
                lemma_replace(entries, who, SnapshotView { mission: m, ..entries[i] });
            }
        },
        Step::Compact => {
            lemma_compacted_distinct(entries);
            lemma_compacted_in_flight(entries, id);
        },
        Step::SetTime(who, label, time) => {
            if is_live(entries, who) {
                let m = (label.effect(time))(mission_of(entries, who));
                let i = index_of(entries, who);
                lemma_replace(entries, who, SnapshotView { mission: m, ..entries[i] });
            }
        },
    }
}

/// At most one ticket per mission. Whatever calls are made and in
/// whatever order, the number of tickets that are out for a mission is 0 or
/// 1 after every call, and it is 1 exactly while the status of the mission
/// is `Backuping`.
pub proof fn lemma_at_most_one_ticket(entries: Seq<SnapshotView>, steps: Seq<Step>, id: Seq<char>)
    requires
        distinct_ids(entries),
    ensures
        distinct_ids(run(entries, steps)),
        0 <= tickets_out(entries, steps, id) <= 1,
        tickets_out(entries, steps, id) == 1 <==> in_flight(run(entries, steps), id),
    decreases steps.len(),
{
    if steps.len() > 0 {
        lemma_at_most_one_ticket(entries, steps.drop_last(), id);
        lemma_step(run(entries, steps.drop_last()), steps.last(), id);
    }
}

/// No second ticket before the first came back: right after a call that
/// handed the ticket of a mission out, another call for the same mission
/// hands none out.
pub proof fn lemma_second_begin_is_busy(entries: Seq<SnapshotView>, id: Seq<char>)
    requires
        distinct_ids(entries),
        hands_out(entries, Step::Begin(id), id),
    ensures
        !hands_out(step(entries, Step::Begin(id)), Step::Begin(id), id),
        is_live(step(entries, Step::Begin(id)), id),
        mission_of(step(entries, Step::Begin(id)), id).status == MissionStatus::Backuping,
{
    let m = MissionView { status: MissionStatus::Backuping, ..mission_of(entries, id) };
    let i = index_of(entries, id);
    lemma_replace(entries, id, SnapshotView { mission: m, ..entries[i] });
}

} // verus!
