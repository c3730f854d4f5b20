//! Retention settles: once it was enforced on the store, enforcing it again
//! with no record added in between prunes nothing, at the same instant
//! under any rule and at any instant under a rule that goes by size alone.

use vstd::prelude::*;
use crate::db::backup::{backup_deleted_at, backup_selected, BackupView};
use crate::db::table::{count_of, lemma_count_of_none, rewritten};
use crate::db::DatabaseView;
use crate::retention::{
    history_of, inserted, is_doomed, is_newest_first, is_pruned, lemma_newest_first,
    lemma_total_size_next, newest_first, not_older, retained, total_size, RetentionRule,
};
use crate::time::Timestamp;

verus! {

/// A record that stands behind nothing, or behind a record that is not
/// older, is inserted at the end.
proof fn lemma_inserted_behind(ordered: Seq<BackupView>, x: BackupView)
    requires
        ordered.len() == 0 || not_older(ordered.last(), x),
    ensures
        inserted(ordered, x) == ordered.push(x),
{
}

/// Inserting and leaving out go together: what is left of an ordered
/// history with one more record is what is left of the history, with the
/// record inserted unless it is left out itself.
proof fn lemma_inserted_filter(
    ordered: Seq<BackupView>,
    x: BackupView,
    q: spec_fn(BackupView) -> bool,
)
    requires
        is_newest_first(ordered),
    ensures
        inserted(ordered, x).filter(q) == if q(x) {
            inserted(ordered.filter(q), x)
        } else {
            ordered.filter(q)
        },
    decreases ordered.len(),
{
    let none = Seq::<BackupView>::empty();
    if ordered.len() == 0 {
        none.lemma_filter_push(x, q);
        none.lemma_filter_len(q);
        if q(x) {
            lemma_inserted_behind(none, x);
        }
    } else if not_older(ordered.last(), x) {
        ordered.lemma_filter_push(x, q);
        if q(x) {
            let left = ordered.filter(q);
            if left.len() > 0 {
                assert(left.contains(left.last()));
                ordered.lemma_filter_contains_rev(q, left.last());
                let i = choose|i: int| 0 <= i < ordered.len() && ordered[i] == left.last();
            }
            lemma_inserted_behind(left, x);
        }
    } else {
        let front = ordered.drop_last();
        let last = ordered.last();
        assert forall|i: int, j: int| 0 <= i <= j < front.len() implies not_older(
            #[trigger] front[i],
            #[trigger] front[j],
        ) by {}
        lemma_inserted_filter(front, x, q);
        assert(ordered =~= front.push(last));
        front.lemma_filter_push(last, q);
        inserted(front, x).lemma_filter_push(last, q);
        if q(x) && q(last) {
            let left = front.filter(q);
            assert(left.push(last).drop_last() =~= left);
        }
    }
}

/// Ordering and leaving out go together: the ordered history without
/// some of its records is the ordered history of the other records.
pub proof fn lemma_newest_first_filter(records: Seq<BackupView>, q: spec_fn(BackupView) -> bool)
    ensures
        newest_first(records).filter(q) == newest_first(records.filter(q)),
    decreases records.len(),
{
    let none = Seq::<BackupView>::empty();
    if records.len() == 0 {
        none.lemma_filter_len(q);
    } else {
        let front = records.drop_last();
        let last = records.last();
        lemma_newest_first_filter(front, q);
        lemma_newest_first(front);
        lemma_inserted_filter(newest_first(front), last, q);
        assert(records =~= front.push(last));
        front.lemma_filter_push(last, q);
        if q(last) {
            let left = front.filter(q);
            assert(left.push(last).drop_last() =~= left);
        }
    }
}

/// What a rewrite leaves selected. Where a rewritten row is no longer
/// selected, the selected rows after the rewrite are the selected rows
/// that were not rewritten.
proof fn lemma_filter_rewritten(
    rows: Seq<BackupView>,
    d: spec_fn(BackupView) -> bool,
    f: spec_fn(BackupView) -> BackupView,
    sel: spec_fn(BackupView) -> bool,
    q: spec_fn(BackupView) -> bool,
)
    requires
        forall|r: BackupView| #[trigger] d(r) ==> !sel(f(r)),
        forall|r: BackupView| #[trigger] q(r) == !d(r),
    ensures
        rewritten(rows, d, f).filter(sel) == rows.filter(sel).filter(q),
    decreases rows.len(),
{
    let none = Seq::<BackupView>::empty();
    if rows.len() == 0 {
        none.lemma_filter_len(sel);
        none.lemma_filter_len(q);
    } else {
        let front = rows.drop_last();
        let last = rows.last();
        let changed = if d(last) {
            f(last)
        } else {
            last
        };
        lemma_filter_rewritten(front, d, f, sel, q);
        assert(rows =~= front.push(last));
        assert(rewritten(rows, d, f) =~= rewritten(front, d, f).push(changed));
        rewritten(front, d, f).lemma_filter_push(changed, sel);
        front.lemma_filter_push(last, sel);
        front.filter(sel).lemma_filter_push(last, q);
    }
}

/// The record at `k` of what is left of `history` is the record at `idx`
/// of the history, and what is left up to it is what is left of the history
/// up to there.
spec fn is_source(
    history: Seq<BackupView>,
    n: int,
    q: spec_fn(BackupView) -> bool,
    k: int,
    idx: int,
) -> bool {
    &&& 0 <= idx < n
    &&& q(history[idx])
    &&& history.take(n).filter(q)[k] == history[idx]
    &&& history.take(n).filter(q).take(k + 1) == history.take(idx + 1).filter(q)
}

/// The record at `k` of what is left of the first `n` records has its
/// source among them.
spec fn has_source(history: Seq<BackupView>, n: int, q: spec_fn(BackupView) -> bool, k: int) -> bool {
    exists|idx: int| #[trigger] is_source(history, n, q, k, idx)
}

/// What is left of the first `n` records weighs no more than these
/// records, and each record that is left has its source among them.
proof fn lemma_filter_sources(history: Seq<BackupView>, n: int, q: spec_fn(BackupView) -> bool)
    requires
        0 <= n <= history.len(),
    ensures
        0 <= total_size(history.take(n).filter(q)) <= total_size(history.take(n)),
        forall|k: int|
            0 <= k < history.take(n).filter(q).len() ==> #[trigger] has_source(history, n, q, k),
    decreases n,
{
    let none = Seq::<BackupView>::empty();
    if n == 0 {
        none.lemma_filter_len(q);
    } else {
        let m = n - 1;
        lemma_filter_sources(history, m, q);
        lemma_total_size_next(history, m);
        let before = history.take(m).filter(q);
        let now = history.take(n).filter(q);
        assert(history.take(n) =~= history.take(m).push(history[m]));
        history.take(m).lemma_filter_push(history[m], q);
        if q(history[m]) {
            assert(now.drop_last() =~= before);
        }
        assert forall|k: int| 0 <= k < now.len() implies #[trigger] has_source(
            history,
            n,
            q,
            k,
        ) by {
            if k < before.len() {
                assert(has_source(history, m, q, k));
                let idx = choose|idx: int| #[trigger] is_source(history, m, q, k, idx);
                assert(now.take(k + 1) =~= before.take(k + 1));
                assert(is_source(history, n, q, k, idx));
            } else {
                assert(now.take(k + 1) =~= now);
                assert(is_source(history, n, q, k, m));
            }
        }
    }
}

/// Once retention was enforced at `now`, doing it again at `later` with
/// the same rule marks no further record, where the instant is the same
/// or the rule does not go by age.
proof fn lemma_settles(
    db: DatabaseView,
    mid: Seq<char>,
    rule: RetentionRule,
    now: Timestamp,
    later: Timestamp,
)
    requires
        later == now || !rule.by_days(),
    ensures
        count_of(
            retained(db, mid, rule, now).backups,
            is_doomed(history_of(retained(db, mid, rule, now), mid), rule, later, mid),
        ) == 0,
        retained(retained(db, mid, rule, now), mid, rule, later) == retained(db, mid, rule, now),
{
    let sel = backup_selected(None, Some(mid));
    let history = history_of(db, mid);
    let d = is_doomed(history, rule, now, mid);
    let q = |r: BackupView| !d(r);
    let f = backup_deleted_at(now);
    let once = retained(db, mid, rule, now);
    let left = history_of(once, mid);
    let again = is_doomed(left, rule, later, mid);

    // what is left of the history is the history without the doomed records
    lemma_filter_rewritten(db.backups, d, f, sel, q);
    lemma_newest_first_filter(db.backups.filter(sel), q);

    // every record of the history is a live record of the mission
    lemma_newest_first(db.backups.filter(sel));
    assert forall|j: int| 0 <= j < history.len() implies sel(#[trigger] history[j]) by {
        let live = db.backups.filter(sel);
        assert(history.to_multiset().count(history[j]) > 0) by {
            history.to_multiset_ensures();
        }
        assert(live.contains(history[j])) by {
            live.to_multiset_ensures();
        }
        let i = choose|i: int| 0 <= i < live.len() && live[i] == history[j];
        db.backups.lemma_filter_pred(sel, i);
    }

    // nothing that is left is pruned
    lemma_filter_sources(history, history.len() as int, q);
    assert(history.take(history.len() as int) =~= history);
    assert forall|k: int| 0 <= k < left.len() implies !is_pruned(left, k, rule, later) by {
        assert(has_source(history, history.len() as int, q, k));
        let idx = choose|idx: int| #[trigger] is_source(history, history.len() as int, q, k, idx);
        lemma_filter_sources(history, idx + 1, q);
    }
    assert forall|j: int| 0 <= j < once.backups.len() implies !again(
        #[trigger] once.backups[j],
    ) by {}
    lemma_count_of_none(once.backups, again);
    assert(rewritten(once.backups, again, backup_deleted_at(later)) =~= once.backups);
}

/// Retention settles. Once retention was enforced for a mission, doing it
/// again with the same rule at the same instant marks no further record:
/// the second time the store stays as it is.
pub proof fn lemma_retention_settles(
    db: DatabaseView,
    mid: Seq<char>,
    rule: RetentionRule,
    now: Timestamp,
)
    ensures
        count_of(
            retained(db, mid, rule, now).backups,
            is_doomed(history_of(retained(db, mid, rule, now), mid), rule, now, mid),
        ) == 0,
        retained(retained(db, mid, rule, now), mid, rule, now) == retained(db, mid, rule, now),
{
    lemma_settles(db, mid, rule, now, now);
}

/// Retention by size settles for good. Under a rule that does not go by
/// age, once retention was enforced for a mission, doing it again at any
/// instant, with no record added in between, marks no further record:
/// what such a rule prunes does not depend on the instant.
pub proof fn lemma_size_retention_settles(
    db: DatabaseView,
    mid: Seq<char>,
    rule: RetentionRule,
    now: Timestamp,
    later: Timestamp,
)
    requires
        !rule.by_days(),
    ensures
        count_of(
            retained(db, mid, rule, now).backups,
            is_doomed(history_of(retained(db, mid, rule, now), mid), rule, later, mid),
        ) == 0,
        retained(retained(db, mid, rule, now), mid, rule, later) == retained(db, mid, rule, now),
{
    lemma_settles(db, mid, rule, now, later);
}

} // verus!
