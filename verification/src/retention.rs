//! Retention: which records of the artifact history are pruned.
//!
//! The history of a mission is walked from the newest record to the
//! oldest. A policy by days prunes every record that is older than the
//! given number of days. A policy by size adds up the sizes on the way and
//! prunes every record at which the total has passed the given number of
//! bytes. A policy by both prunes what either of the two prunes.

use vstd::prelude::*;
use vstd::seq_lib::to_multiset_build;
use vstd::string::StringExecFns;
use crate::db::backup::{
    backup_deleted_at, backup_selected, backup_views, query_backup_record, Backup, BackupView,
};
use crate::db::table::{count_of, lemma_count_of_next, lemma_count_of_none, rewritten};
use crate::db::{Database, DatabaseView};
use crate::db::procedure::{Procedure, ProcedureView, RestrictPolicy};
use crate::time::Timestamp;

verus! {

/// What the retention of a procedure asks for.
#[derive(Clone, Copy, Debug, PartialEq, Eq)]
pub struct RetentionRule {
    pub policy: RestrictPolicy,
    /// Records older than this many days are pruned by age.
    pub days: i16,
    /// Records beyond this many accumulated bytes are pruned by size.
    pub size: i64,
}

impl RetentionRule {
    /// The rule that `procedure` asks for.
    pub fn of(procedure: &Procedure) -> (rule: RetentionRule)
        ensures
            rule == rule_of(procedure@),
    {
        RetentionRule {
            policy: procedure.restrict,
            days: procedure.restrict_days,
            size: procedure.restrict_size,
        }
    }

    /// The rule prunes by age.
    pub open spec fn by_days(self) -> bool {
        self.policy == RestrictPolicy::ByDays || self.policy == RestrictPolicy::ByBoth
    }

    /// The rule prunes by accumulated size.
    pub open spec fn by_size(self) -> bool {
        self.policy == RestrictPolicy::BySize || self.policy == RestrictPolicy::ByBoth
    }
}

/// `created` lies more than `days` days before `now`.
pub open spec fn is_older_than(created: Timestamp, days: int, now: Timestamp) -> bool {
    let age = now.secs - created.secs;
    age > days * 86_400 || (age == days * 86_400 && created.nanos < now.nanos)
}

/// The bytes of all of `records` together.
pub open spec fn total_size(records: Seq<BackupView>) -> int
    decreases records.len(),
{
    if records.len() == 0 {
        0
    } else {
        total_size(records.drop_last()) + records.last().backup_size
    }
}

/// The bytes of the records from the first up to the one at `i`.
pub open spec fn size_through(records: Seq<BackupView>, i: int) -> int {
    total_size(records.take(i + 1))
}

/// The record at `i` is pruned: it is too old under a policy by days, or
/// the bytes up to and including it are too many under a policy by size.
pub open spec fn is_pruned(
    records: Seq<BackupView>,
    i: int,
    rule: RetentionRule,
    now: Timestamp,
) -> bool {
    (rule.by_days() && is_older_than(records[i].create_at, rule.days as int, now)) || (
    rule.by_size() && size_through(records, i) > rule.size)
}

/// For each record of the history whether it is pruned.
pub open spec fn pruned_flags(
    records: Seq<BackupView>,
    rule: RetentionRule,
    now: Timestamp,
) -> Seq<bool> {
    Seq::new(records.len(), |i: int| is_pruned(records, i, rule, now))
}

/// The records among the first `n` that are not pruned, in their order.
pub open spec fn survivors_of(
    records: Seq<BackupView>,
    n: int,
    rule: RetentionRule,
    now: Timestamp,
) -> Seq<BackupView>
    decreases n,
{
    if n <= 0 {
        Seq::empty()
    } else if is_pruned(records, n - 1, rule, now) {
        survivors_of(records, n - 1, rule, now)
    } else {
        survivors_of(records, n - 1, rule, now).push(records[n - 1])
    }
}

/// The history after pruning: the records that are not pruned, in their
/// order.
pub open spec fn survivors(
    records: Seq<BackupView>,
    rule: RetentionRule,
    now: Timestamp,
) -> Seq<BackupView> {
    survivors_of(records, records.len() as int, rule, now)
}

/// Whether `created` lies more than `days` days before `now`.
pub fn older_than(created: &Timestamp, days: i16, now: &Timestamp) -> (r: bool)
    ensures
        r == is_older_than(*created, days as int, *now),
{
    let age: i128 = now.secs as i128 - created.secs as i128;
    let limit: i128 = days as i128 * 86_400;
    age > limit || (age == limit && created.nanos < now.nanos)
}

/// For each record of the history, which is given from the newest to the
/// oldest, whether the rule prunes it at `now`.
pub fn select_pruned(records: &Vec<Backup>, rule: &RetentionRule, now: Timestamp) -> (flags: Vec<
    bool,
>)
    ensures
        flags@ == pruned_flags(backup_views(records@), *rule, now),
{
    let ghost history = backup_views(records@);
    let by_days = match rule.policy {
        RestrictPolicy::ByDays => true,
        RestrictPolicy::ByBoth => true,
        _ => false,
    };
    let by_size = match rule.policy {
        RestrictPolicy::BySize => true,
        RestrictPolicy::ByBoth => true,
        _ => false,
    };
    let mut flags: Vec<bool> = Vec::new();
    let mut total: u64 = 0;
    let mut beyond: bool = false;
    let mut i: usize = 0;
    while i < records.len()
        invariant
            i <= records.len(),
            history == backup_views(records@),
            by_days == rule.by_days(),
            by_size == rule.by_size(),
            flags.len() == i,
            forall|j: int| 0 <= j < i ==> flags[j] == is_pruned(history, j, *rule, now),
            if beyond {
                total_size(history.take(i as int)) > u64::MAX
            } else {
                total == total_size(history.take(i as int))
            },
        decreases records.len() - i,
    {
        proof {
            lemma_total_size_next(history, i as int);
        }
        if !beyond {
            match total.checked_add(records[i].backup_size) {
                Some(sum) => {
                    total = sum;
                },
                None => {
                    beyond = true;
                },
            }
        }
        let too_old = by_days && older_than(&records[i].create_at, rule.days, &now);
        let too_much = by_size && (beyond || rule.size < 0 || total > rule.size as u64);
        flags.push(too_old || too_much);
        i = i + 1;
    }
    flags
}

/// The history that pruning leaves: the records that the rule does not
/// prune at `now`, in their order.
pub fn keep_survivors(records: &Vec<Backup>, rule: &RetentionRule, now: Timestamp) -> (kept: Vec<
    Backup,
>)
    ensures
        backup_views(kept@) == survivors(backup_views(records@), *rule, now),
{
    let ghost history = backup_views(records@);
    let flags = select_pruned(records, rule, now);
    let mut kept: Vec<Backup> = Vec::new();
    let mut i: usize = 0;
    while i < records.len()
        invariant
            i <= records.len(),
            history == backup_views(records@),
            flags@ == pruned_flags(history, *rule, now),
            backup_views(kept@) == survivors_of(history, i as int, *rule, now),
        decreases records.len() - i,
    {
        if !flags[i] {
            kept.push(records[i].clone());
        }
        i = i + 1;
    }
    kept
}

/// Taking the next record into account adds its bytes to the total.
pub proof fn lemma_total_size_next(records: Seq<BackupView>, i: int)
    requires
        0 <= i < records.len(),
    ensures
        total_size(records.take(i + 1)) == total_size(records.take(i)) + records[i].backup_size,
        total_size(records.take(i)) >= 0,
    decreases i,
{
    assert(records.take(i + 1).drop_last() =~= records.take(i));
    if i > 0 {
        lemma_total_size_next(records, i - 1);
    }
}

/// What is known of the records that are left of the first `n`: they
/// weigh no more than the first `n` records, and each of them is a record
/// that was not pruned, found at some place `idx`, such that the survivors
/// up to and including it are exactly the survivors of the first `idx + 1`
/// records.
proof fn lemma_survivors_of(records: Seq<BackupView>, n: int, rule: RetentionRule, now: Timestamp)
    requires
        0 <= n <= records.len(),
    ensures
        survivors_of(records, n, rule, now).len() <= n,
        0 <= total_size(survivors_of(records, n, rule, now)) <= total_size(records.take(n)),
        forall|k: int|
            0 <= k < survivors_of(records, n, rule, now).len() ==> has_origin(
                records,
                n,
                rule,
                now,
                k,
            ),
    decreases n,
{
    if n > 0 {
        lemma_survivors_of(records, n - 1, rule, now);
        lemma_total_size_next(records, n - 1);
        let before = survivors_of(records, n - 1, rule, now);
        let s = survivors_of(records, n, rule, now);
        if !is_pruned(records, n - 1, rule, now) {
            assert(s.drop_last() =~= before);
        }
        assert forall|k: int| 0 <= k < s.len() implies has_origin(records, n, rule, now, k) by {
            if k < before.len() {
                let m = n - 1;
                assert(has_origin(records, m, rule, now, k));
                let idx = choose|idx: int| #[trigger] is_origin(records, m, rule, now, k, idx);
                assert(s.take(k + 1) =~= before.take(k + 1));
                assert(is_origin(records, n, rule, now, k, idx));
            } else {
                assert(s.take(k + 1) =~= s);
                assert(is_origin(records, n, rule, now, k, n - 1));
            }
        }
    }
}

/// The survivor at `k` among the first `n` records is the record at
/// `idx`, and the survivors up to it are the survivors of the first
/// `idx + 1` records.
pub open spec fn is_origin(
    records: Seq<BackupView>,
    n: int,
    rule: RetentionRule,
    now: Timestamp,
    k: int,
    idx: int,
) -> bool {
    &&& 0 <= idx < n
    &&& !is_pruned(records, idx, rule, now)
    &&& survivors_of(records, n, rule, now)[k] == records[idx]
    &&& survivors_of(records, n, rule, now).take(k + 1) == survivors_of(
        records,
        idx + 1,
        rule,
        now,
    )
}

/// The survivor at `k` among the first `n` records has an origin.
pub open spec fn has_origin(
    records: Seq<BackupView>,
    n: int,
    rule: RetentionRule,
    now: Timestamp,
    k: int,
) -> bool {
    exists|idx: int| #[trigger] is_origin(records, n, rule, now, k, idx)
}

/// Pruning is idempotent. In the history that pruning leaves, nothing is
/// pruned when the same rule is applied again at the same instant: what is
/// left is left for good until a record is added or time goes on.
pub proof fn lemma_pruning_is_idempotent(
    records: Seq<BackupView>,
    rule: RetentionRule,
    now: Timestamp,
)
    ensures
        forall|k: int|
            0 <= k < survivors(records, rule, now).len() ==> !#[trigger] is_pruned(
                survivors(records, rule, now),
                k,
                rule,
                now,
            ),
        survivors(survivors(records, rule, now), rule, now) == survivors(records, rule, now),
{
    let s = survivors(records, rule, now);
    let n = records.len() as int;
    lemma_survivors_of(records, n, rule, now);
    assert forall|k: int| 0 <= k < s.len() implies !#[trigger] is_pruned(s, k, rule, now) by {
        assert(has_origin(records, n, rule, now, k));
        let idx = choose|idx: int| #[trigger] is_origin(records, n, rule, now, k, idx);
        lemma_survivors_of(records, idx + 1, rule, now);
    }
    lemma_nothing_pruned(s, s.len() as int, rule, now);
}

/// Where none of the first `n` records is pruned, all of them are left.
proof fn lemma_nothing_pruned(records: Seq<BackupView>, n: int, rule: RetentionRule, now: Timestamp)
    requires
        0 <= n <= records.len(),
        forall|k: int| 0 <= k < n ==> !#[trigger] is_pruned(records, k, rule, now),
    ensures
        survivors_of(records, n, rule, now) == records.take(n),
    decreases n,
{
    if n > 0 {
        lemma_nothing_pruned(records, n - 1, rule, now);
    }
}

/// Pruning by size cuts the history off: once a record is pruned for the
/// bytes accumulated up to it, every older record is pruned too.
pub proof fn lemma_size_pruning_is_monotonic(
    records: Seq<BackupView>,
    rule: RetentionRule,
    now: Timestamp,
    i: int,
    j: int,
)
    requires
        0 <= i <= j < records.len(),
        rule.by_size(),
        size_through(records, i) > rule.size,
    ensures
        is_pruned(records, j, rule, now),
    decreases j - i,
{
    if i < j {
        lemma_total_size_next(records, i + 1);
        lemma_size_pruning_is_monotonic(records, rule, now, i + 1, j);
    }
}

/// `a` was made no earlier than `b`.
pub open spec fn not_older(a: BackupView, b: BackupView) -> bool {
    !a.create_at.before(b.create_at)
}

/// An ordered history with one more record: `x` stands behind every
/// record that is not older than it, and before every older one.
pub open spec fn inserted(ordered: Seq<BackupView>, x: BackupView) -> Seq<BackupView>
    decreases ordered.len(),
{
    if ordered.len() == 0 {
        seq![x]
    } else if not_older(ordered.last(), x) {
        ordered.push(x)
    } else {
        inserted(ordered.drop_last(), x).push(ordered.last())
    }
}

/// The history from the newest record to the oldest. Records of the same
/// instant keep the order in which they were given.
pub open spec fn newest_first(records: Seq<BackupView>) -> Seq<BackupView>
    decreases records.len(),
{
    if records.len() == 0 {
        Seq::empty()
    } else {
        inserted(newest_first(records.drop_last()), records.last())
    }
}

/// No record of `records` stands before a newer one.
pub open spec fn is_newest_first(records: Seq<BackupView>) -> bool {
    forall|i: int, j: int|
        0 <= i <= j < records.len() ==> not_older(#[trigger] records[i], #[trigger] records[j])
}

/// Inserting keeps the order and adds exactly the one record.
pub proof fn lemma_inserted(ordered: Seq<BackupView>, x: BackupView)
    requires
        is_newest_first(ordered),
    ensures
        is_newest_first(inserted(ordered, x)),
        inserted(ordered, x).len() == ordered.len() + 1,
        inserted(ordered, x).to_multiset() == ordered.to_multiset().insert(x),
        forall|i: int|
            0 <= i < inserted(ordered, x).len() ==> #[trigger] inserted(ordered, x)[i] == x
                || ordered.contains(inserted(ordered, x)[i]),
    decreases ordered.len(),
{
    let r = inserted(ordered, x);
    if ordered.len() == 0 {
        to_multiset_build(ordered, x);
        assert(seq![x] =~= ordered.push(x));
    } else if not_older(ordered.last(), x) {
        to_multiset_build(ordered, x);
        assert forall|i: int, j: int| 0 <= i <= j < r.len() implies not_older(
            #[trigger] r[i],
            #[trigger] r[j],
        ) by {}
        assert forall|i: int| 0 <= i < r.len() implies #[trigger] r[i] == x || ordered.contains(
            r[i],
        ) by {}
    } else {
        let front = ordered.drop_last();
        let last = ordered.last();
        assert forall|i: int, j: int| 0 <= i <= j < front.len() implies not_older(
            #[trigger] front[i],
            #[trigger] front[j],
        ) by {}
        lemma_inserted(front, x);
        let inner = inserted(front, x);
        to_multiset_build(inner, last);
        to_multiset_build(front, last);
        assert(ordered =~= front.push(last));
        assert forall|i: int, j: int| 0 <= i <= j < r.len() implies not_older(
            #[trigger] r[i],
            #[trigger] r[j],
        ) by {
            if j == r.len() - 1 && i < j {
                assert(not_older(ordered[i], ordered.last()));
            }
        }
        assert forall|i: int| 0 <= i < r.len() implies #[trigger] r[i] == x || ordered.contains(
            r[i],
        ) by {}
    }
}

/// The ordered history holds the records that were given, each as often as
/// it was given, and none of them stands before a newer one.
pub proof fn lemma_newest_first(records: Seq<BackupView>)
    ensures
        is_newest_first(newest_first(records)),
        newest_first(records).len() == records.len(),
        newest_first(records).to_multiset() == records.to_multiset(),
    decreases records.len(),
{
    if records.len() > 0 {
        let front = records.drop_last();
        lemma_newest_first(front);
        lemma_inserted(newest_first(front), records.last());
        to_multiset_build(front, records.last());
        assert(records =~= front.push(records.last()));
    } else {
        assert(records =~= Seq::<BackupView>::empty());
    }
}

/// Where `x` goes in an ordered history: behind the first `pos` records
/// once the record before that place is not older than `x`.
proof fn lemma_inserted_at(ordered: Seq<BackupView>, x: BackupView, pos: int)
    requires
        0 <= pos <= ordered.len(),
        pos > 0 ==> not_older(ordered[pos - 1], x),
        forall|k: int| pos <= k < ordered.len() ==> !not_older(#[trigger] ordered[k], x),
    ensures
        inserted(ordered, x) == ordered.insert(pos, x),
    decreases ordered.len() - pos,
{
    if pos < ordered.len() {
        let front = ordered.drop_last();
        assert(!not_older(ordered.last(), x));
        assert forall|k: int| pos <= k < front.len() implies !not_older(#[trigger] front[k], x) by {}
        lemma_inserted_at(front, x, pos);
    }
}

/// The history from the newest record to the oldest; records of the same
/// instant keep their order.
pub fn order_newest_first(records: &Vec<Backup>) -> (out: Vec<Backup>)
    ensures
        backup_views(out@) == newest_first(backup_views(records@)),
        is_newest_first(backup_views(out@)),
        out.len() == records.len(),
{
    let ghost given = backup_views(records@);
    let mut out: Vec<Backup> = Vec::new();
    let mut i: usize = 0;
    while i < records.len()
        invariant
            i <= records.len(),
            given == backup_views(records@),
            out.len() == i,
            backup_views(out@) == newest_first(given.take(i as int)),
        decreases records.len() - i,
    {
        let x = records[i].clone();
        let ghost ordered = backup_views(out@);
        let mut pos: usize = out.len();
        while pos > 0 && out[pos - 1].create_at.is_before(&x.create_at)
            invariant
                pos <= out.len(),
                ordered == backup_views(out@),
                forall|k: int| pos <= k < ordered.len() ==> !not_older(#[trigger] ordered[k], x@),
            decreases pos,
        {
            pos = pos - 1;
        }
        proof {
            lemma_inserted_at(ordered, x@, pos as int);
            assert(given.take(i + 1).drop_last() =~= given.take(i as int));
        }
        out.insert(pos, x);
        i = i + 1;
    }
    proof {
        assert(given.take(i as int) =~= given);
        lemma_newest_first(given);
    }
    out
}

/// The history of the mission `mid`: its live records from the newest to
/// the oldest.
pub open spec fn history_of(db: DatabaseView, mid: Seq<char>) -> Seq<BackupView> {
    newest_first(db.backups.filter(backup_selected(None, Some(mid))))
}

/// Some record of `history` that the rule prunes has the identity `id`.
pub open spec fn is_marked(
    history: Seq<BackupView>,
    rule: RetentionRule,
    now: Timestamp,
    id: Seq<char>,
) -> bool {
    exists|k: int|
        0 <= k < history.len() && is_pruned(history, k, rule, now) && (
        #[trigger] history[k]).backup_id == id
}

/// The rows that retention deletes: the live records of the mission `mid`
/// whose identity is that of a pruned record of the history.
pub open spec fn is_doomed(
    history: Seq<BackupView>,
    rule: RetentionRule,
    now: Timestamp,
    mid: Seq<char>,
) -> spec_fn(BackupView) -> bool {
    |r: BackupView| !r.is_deleted && r.mission_id == mid && is_marked(history, rule, now, r.backup_id)
}

/// The rule that a procedure asks for.
pub open spec fn rule_of(p: ProcedureView) -> RetentionRule {
    RetentionRule { policy: p.restrict, days: p.restrict_days, size: p.restrict_size }
}

/// The store after retention was enforced for the mission `mid`: every
/// live record of the mission that the rule prunes is marked as deleted at
/// `now`, and nothing else is changed.
pub open spec fn retained(
    db: DatabaseView,
    mid: Seq<char>,
    rule: RetentionRule,
    now: Timestamp,
) -> DatabaseView {
    DatabaseView {
        backups: rewritten(
            db.backups,
            is_doomed(history_of(db, mid), rule, now, mid),
            backup_deleted_at(now),
        ),
        ..db
    }
}

/// Whether some record of `history` that is flagged has the identity `id`.
fn is_flagged(history: &Vec<Backup>, flags: &Vec<bool>, id: &String) -> (r: bool)
    requires
        flags.len() == history.len(),
    ensures
        r == exists|k: int|
            0 <= k < history.len() && flags[k] && (#[trigger] backup_views(history@)[k]).backup_id
                == id@,
{
    let mut k: usize = 0;
    while k < history.len()
        invariant
            k <= history.len(),
            flags.len() == history.len(),
            forall|j: int|
                0 <= j < k ==> !(flags[j] && (#[trigger] backup_views(history@)[j]).backup_id
                    == id@),
        decreases history.len() - k,
    {
        if flags[k] && history[k].backup_id == *id {
            assert(backup_views(history@)[k as int].backup_id == id@);
            return true;
        }
        k = k + 1;
    }
    false
}

/// Enforces the retention of `procedure` on the history of the mission
/// `mission_id` at `now`: every live record of the mission that the rule
/// prunes is marked as deleted at `now`, and nothing else changes. Returns
/// how many records were marked. Under a policy that restricts nothing,
/// that is none.
pub fn enforce_retention(
    db: &mut Database,
    mission_id: &str,
    procedure: &Procedure,
    now: Timestamp,
) -> (pruned: usize)
    ensures
        final(db)@ == retained(old(db)@, mission_id@, rule_of(procedure@), now),
        pruned == count_of(
            old(db)@.backups,
            is_doomed(history_of(old(db)@, mission_id@), rule_of(procedure@), now, mission_id@),
        ),
        procedure@.restrict == RestrictPolicy::Unrestricted ==> pruned == 0 && final(db)@ == old(
            db,
        )@,
{
    let rule = RetentionRule::of(procedure);
    let key = String::from_str(mission_id);
    let loaded = match query_backup_record(db, None, Some(mission_id)) {
        Ok(rows) => rows,
        Err(_) => Vec::new(),
    };
    let history = order_newest_first(&loaded);
    let flags = select_pruned(&history, &rule, now);
    let ghost pre = db@;
    let ghost ordered = backup_views(history@);
    let ghost p = is_doomed(ordered, rule, now, mission_id@);
    let ghost f = backup_deleted_at(now);
    let mut count: usize = 0;
    let mut i: usize = 0;
    while i < db.backups.len()
        invariant
            i <= db.backups.len(),
            db@.backups.len() == pre.backups.len(),
            db@ == (DatabaseView { backups: db@.backups, ..pre }),
            key@ == mission_id@,
            ordered == backup_views(history@),
            flags@ == pruned_flags(ordered, rule, now),
            p == is_doomed(ordered, rule, now, mission_id@),
            f == backup_deleted_at(now),
            count == count_of(pre.backups.take(i as int), p),
            count <= i,
            forall|j: int| 0 <= j < i ==> db@.backups[j] == rewritten(pre.backups, p, f)[j],
            forall|j: int| i <= j < pre.backups.len() ==> db@.backups[j] == pre.backups[j],
        decreases db.backups.len() - i,
    {
        let ghost before = db@.backups;
        proof {
            lemma_count_of_next(pre.backups, p, i as int);
        }
        let doomed = !db.backups[i].is_deleted && db.backups[i].mission_id == key && is_flagged(
            &history,
            &flags,
            &db.backups[i].backup_id,
        );
        proof {
            let id = pre.backups[i as int].backup_id;
            if exists|k: int|
                0 <= k < history.len() && flags[k] && (#[trigger] ordered[k]).backup_id == id {
                assert(is_marked(ordered, rule, now, id));
            }
        }
        if doomed {
            let mut row = db.backups[i].clone();
            row.is_deleted = true;
            row.delete_at = now;
            db.backups.set(i, row);
            count = count + 1;
        }
        assert forall|j: int| 0 <= j < i + 1 implies db@.backups[j] == rewritten(
            pre.backups,
            p,
            f,
        )[j] by {
            if j < i {
                assert(db@.backups[j] == before[j]);
            }
        }
        i = i + 1;
    }
    proof {
        assert(db@.backups =~= rewritten(pre.backups, p, f));
        assert(pre.backups.take(i as int) =~= pre.backups);
        if procedure@.restrict == RestrictPolicy::Unrestricted {
            assert forall|j: int| 0 <= j < pre.backups.len() implies !p(
                #[trigger] pre.backups[j],
            ) by {}
            lemma_count_of_none(pre.backups, p);
            assert(db@.backups =~= pre.backups);
        }
    }
    count
}

} // verus!
