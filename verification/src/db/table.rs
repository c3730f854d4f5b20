//! What the contracts of the tables are written in: the rows a predicate
//! picks, the first of them, and a table with the picked rows rewritten.

use vstd::prelude::*;
use crate::db::DbError;

verus! {

/// `i` is the place of the first row of `rows` that satisfies `p`.
pub open spec fn first_at<T>(rows: Seq<T>, p: spec_fn(T) -> bool, i: int) -> bool {
    &&& 0 <= i < rows.len()
    &&& p(rows[i])
    &&& forall|j: int| 0 <= j < i ==> !p(#[trigger] rows[j])
}

/// No row of `rows` satisfies `p`.
pub open spec fn none_of<T>(rows: Seq<T>, p: spec_fn(T) -> bool) -> bool {
    forall|j: int| 0 <= j < rows.len() ==> !p(#[trigger] rows[j])
}

/// `first` is what an update of the rows picked by `p` hands back: the
/// first picked row as it stands in `post`, the table after the update, or
/// nothing where `pre`, the table before it, has no picked row.
pub open spec fn first_is<T>(pre: Seq<T>, post: Seq<T>, p: spec_fn(T) -> bool, first: Option<T>) -> bool {
    match first {
        Some(row) => exists|i: int| first_at(pre, p, i) && row == post[i],
        None => none_of(pre, p),
    }
}

/// `rows` with `f` applied to each row that satisfies `p`; the other rows,
/// and the order of all of them, are kept.
pub open spec fn rewritten<T>(rows: Seq<T>, p: spec_fn(T) -> bool, f: spec_fn(T) -> T) -> Seq<T> {
    Seq::new(
        rows.len(),
        |i: int|
            if p(rows[i]) {
                f(rows[i])
            } else {
                rows[i]
            },
    )
}

/// How many rows of `rows` satisfy `p`.
pub open spec fn count_of<T>(rows: Seq<T>, p: spec_fn(T) -> bool) -> nat {
    rows.filter(p).len()
}

/// `r` reports the count `n`.
pub open spec fn is_count(r: Result<usize, DbError>, n: nat) -> bool {
    r matches Ok(k) && k == n
}

/// The text behind an optional key.
pub open spec fn key_text(key: Option<&str>) -> Option<Seq<char>> {
    match key {
        Some(s) => Some(s@),
        None => None,
    }
}

/// The ordinal that a row gets when it is added to a table of `count`
/// rows: one more than the count, and `i32::MAX` where that does not fit.
pub open spec fn next_ordinal(count: nat) -> int {
    if count < i32::MAX {
        count as int + 1
    } else {
        i32::MAX as int
    }
}

/// Computes [`next_ordinal`].
pub fn ordinal_after(count: usize) -> (n: i32)
    ensures
        n == next_ordinal(count as nat),
{
    if count < 0x7fff_ffff {
        (count + 1) as i32
    } else {
        i32::MAX
    }
}

/// Taking the next row into account: the count of picked rows among the
/// first `i + 1` rows.
pub proof fn lemma_count_of_next<T>(rows: Seq<T>, p: spec_fn(T) -> bool, i: int)
    requires
        0 <= i < rows.len(),
    ensures
        count_of(rows.take(i + 1), p) == count_of(rows.take(i), p) + if p(rows[i]) {
            1int
        } else {
            0int
        },
        rows.take(i + 1).filter(p) == if p(rows[i]) {
            rows.take(i).filter(p).push(rows[i])
        } else {
            rows.take(i).filter(p)
        },
{
    assert(rows.take(i + 1) =~= rows.take(i).push(rows[i]));
    rows.take(i).lemma_filter_push(rows[i], p);
}

/// The table after compaction: the rows of `rows` that `live` keeps, in
/// their order, each put in its new place by `place` (places count from 0).
pub open spec fn compacted<T>(
    rows: Seq<T>,
    live: spec_fn(T) -> bool,
    place: spec_fn(T, int) -> T,
) -> Seq<T> {
    let kept = rows.filter(live);
    Seq::new(kept.len(), |i: int| place(kept[i], i))
}

/// Compaction row by row: a row that is not live adds nothing, and a live
/// row is put behind the rows kept so far.
pub proof fn lemma_compacted_next<T>(
    rows: Seq<T>,
    live: spec_fn(T) -> bool,
    place: spec_fn(T, int) -> T,
    i: int,
)
    requires
        0 <= i < rows.len(),
    ensures
        compacted(rows.take(i + 1), live, place) == if live(rows[i]) {
            compacted(rows.take(i), live, place).push(
                place(rows[i], compacted(rows.take(i), live, place).len() as int),
            )
        } else {
            compacted(rows.take(i), live, place)
        },
        compacted(rows.take(i), live, place).len() <= i,
{
    lemma_count_of_next(rows, live, i);
    rows.take(i).lemma_filter_len(live);
}

/// Compaction of no rows leaves no rows.
pub proof fn lemma_compacted_empty<T>(
    rows: Seq<T>,
    live: spec_fn(T) -> bool,
    place: spec_fn(T, int) -> T,
)
    ensures
        compacted(rows.take(0), live, place) == Seq::<T>::empty(),
        count_of(rows.take(0), live) == 0,
{
    assert(rows.take(0).filter(live).len() == 0) by {
        rows.take(0).lemma_filter_len(live);
    }
}

/// Some row of `rows` that `live` keeps is `alike` to `x`.
pub open spec fn has_alike_source<T>(
    rows: Seq<T>,
    live: spec_fn(T) -> bool,
    alike: spec_fn(T, T) -> bool,
    x: T,
) -> bool {
    exists|j: int| 0 <= j < rows.len() && live(#[trigger] rows[j]) && alike(rows[j], x)
}

/// `x` is `alike` to some row of `rows`.
pub open spec fn has_alike_image<T>(rows: Seq<T>, alike: spec_fn(T, T) -> bool, x: T) -> bool {
    exists|i: int| 0 <= i < rows.len() && alike(x, #[trigger] rows[i])
}

/// What compaction keeps. The compacted table has one row for each live
/// row of `rows`, in the same order: the live row put in its place. Where
/// putting a row in a place leaves it `alike`, every row of the compacted
/// table is like a live row of `rows`, and every live row of `rows` is like
/// a row of the compacted table.
pub proof fn lemma_compacted_rows<T>(
    rows: Seq<T>,
    live: spec_fn(T) -> bool,
    place: spec_fn(T, int) -> T,
    alike: spec_fn(T, T) -> bool,
)
    requires
        forall|r: T, i: int| #[trigger] alike(r, place(r, i)),
    ensures
        compacted(rows, live, place).len() == count_of(rows, live),
        compacted(rows, live, place).len() <= rows.len(),
        forall|i: int|
            0 <= i < compacted(rows, live, place).len() ==> #[trigger] compacted(
                rows,
                live,
                place,
            )[i] == place(rows.filter(live)[i], i),
        forall|i: int|
            0 <= i < compacted(rows, live, place).len() ==> has_alike_source(
                rows,
                live,
                alike,
                #[trigger] compacted(rows, live, place)[i],
            ),
        forall|j: int|
            0 <= j < rows.len() && live(#[trigger] rows[j]) ==> has_alike_image(
                compacted(rows, live, place),
                alike,
                rows[j],
            ),
{
    let c = compacted(rows, live, place);
    let kept = rows.filter(live);
    rows.lemma_filter_len(live);
    assert forall|i: int| 0 <= i < c.len() implies has_alike_source(
        rows,
        live,
        alike,
        #[trigger] c[i],
    ) by {
        rows.lemma_filter_pred(live, i);
        rows.lemma_filter_contains_rev(live, kept[i]);
        let j = choose|j: int| 0 <= j < rows.len() && rows[j] == kept[i];
    }
    assert forall|j: int| 0 <= j < rows.len() && live(#[trigger] rows[j]) implies has_alike_image(
        c,
        alike,
        rows[j],
    ) by {
        rows.lemma_filter_contains(live, j);
        let i = choose|i: int| 0 <= i < kept.len() && kept[i] == rows[j];
        assert(c[i] == place(kept[i], i));
    }
}

/// Where no row is picked, the count is 0 and the picked rows are none.
pub proof fn lemma_count_of_none<T>(rows: Seq<T>, p: spec_fn(T) -> bool)
    requires
        forall|j: int| 0 <= j < rows.len() ==> !p(#[trigger] rows[j]),
    ensures
        count_of(rows, p) == 0,
        rows.filter(p) == Seq::<T>::empty(),
    decreases rows.len(),
{
    if rows.len() == 0 {
        rows.lemma_filter_len(p);
    } else {
        let front = rows.drop_last();
        assert forall|j: int| 0 <= j < front.len() implies !p(#[trigger] front[j]) by {
        }
        lemma_count_of_none(front, p);
        assert(rows =~= front.push(rows.last()));
        front.lemma_filter_push(rows.last(), p);
    }
}

/// Where no row is picked, rewriting leaves the table as it is.
pub proof fn lemma_rewritten_none<T>(rows: Seq<T>, p: spec_fn(T) -> bool, f: spec_fn(T) -> T)
    requires
        none_of(rows, p),
    ensures
        rewritten(rows, p, f) == rows,
{
    assert(rewritten(rows, p, f) =~= rows);
}

} // verus!
