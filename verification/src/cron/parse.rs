//! Reading a cron expression.
//!
//! An expression is seven fields, separated by blanks (spaces or tabs):
//! second, minute, hour, day of month, month, day of week, year. A field is
//! a list of items separated by commas. An item is `*` or `?` (every
//! reading of the field), a number `a`, or a range `a-b`; it can be
//! followed by `/n` to take every `n`th reading, counted from the start of
//! the range. A number followed by `/n` starts there and runs to the end of
//! the field.

use vstd::prelude::*;
use vstd::string::StringSliceAdditionalSpecFns;
use crate::cron::{CronSchedule, ScheduleView};

verus! {

/// The expression is not a cron schedule of seven fields.
#[derive(Clone, Copy, Debug, PartialEq, Eq, Structural)]
pub struct InvalidCronExpression;

/// A blank: a space or a tab.
pub open spec fn is_blank(b: u8) -> bool {
    b == 32 || b == 9
}

/// A decimal digit.
pub open spec fn is_digit(b: u8) -> bool {
    48 <= b <= 57
}

/// The first place from `i` on that holds no blank; the length of `s`
/// where there is none.
pub open spec fn skip_blanks(s: Seq<u8>, i: int) -> int
    decreases s.len() - i,
{
    if 0 <= i < s.len() && is_blank(s[i]) {
        skip_blanks(s, i + 1)
    } else {
        i
    }
}

/// The first place from `i` on that holds a blank; the length of `s`
/// where there is none.
pub open spec fn word_end(s: Seq<u8>, i: int) -> int
    decreases s.len() - i,
{
    if 0 <= i < s.len() && !is_blank(s[i]) {
        word_end(s, i + 1)
    } else {
        i
    }
}

/// The words of `s` from `i` on: for each its first place and the place
/// behind its last.
pub open spec fn words_from(s: Seq<u8>, i: int) -> Seq<(int, int)>
    decreases s.len() - i,
{
    let a = skip_blanks(s, i);
    let b = word_end(s, a);
    if 0 <= i <= a < b <= s.len() {
        seq![(a, b)] + words_from(s, b)
    } else {
        Seq::empty()
    }
}

/// The first place in `i..e` that holds `sep`; `e` where there is none.
pub open spec fn find(s: Seq<u8>, i: int, e: int, sep: u8) -> int
    decreases e - i,
{
    if 0 <= i < e <= s.len() && s[i] != sep {
        find(s, i + 1, e, sep)
    } else {
        i
    }
}

/// The number that the digits in `i..e` spell, read from the left.
pub open spec fn value_of(s: Seq<u8>, i: int, e: int) -> int
    decreases e - i,
{
    if e <= i {
        0
    } else {
        value_of(s, i, e - 1) * 10 + (s[e - 1] - 48)
    }
}

/// `i..e` holds digits only.
pub open spec fn all_digits(s: Seq<u8>, i: int, e: int) -> bool {
    forall|k: int| i <= k < e ==> is_digit(#[trigger] s[k])
}

/// The number in `i..e`: one digit or more, spelling at most 9999.
pub open spec fn number_at(s: Seq<u8>, i: int, e: int) -> Option<int> {
    if 0 <= i < e <= s.len() && all_digits(s, i, e) && value_of(s, i, e) <= 9999 {
        Some(value_of(s, i, e))
    } else {
        None
    }
}

/// The readings from `first` to `last`, every `step`th of them.
pub struct Span {
    pub first: int,
    pub last: int,
    pub step: int,
}

/// The span takes the reading `v` in.
pub open spec fn span_allows(span: Span, v: int) -> bool {
    span.first <= v <= span.last && span.step > 0 && (v - span.first) % span.step == 0
}

/// The range that the text in `i..e` names in a field that runs from `lo`
/// to `hi`. `open_end` says that a step follows, so that a single number
/// starts a range that runs to `hi`.
pub open spec fn range_at(s: Seq<u8>, i: int, e: int, lo: int, hi: int, open_end: bool) -> Option<
    (int, int),
> {
    if e == i + 1 && 0 <= i < s.len() && (s[i] == 42 || s[i] == 63) {
        Some((lo, hi))
    } else {
        let dash = find(s, i, e, 45);
        if dash == e {
            match number_at(s, i, e) {
                Some(a) => Some(
                    (
                        a,
                        if open_end {
                            hi
                        } else {
                            a
                        },
                    ),
                ),
                None => None,
            }
        } else {
            match (number_at(s, i, dash), number_at(s, dash + 1, e)) {
                (Some(a), Some(b)) => Some((a, b)),
                _ => None,
            }
        }
    }
}

/// The span that the item in `i..e` names in a field that runs from `lo`
/// to `hi`; nothing where the item is malformed, leaves the field, runs
/// backwards or has a step of 0.
pub open spec fn item_at(s: Seq<u8>, i: int, e: int, lo: int, hi: int) -> Option<Span> {
    let slash = find(s, i, e, 47);
    let step = if slash == e {
        Some(1int)
    } else {
        number_at(s, slash + 1, e)
    };
    match (range_at(s, i, slash, lo, hi, slash != e), step) {
        (Some((a, b)), Some(n)) => if lo <= a <= b <= hi && n >= 1 {
            Some(Span { first: a, last: b, step: n })
        } else {
            None
        },
        _ => None,
    }
}

/// Every item of the field in `i..e` names a span.
pub open spec fn field_ok(s: Seq<u8>, i: int, e: int, lo: int, hi: int) -> bool
    decreases e - i,
{
    let c = find(s, i, e, 44);
    item_at(s, i, c, lo, hi) is Some && (c >= e || (c >= i && field_ok(s, c + 1, e, lo, hi)))
}

/// Some item of the field in `i..e` takes the reading `v` in.
pub open spec fn field_allows(s: Seq<u8>, i: int, e: int, lo: int, hi: int, v: int) -> bool
    decreases e - i,
{
    let c = find(s, i, e, 44);
    (item_at(s, i, c, lo, hi) matches Some(span) && span_allows(span, v)) || (i <= c < e
        && field_allows(s, c + 1, e, lo, hi, v))
}

/// The readings that the field in `i..e` allows, as a schedule holds
/// them: the reading `v` at the place `v - base`.
pub open spec fn field_marks(s: Seq<u8>, i: int, e: int, lo: int, hi: int, base: int) -> Seq<
    bool,
> {
    Seq::new((hi - base + 1) as nat, |k: int| field_allows(s, i, e, lo, hi, k + base))
}

/// The schedule that the expression `s` spells; nothing where `s` does not
/// have seven well-formed fields.
pub open spec fn parsed(s: Seq<u8>) -> Option<ScheduleView> {
    let w = words_from(s, 0);
    if w.len() == 7 && field_ok(s, w[0].0, w[0].1, 0, 59) && field_ok(s, w[1].0, w[1].1, 0, 59)
        && field_ok(s, w[2].0, w[2].1, 0, 23) && field_ok(s, w[3].0, w[3].1, 1, 31) && field_ok(
        s,
        w[4].0,
        w[4].1,
        1,
        12,
    ) && field_ok(s, w[5].0, w[5].1, 1, 7) && field_ok(s, w[6].0, w[6].1, 1970, 2099) {
        Some(
            ScheduleView {
                seconds: field_marks(s, w[0].0, w[0].1, 0, 59, 0),
                minutes: field_marks(s, w[1].0, w[1].1, 0, 59, 0),
                hours: field_marks(s, w[2].0, w[2].1, 0, 23, 0),
                days_of_month: field_marks(s, w[3].0, w[3].1, 1, 31, 0),
                months: field_marks(s, w[4].0, w[4].1, 1, 12, 0),
                days_of_week: field_marks(s, w[5].0, w[5].1, 1, 7, 0),
                years: field_marks(s, w[6].0, w[6].1, 1970, 2099, 1970),
            },
        )
    } else {
        None
    }
}

/// The schedule that the text `text` spells, read as the bytes of its
/// UTF-8 form.
pub open spec fn schedule_of(text: Seq<char>) -> Option<ScheduleView> {
    parsed(vstd::utf8::encode_utf8(text))
}

/// Digits spell a number that is not negative and that grows, or stays,
/// with every digit more.
pub proof fn lemma_value_grows(s: Seq<u8>, i: int, k: int, e: int)
    requires
        0 <= i <= k <= e <= s.len(),
        all_digits(s, i, e),
    ensures
        0 <= value_of(s, i, k) <= value_of(s, i, e),
    decreases e - i,
{
    if k < e {
        lemma_value_grows(s, i, k, e - 1);
    } else if i < e {
        lemma_value_grows(s, i, e - 1, e - 1);
    }
}

/// The first place in `i..e` that holds `sep`; `e` where there is none.
fn find_byte(s: &[u8], i: usize, e: usize, sep: u8) -> (r: usize)
    requires
        i <= e <= s.len(),
    ensures
        r == find(s@, i as int, e as int, sep),
        i <= r <= e,
{
    let mut k: usize = i;
    while k < e && s[k] != sep
        invariant
            i <= k <= e <= s.len(),
            find(s@, i as int, e as int, sep) == find(s@, k as int, e as int, sep),
        decreases e - k,
    {
        k = k + 1;
    }
    k
}

/// The number in `i..e`, if there is one.
fn read_number(s: &[u8], i: usize, e: usize) -> (r: Option<u32>)
    requires
        i <= e <= s.len(),
    ensures
        match r {
            Some(v) => number_at(s@, i as int, e as int) == Some(v as int),
            None => number_at(s@, i as int, e as int) is None,
        },
{
    if i >= e {
        return None;
    }
    let mut value: u32 = 0;
    let mut k: usize = i;
    while k < e
        invariant
            i <= k <= e <= s.len(),
            all_digits(s@, i as int, k as int),
            value == value_of(s@, i as int, k as int),
            value <= 9999,
        decreases e - k,
    {
        let b: u8 = s[k];
        if b < 48 || b > 57 {
            return None;
        }
        let digit: u32 = (b - 48) as u32;
        let grown: u32 = value * 10 + digit;
        if grown > 9999 {
            proof {
                if all_digits(s@, i as int, e as int) {
                    lemma_value_grows(s@, i as int, k + 1, e as int);
                }
            }
            return None;
        }
        value = grown;
        k = k + 1;
    }
    Some(value)
}

/// The span of the item in `i..e`, if it names one.
fn read_item(s: &[u8], i: usize, e: usize, lo: u32, hi: u32) -> (r: Option<(u32, u32, u32)>)
    requires
        i <= e <= s.len(),
        lo <= hi <= 9999,
    ensures
        match r {
            Some((a, b, n)) => item_at(s@, i as int, e as int, lo as int, hi as int) == Some(
                Span { first: a as int, last: b as int, step: n as int },
            ) && lo <= a <= b <= hi && n >= 1,
            None => item_at(s@, i as int, e as int, lo as int, hi as int) is None,
        },
{
    let slash = find_byte(s, i, e, 47);
    let step: u32 = if slash == e {
        1
    } else {
        match read_number(s, slash + 1, e) {
            Some(n) => n,
            None => {
                return None;
            },
        }
    };
    let (a, b): (u32, u32) = if slash > i && slash - i == 1 && (s[i] == 42 || s[i] == 63) {
        (lo, hi)
    } else {
        let dash = find_byte(s, i, slash, 45);
        if dash == slash {
            match read_number(s, i, slash) {
                Some(a) => (
                    a,
                    if slash != e {
                        hi
                    } else {
                        a
                    },
                ),
                None => {
                    return None;
                },
            }
        } else {
            let first = match read_number(s, i, dash) {
                Some(a) => a,
                None => {
                    return None;
                },
            };
            match read_number(s, dash + 1, slash) {
                Some(b) => (first, b),
                None => {
                    return None;
                },
            }
        }
    };
    if lo <= a && a <= b && b <= hi && step >= 1 {
        Some((a, b, step))
    } else {
        None
    }
}

/// The readings that the field in `i..e` allows, if each of its items
/// names a span.
fn read_field(s: &[u8], i: usize, e: usize, lo: u32, hi: u32, base: u32) -> (r: Option<Vec<bool>>)
    requires
        i <= e <= s.len(),
        base <= lo <= hi <= 9999,
    ensures
        match r {
            Some(marks) => field_ok(s@, i as int, e as int, lo as int, hi as int) && marks@
                == field_marks(s@, i as int, e as int, lo as int, hi as int, base as int),
            None => !field_ok(s@, i as int, e as int, lo as int, hi as int),
        },
{
    let width: usize = (hi - base + 1) as usize;
    let mut marks: Vec<bool> = Vec::new();
    let mut w: usize = 0;
    while w < width
        invariant
            w <= width,
            marks.len() == w,
            forall|k: int| 0 <= k < w ==> !marks[k],
        decreases width - w,
    {
        marks.push(false);
        w = w + 1;
    }
    let mut at: usize = i;
    loop
        invariant
            i <= at <= e <= s.len(),
            base <= lo <= hi <= 9999,
            width == hi - base + 1,
            marks.len() == width,
            field_ok(s@, i as int, e as int, lo as int, hi as int) == field_ok(
                s@,
                at as int,
                e as int,
                lo as int,
                hi as int,
            ),
            forall|k: int|
                0 <= k < width ==> field_allows(
                    s@,
                    i as int,
                    e as int,
                    lo as int,
                    hi as int,
                    k + base,
                ) == (#[trigger] marks[k] || field_allows(
                    s@,
                    at as int,
                    e as int,
                    lo as int,
                    hi as int,
                    k + base,
                )),
        decreases e - at,
    {
        let comma = find_byte(s, at, e, 44);
        let (a, b, n) = match read_item(s, at, comma, lo, hi) {
            Some(span) => span,
            None => {
                return None;
            },
        };
        let ghost span = Span { first: a as int, last: b as int, step: n as int };
        let ghost before = marks@;
        let mut v: u32 = a;
        while v <= b
            invariant
                lo <= a <= v <= b + 1,
                b <= hi <= 9999,
                base <= lo,
                n >= 1,
                width == hi - base + 1,
                marks.len() == width,
                span == (Span { first: a as int, last: b as int, step: n as int }),
                before.len() == width,
                forall|k: int|
                    0 <= k < width ==> #[trigger] marks[k] == (before[k] || (k + base < v
                        && span_allows(span, k + base))),
            decreases b + 1 - v,
        {
            if (v - a) % n == 0 {
                marks.set((v - base) as usize, true);
            }
            v = v + 1;
        }
        if comma >= e {
            proof {
                assert forall|k: int| 0 <= k < width implies field_allows(
                    s@,
                    i as int,
                    e as int,
                    lo as int,
                    hi as int,
                    k + base,
                ) == #[trigger] marks[k] by {}
            }
            return Some(marks);
        }
        let ghost here_at = at as int;
        at = comma + 1;
        proof {
            assert forall|k: int| 0 <= k < width implies field_allows(
                s@,
                i as int,
                e as int,
                lo as int,
                hi as int,
                k + base,
            ) == (#[trigger] marks[k] || field_allows(
                s@,
                at as int,
                e as int,
                lo as int,
                hi as int,
                k + base,
            )) by {
                let here = field_allows(s@, here_at, e as int, lo as int, hi as int, k + base);
                let rest = field_allows(s@, at as int, e as int, lo as int, hi as int, k + base);
                let whole = field_allows(s@, i as int, e as int, lo as int, hi as int, k + base);
                assert(here == (span_allows(span, k + base) || rest));
            }
        }
    }
}

/// The first place from `i` on that holds no blank.
fn skip_blank_bytes(s: &[u8], i: usize) -> (r: usize)
    requires
        i <= s.len(),
    ensures
        r == skip_blanks(s@, i as int),
        i <= r <= s.len(),
{
    let mut k: usize = i;
    while k < s.len() && (s[k] == 32 || s[k] == 9)
        invariant
            i <= k <= s.len(),
            skip_blanks(s@, i as int) == skip_blanks(s@, k as int),
        decreases s.len() - k,
    {
        k = k + 1;
    }
    k
}

/// The first place from `i` on that holds a blank.
fn word_end_byte(s: &[u8], i: usize) -> (r: usize)
    requires
        i <= s.len(),
    ensures
        r == word_end(s@, i as int),
        i <= r <= s.len(),
{
    let mut k: usize = i;
    while k < s.len() && !(s[k] == 32 || s[k] == 9)
        invariant
            i <= k <= s.len(),
            word_end(s@, i as int) == word_end(s@, k as int),
        decreases s.len() - k,
    {
        k = k + 1;
    }
    k
}

/// The bounds of a word as the contracts hold them.
pub open spec fn word_bounds() -> spec_fn((usize, usize)) -> (int, int) {
    |w: (usize, usize)| (w.0 as int, w.1 as int)
}

/// The words of `s`: for each its first place and the place behind its
/// last.
fn read_words(s: &[u8]) -> (words: Vec<(usize, usize)>)
    ensures
        words@.map_values(word_bounds()) == words_from(s@, 0),
        forall|k: int| 0 <= k < words.len() ==> (#[trigger] words[k]).0 <= words[k].1 <= s.len(),
{
    let mut words: Vec<(usize, usize)> = Vec::new();
    let mut at: usize = 0;
    loop
        invariant
            at <= s.len(),
            words@.map_values(word_bounds()) + words_from(s@, at as int) == words_from(s@, 0),
            forall|k: int|
                0 <= k < words.len() ==> (#[trigger] words[k]).0 <= words[k].1 <= s.len(),
        decreases s.len() - at,
    {
        let a = skip_blank_bytes(s, at);
        let b = word_end_byte(s, a);
        if a >= b {
            return words;
        }
        words.push((a, b));
        at = b;
    }
}

impl CronSchedule {
    /// Reads a cron expression of seven fields. The answer is the schedule
    /// that the expression spells, or `InvalidCronExpression` where it
    /// spells none.
    pub fn parse(expr: &str) -> (r: Result<CronSchedule, InvalidCronExpression>)
        ensures
            match r {
                Ok(schedule) => schedule_of(expr@) == Some(schedule@),
                Err(_) => schedule_of(expr@) is None,
            },
    {
        let s = expr.as_bytes();
        let words = read_words(s);
        if words.len() != 7 {
            return Err(InvalidCronExpression);
        }
        let seconds = match read_field(s, words[0].0, words[0].1, 0, 59, 0) {
            Some(marks) => marks,
            None => {
                return Err(InvalidCronExpression);
            },
        };
        let minutes = match read_field(s, words[1].0, words[1].1, 0, 59, 0) {
            Some(marks) => marks,
            None => {
                return Err(InvalidCronExpression);
            },
        };
        let hours = match read_field(s, words[2].0, words[2].1, 0, 23, 0) {
            Some(marks) => marks,
            None => {
                return Err(InvalidCronExpression);
            },
        };
        let days_of_month = match read_field(s, words[3].0, words[3].1, 1, 31, 0) {
            Some(marks) => marks,
            None => {
                return Err(InvalidCronExpression);
            },
        };
        let months = match read_field(s, words[4].0, words[4].1, 1, 12, 0) {
            Some(marks) => marks,
            None => {
                return Err(InvalidCronExpression);
            },
        };
        let days_of_week = match read_field(s, words[5].0, words[5].1, 1, 7, 0) {
            Some(marks) => marks,
            None => {
                return Err(InvalidCronExpression);
            },
        };
        let years = match read_field(s, words[6].0, words[6].1, 1970, 2099, 1970) {
            Some(marks) => marks,
            None => {
                return Err(InvalidCronExpression);
            },
        };
        Ok(CronSchedule { seconds, minutes, hours, days_of_month, months, days_of_week, years })
    }
}

} // verus!
