//! Wildcard patterns: `*` stands for any run of characters, the empty one
//! included, `?` for any one character, and every other character for
//! itself.

use vstd::prelude::*;
use vstd::string::StrSliceExecFns;

verus! {

/// The pattern `p` from the place `i` on matches the text `t` from the
/// place `j` on.
pub open spec fn glob_from(p: Seq<char>, t: Seq<char>, i: int, j: int) -> bool
    decreases p.len() - i, t.len() - j,
{
    if i >= p.len() {
        j >= t.len()
    } else if p[i] == '*' {
        glob_from(p, t, i + 1, j) || (j < t.len() && glob_from(p, t, i, j + 1))
    } else {
        j < t.len() && (p[i] == '?' || p[i] == t[j]) && glob_from(p, t, i + 1, j + 1)
    }
}

/// The pattern `p` matches the whole of the text `t`.
pub open spec fn glob_matches(p: Seq<char>, t: Seq<char>) -> bool {
    glob_from(p, t, 0, 0)
}

/// The pattern holds a wildcard.
pub open spec fn has_wildcard(p: Seq<char>) -> bool {
    exists|i: int| 0 <= i < p.len() && (#[trigger] p[i] == '*' || p[i] == '?')
}

/// The text `t` holds `k` from the place `i` on.
pub open spec fn occurs_at(t: Seq<char>, k: Seq<char>, i: int) -> bool {
    0 <= i && i + k.len() <= t.len() && t.subrange(i, i + k.len()) == k
}

/// The text `t` holds `k` somewhere.
pub open spec fn contains_text(t: Seq<char>, k: Seq<char>) -> bool {
    exists|i: int| occurs_at(t, k, i)
}

/// The characters of `s`, one by one.
pub fn chars_of(s: &str) -> (v: Vec<char>)
    ensures
        v@ == s@,
{
    let n = s.unicode_len();
    let mut v: Vec<char> = Vec::new();
    let mut i: usize = 0;
    while i < n
        invariant
            i <= n,
            n == s@.len(),
            v@ == s@.take(i as int),
        decreases n - i,
    {
        v.push(s.get_char(i));
        i = i + 1;
    }
    v
}

/// Whether the pattern holds a wildcard.
pub fn holds_wildcard(p: &Vec<char>) -> (r: bool)
    ensures
        r == has_wildcard(p@),
{
    let mut i: usize = 0;
    while i < p.len()
        invariant
            i <= p.len(),
            forall|k: int| 0 <= k < i ==> !(#[trigger] p[k] == '*' || p[k] == '?'),
        decreases p.len() - i,
    {
        if p[i] == '*' || p[i] == '?' {
            return true;
        }
        i = i + 1;
    }
    false
}

/// Whether the pattern `p` matches the part `from..to` of the text `t`.
pub(crate) fn matches_part(p: &Vec<char>, t: &Vec<char>, from: usize, to: usize) -> (r: bool)
    requires
        from <= to <= t.len(),
    ensures
        r == glob_matches(p@, t@.subrange(from as int, to as int)),
{
    let ghost text = t@.subrange(from as int, to as int);
    let n: usize = to - from;
    let m: usize = p.len();
    // `below[j]` says whether the pattern from `i + 1` on matches the text
    // from `j` on; it starts with the empty pattern, `i + 1 == m`.
    let mut below: Vec<bool> = Vec::new();
    let mut j: usize = 0;
    while j < n
        invariant
            j <= n,
            n == text.len(),
            m == p.len(),
            below.len() == j,
            forall|k: int| 0 <= k < j ==> below[k] == glob_from(p@, text, m as int, k),
        decreases n - j,
    {
        below.push(false);
        j = j + 1;
    }
    below.push(true);
    let mut i: usize = m;
    while i > 0
        invariant
            i <= m,
            m == p.len(),
            n == text.len(),
            text == t@.subrange(from as int, to as int),
            from + n == to,
            to <= t.len(),
            below.len() == n + 1,
            forall|k: int| 0 <= k <= n ==> below[k] == glob_from(p@, text, i as int, k),
        decreases i,
    {
        i = i - 1;
        let c: char = p[i];
        let mut row: Vec<bool> = Vec::new();
        let mut k: usize = 0;
        while k < n
            invariant
                k <= n,
                below.len() == n + 1,
                row.len() == k,
            decreases n - k,
        {
            row.push(false);
            k = k + 1;
        }
        row.push(c == '*' && below[n]);
        let mut j: usize = n;
        while j > 0
            invariant
                j <= n,
                i < m,
                m == p.len(),
                c == p[i as int],
                n == text.len(),
                text == t@.subrange(from as int, to as int),
                from + n == to,
                to <= t.len(),
                below.len() == n + 1,
                row.len() == n + 1,
                forall|k: int| 0 <= k <= n ==> below[k] == glob_from(p@, text, i + 1, k),
                forall|k: int| j <= k <= n ==> row[k] == glob_from(p@, text, i as int, k),
            decreases j,
        {
            j = j - 1;
            let here: bool = if c == '*' {
                below[j] || row[j + 1]
            } else {
                (c == '?' || c == t[from + j]) && below[j + 1]
            };
            row.set(j, here);
        }
        below = row;
    }
    below[0]
}

/// Whether the pattern `p` matches the whole of the text `t`.
pub fn matches_whole(p: &Vec<char>, t: &Vec<char>) -> (r: bool)
    ensures
        r == glob_matches(p@, t@),
{
    assert(t@.subrange(0, t@.len() as int) =~= t@);
    matches_part(p, t, 0, t.len())
}

/// Whether the text `t` holds `k` somewhere.
pub fn contains(t: &Vec<char>, k: &Vec<char>) -> (r: bool)
    ensures
        r == contains_text(t@, k@),
{
    if k.len() > t.len() {
        return false;
    }
    let last: usize = t.len() - k.len();
    let mut i: usize = 0;
    while i <= last
        invariant
            i <= last + 1,
            last == t.len() - k.len(),
            forall|x: int| 0 <= x < i ==> !occurs_at(t@, k@, x),
        decreases last + 1 - i,
    {
        let mut j: usize = 0;
        while j < k.len() && t[i + j] == k[j]
            invariant
                j <= k.len(),
                i <= last,
                last == t.len() - k.len(),
                forall|y: int| 0 <= y < j ==> t[i + y] == k[y],
            decreases k.len() - j,
        {
            j = j + 1;
        }
        if j == k.len() {
            assert(t@.subrange(i as int, i + k.len()) =~= k@);
            assert(occurs_at(t@, k@, i as int));
            return true;
        }
        assert(!occurs_at(t@, k@, i as int));
        i = i + 1;
    }
    false
}

} // verus!
