//! Instants on the UTC time line.

use vstd::prelude::*;

verus! {

/// Seconds in one day.
pub const SECONDS_PER_DAY: i64 = 86_400;

/// An instant on the UTC time line: whole seconds since
/// 1970-01-01T00:00:00Z and the nanoseconds past that second.
///
/// Instants are ordered by `secs` first and by `nanos` second.
#[derive(Clone, Copy, Debug, PartialEq, Eq, Structural)]
pub struct Timestamp {
    pub secs: i64,
    pub nanos: u32,
}

impl Timestamp {
    /// `self` lies strictly before `other`.
    pub open spec fn before(self, other: Timestamp) -> bool {
        self.secs < other.secs || (self.secs == other.secs && self.nanos < other.nanos)
    }

    /// The instant `seconds` later, pinned to the ends of the `i64` range.
    pub open spec fn shifted(self, seconds: int) -> Timestamp {
        let s = self.secs + seconds;
        Timestamp {
            secs: if s > i64::MAX {
                i64::MAX
            } else if s < i64::MIN {
                i64::MIN
            } else {
                s as i64
            },
            nanos: self.nanos,
        }
    }

    /// The start of the second `secs`.
    pub fn from_secs(secs: i64) -> (t: Timestamp)
        ensures
            t.secs == secs,
            t.nanos == 0,
    {
        Timestamp { secs, nanos: 0 }
    }

    /// Whether `self` lies strictly before `other`.
    pub fn is_before(&self, other: &Timestamp) -> (r: bool)
        ensures
            r == self.before(*other),
    {
        self.secs < other.secs || (self.secs == other.secs && self.nanos < other.nanos)
    }

    /// The instant `seconds` later (earlier when negative). Where the sum
    /// leaves the `i64` range the result stays at the end of the range.
    pub fn plus_seconds(&self, seconds: i64) -> (t: Timestamp)
        ensures
            t == self.shifted(seconds as int),
    {
        let secs: i64 = match self.secs.checked_add(seconds) {
            Some(s) => s,
            None => if seconds > 0 {
                i64::MAX
            } else {
                i64::MIN
            },
        };
        Timestamp { secs, nanos: self.nanos }
    }
}

/// The order of instants is strict: nothing lies before itself, and of two
/// different instants exactly one lies before the other.
pub proof fn lemma_before_is_strict_total(a: Timestamp, b: Timestamp)
    ensures
        !a.before(a),
        a != b ==> (a.before(b) != b.before(a)),
        a.before(b) ==> !b.before(a),
{
}

/// The order of instants is transitive.
pub proof fn lemma_before_is_transitive(a: Timestamp, b: Timestamp, c: Timestamp)
    requires
        a.before(b),
        b.before(c),
    ensures
        a.before(c),
{
}

/// Reads the system clock through `chrono::Utc::now` and keeps the seconds
/// since the epoch (`DateTime::timestamp`) and the nanoseconds past that
/// second (`DateTime::timestamp_subsec_nanos`). Nothing is claimed of the
/// instant that comes back.
#[verifier::external_body]
pub(crate) fn clock_now() -> (t: Timestamp) {
    let now = chrono::Utc::now();
    Timestamp { secs: now.timestamp(), nanos: now.timestamp_subsec_nanos() }
}

} // verus!
