//! Identities of rows: textual UUIDs.

use vstd::prelude::*;

verus! {

/// `c` is a decimal digit or one of the letters `a` to `f`.
pub open spec fn is_lower_hex(c: char) -> bool {
    ('0' <= c && c <= '9') || ('a' <= c && c <= 'f')
}

/// `i` is one of the four places at which a hyphenated UUID has its `-`.
pub open spec fn is_hyphen_place(i: int) -> bool {
    i == 8 || i == 13 || i == 18 || i == 23
}

/// `s` has the hyphenated lower-case shape of a UUID:
/// `xxxxxxxx-xxxx-xxxx-xxxx-xxxxxxxxxxxx`.
pub open spec fn is_uuid_text(s: Seq<char>) -> bool {
    &&& s.len() == 36
    &&& forall|i: int|
        0 <= i < 36 ==> if is_hyphen_place(i) {
            #[trigger] s[i] == '-'
        } else {
            is_lower_hex(s[i])
        }
}

/// Draws a random (version 4) UUID with `uuid::Uuid::new_v4` and renders it
/// with its `Display` impl, which writes the hyphenated lower-case form.
/// Only that shape is claimed; which identity comes back is left open, and
/// so is whether it differs from any drawn before.
#[verifier::external_body]
pub(crate) fn random_uuid() -> (s: String)
    ensures
        is_uuid_text(s@),
{
    uuid::Uuid::new_v4().to_string()
}

/// A fresh random identity in its textual form.
pub fn new_id() -> (s: String)
    ensures
        is_uuid_text(s@),
{
    random_uuid()
}

} // verus!
