//! The wall clock.

use vstd::prelude::*;

verus! {

/// `SystemTime::now` of the standard library, turned into a UTC date and
/// time by chrono's `DateTime::<Utc>::from` and written out by
/// `DateTime::to_rfc3339`: the current time as an RFC 3339 string.  Nothing
/// is claimed of the text, which differs from call to call.  A clock that
/// stands before 1970 is read like any other; one that stands outside the
/// years chrono can hold is not expected.
#[verifier::external_body]
pub(crate) fn now_rfc3339() -> (stamp: String) {
    chrono::DateTime::<chrono::Utc>::from(std::time::SystemTime::now()).to_rfc3339()
}

} // verus!
