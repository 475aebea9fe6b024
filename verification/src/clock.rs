//! The one clock read the listing operations need.

use vstd::prelude::*;

verus! {

/// Relies on `chrono::Utc::now` (and `DateTime::timestamp_micros`): the
/// current UTC instant as microseconds since the Unix epoch. Nothing is
/// promised of the value; callers state what holds whatever instant comes
/// back.
#[verifier::external_body]
pub(crate) fn now_utc_micros() -> i64 {
    chrono::Utc::now().timestamp_micros()
}

} // verus!
