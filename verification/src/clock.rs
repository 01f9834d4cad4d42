//! The wall clock.
use vstd::prelude::*;

verus! {

/// The current time in UTC as text, in the format of RFC 3339.
///
/// This calls `chrono::Utc::now` and formats what it returns with
/// `chrono::DateTime::to_rfc3339`. The result is whatever the system clock
/// says, so nothing is claimed of it. Chrono refuses to go on where the
/// system clock stands before the year 1970.
#[verifier::external_body]
pub(crate) fn now_rfc3339() -> String {
    chrono::Utc::now().to_rfc3339()
}

} // verus!
