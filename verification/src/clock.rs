//! The wall clock.

use vstd::prelude::*;

verus! {

/// The current time in whole seconds since the Unix epoch, as
/// `chrono::Utc::now().timestamp()` gives it. Nothing is claimed of the
/// value: it is whatever the system clock says. chrono stops the program
/// where that clock stands before 1970.
#[verifier::external_body]
pub(crate) fn unix_now() -> (now: i64) {
    chrono::Utc::now().timestamp()
}

} // verus!
