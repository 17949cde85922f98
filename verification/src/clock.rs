//! The wall clock, read through chrono.

use vstd::prelude::*;

verus! {

/// Relies on `chrono::Local::now`: a reading of the wall clock in seconds
/// since the Unix epoch.  Nothing is promised of the value; every caller
/// holds for every reading.
#[verifier::external_body]
pub fn now_ts() -> i64 {
    chrono::Local::now().timestamp()
}

} // verus!
