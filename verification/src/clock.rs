//! Wall-clock reading for timestamping jobs, shares and samples.

use vstd::prelude::*;

verus! {

/// Relies on `chrono::Utc::now` / `DateTime::timestamp_millis`: the current
/// wall-clock time in milliseconds since the Unix epoch. The value depends on
/// the environment, so nothing is promised of it.
#[verifier::external_body]
pub fn now_millis() -> i64 {
    chrono::Utc::now().timestamp_millis()
}

} // verus!
