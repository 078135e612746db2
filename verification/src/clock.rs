//! The wall clock, behind a trusted wrapper.

use vstd::prelude::*;

verus! {

/// Relies on chrono's `Utc::now` and `DateTime::timestamp_micros`: the
/// current wall-clock instant, as microseconds since the Unix epoch.
/// Nothing is assumed of the value returned; trade records carry it
/// verbatim and no verified logic depends on it.
#[verifier::external_body]
pub(crate) fn now_micros() -> i64 {
    chrono::Utc::now().timestamp_micros()
}

} // verus!
