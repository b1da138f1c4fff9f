//! The one place the wall clock is read.
use vstd::prelude::*;

verus! {

/// Relies on chrono's `Utc::now`: the current UTC time as a unix timestamp
/// in whole seconds. Nothing is assumed of the clock's value; callers state
/// what holds whatever it returns.
#[verifier::external_body]
pub(crate) fn now_utc() -> i64 {
    chrono::Utc::now().timestamp()
}

} // verus!
