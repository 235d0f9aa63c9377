//! Reading the wall clock, and the ages of files derived from it.
use vstd::prelude::*;
use std::time::SystemTime;

verus! {

#[verifier::external_type_specification]
#[verifier::external_body]
pub struct ExSystemTime(SystemTime);

/// Wraps `SystemTime::now`. The result depends on the moment of the call, so nothing is
/// claimed of it.
#[verifier::external_body]
pub(crate) fn system_now() -> SystemTime {
    SystemTime::now()
}

/// Wraps `SystemTime::duration_since`: the elapsed whole seconds and the nanoseconds past
/// them, or `None` when `earlier` lies after `later` (the error case). The documentation
/// keeps the nanoseconds below one second; that is all that is claimed.
#[verifier::external_body]
pub(crate) fn duration_since(later: SystemTime, earlier: SystemTime) -> (r: Option<(u64, u32)>)
    ensures
        r matches Some((_, nanos)) ==> nanos < 1_000_000_000,
{
    match later.duration_since(earlier) {
        Ok(d) => Some((d.as_secs(), d.subsec_nanos())),
        Err(_) => None,
    }
}

/// Wraps `SystemTime::duration_since(UNIX_EPOCH)` in whole seconds, with `0` for a clock
/// set before the epoch (the error case). Nothing more is claimed.
#[verifier::external_body]
pub(crate) fn unix_seconds(t: SystemTime) -> u64 {
    match t.duration_since(std::time::UNIX_EPOCH) {
        Ok(d) => d.as_secs(),
        Err(_) => 0,
    }
}

/// The current Unix time in whole seconds, or `0` when the clock reads before the epoch.
pub fn now_unix_seconds() -> u64 {
    let now = system_now();
    unix_seconds(now)
}

} // verus!
