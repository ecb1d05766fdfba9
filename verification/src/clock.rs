//! Reading the wall clock.

use vstd::prelude::*;

verus! {

/// Lets `std::time::SystemTime` stand in signatures; its contents stay opaque.
#[verifier::external_type_specification]
#[verifier::external_body]
pub struct ExSystemTime(std::time::SystemTime);

/// Calls `std::time::SystemTime::now`.  Nothing is claimed of the instant that
/// comes back: it depends on the machine's clock.
#[verifier::external_body]
pub(crate) fn system_time_now() -> std::time::SystemTime {
    std::time::SystemTime::now()
}

/// Calls `SystemTime::duration_since(UNIX_EPOCH)` on `t`; the error case (an
/// instant before the epoch) becomes `None`.  Nothing is claimed of the
/// duration: it depends on the instant, which is opaque.
#[verifier::external_body]
pub(crate) fn since_unix_epoch(t: &std::time::SystemTime) -> Option<core::time::Duration> {
    t.duration_since(std::time::UNIX_EPOCH).ok()
}

/// Calls `core::time::Duration::as_millis`.  Nothing is claimed of the number:
/// a `Duration` is opaque here.
#[verifier::external_body]
pub(crate) fn duration_millis(d: &core::time::Duration) -> u128 {
    d.as_millis()
}

} // verus!
