use vstd::prelude::*;

verus! {

#[verifier::external_type_specification]
#[verifier::external_body]
pub struct ExInstant(std::time::Instant);

/// Calls `std::time::Instant::now`; nothing is known of the instant it returns.
#[verifier::external_body]
pub(crate) fn clock_now() -> std::time::Instant {
    std::time::Instant::now()
}

/// Calls `std::time::Instant::elapsed`; the duration depends on the clock.
#[verifier::external_body]
pub(crate) fn clock_elapsed(start: &std::time::Instant) -> std::time::Duration {
    start.elapsed()
}

/// Calls `std::time::Duration::as_millis`; the value depends on the clock.
#[verifier::external_body]
pub(crate) fn duration_millis(duration: &std::time::Duration) -> u128 {
    duration.as_millis()
}

/// Calls `std::time::Duration::as_nanos`; the value depends on the clock.
#[verifier::external_body]
pub(crate) fn duration_nanos(duration: &std::time::Duration) -> u128 {
    duration.as_nanos()
}

} // verus!
