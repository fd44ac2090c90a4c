//! Readings of the machine clocks. Every value here comes from the
//! operating system, so nothing about it is promised: the verified code that
//! uses a reading takes it as an argument and is correct for every value.

use vstd::prelude::*;

verus! {

/// Reads the system clock, `std::time::SystemTime::now()`, as nanoseconds
/// since the Unix epoch (zero for a clock set before 1970): the time source
/// that the limiters and the circuit breaker use for their timestamps. The
/// value depends on the machine and may step back when the clock is set;
/// no clause is stated about it, and the verified code that takes a reading
/// counts a step back as no time passing.
#[verifier::external_body]
pub(crate) fn clock_nanos() -> u64 {
    match std::time::SystemTime::now().duration_since(std::time::UNIX_EPOCH) {
        Ok(d) => d.as_nanos() as u64,
        Err(_) => 0,
    }
}

/// A bound on clock readings, in milliseconds either side of the Unix
/// epoch: about 263 000 years, the range of dates that `chrono` can hold.
pub const WALL_CLOCK_LIMIT: i64 = 8_300_000_000_000_000;

/// Reads the system clock, `std::time::SystemTime::now()`, against the Unix
/// epoch: whether it is at or after the epoch, and the whole milliseconds
/// between the two (`duration_since`, or the duration of its error when the
/// clock is set before the epoch). Which time comes back depends on the
/// machine's clock; no clause is stated about it.
#[verifier::external_body]
fn system_clock_millis() -> (bool, u128) {
    match std::time::SystemTime::now().duration_since(std::time::UNIX_EPOCH) {
        Ok(d) => (true, d.as_millis()),
        Err(e) => (false, e.duration().as_millis()),
    }
}

/// Wall-clock milliseconds since the Unix epoch, negative before it; a
/// reading further than `WALL_CLOCK_LIMIT` from the epoch is held at that
/// bound.
pub fn wall_clock_millis() -> (r: i64)
    ensures
        -WALL_CLOCK_LIMIT <= r <= WALL_CLOCK_LIMIT,
{
    let (after, ms) = system_clock_millis();
    let m: i64 = if ms > WALL_CLOCK_LIMIT as u128 {
        WALL_CLOCK_LIMIT
    } else {
        ms as i64
    };
    if after {
        m
    } else {
        -m
    }
}

/// Reads the milliseconds that `std::time::Instant::elapsed` reports for an
/// instant taken just before: the time the read itself took. It depends on
/// the machine; no clause is stated about it.
#[verifier::external_body]
pub(crate) fn instant_elapsed_millis() -> u64 {
    let start = std::time::Instant::now();
    start.elapsed().as_millis() as u64
}

/// A point in monotonic time, `std::time::Instant`; carried through, never
/// looked into.
#[verifier::external_type_specification]
#[verifier::external_body]
pub struct ExInstant(std::time::Instant);

/// Calls `std::time::Instant::now()`. Which instant comes back depends on
/// the machine; no clause is stated about it.
#[verifier::external_body]
pub(crate) fn instant_now() -> std::time::Instant {
    std::time::Instant::now()
}

/// Calls `start.elapsed().as_millis()`, kept to 64 bits. The value depends on
/// the machine; no clause is stated about it.
#[verifier::external_body]
pub(crate) fn millis_since(start: &std::time::Instant) -> u64 {
    start.elapsed().as_millis() as u64
}

} // verus!
