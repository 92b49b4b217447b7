use vstd::prelude::*;
use std::time::{Duration, Instant};

verus! {

/// std::time::Instant, held opaque: a reading of the monotonic clock.
#[verifier::external_type_specification]
#[verifier::external_body]
pub struct ExInstant(Instant);

/// Relies on std::time::Instant::now: a reading of the monotonic clock, of
/// which nothing is known.
pub assume_specification[ Instant::now ]() -> Instant;

/// Relies on std::time::Instant::duration_since: the time from `earlier` to
/// `self`, zero when `earlier` is later.
pub assume_specification[ Instant::duration_since ](this: &Instant, earlier: Instant) -> Duration;

/// Relies on std::time::Duration::as_secs: the whole seconds of a duration.
pub assume_specification[ Duration::as_secs ](this: &Duration) -> u64;

/// Relies on std::time::Duration::subsec_nanos: the fractional part of a
/// duration in nanoseconds, always below one billion.
pub assume_specification[ Duration::subsec_nanos ](this: &Duration) -> (r: u32)
    ensures
        r < 1_000_000_000,
;

/// Microseconds in `secs` seconds and `nanos` nanoseconds, rounded down.
pub open spec fn micros_of(secs: u64, nanos: u32) -> int {
    secs * 1_000_000 + nanos / 1_000
}

/// Milliseconds in `secs` seconds and `nanos` nanoseconds, rounded down.
pub open spec fn millis_of(secs: u64, nanos: u32) -> int {
    secs * 1_000 + nanos / 1_000_000
}

/// The monotonic clock the simulation reads, counting from its creation.
pub struct Clock {
    start: Instant,
}

impl Clock {
    /// A clock that starts now.
    pub fn new() -> Clock {
        Clock { start: Instant::now() }
    }

    /// The seconds and the nanoseconds below one second since the clock
    /// started.
    pub fn elapsed(&self) -> (r: (u64, u32))
        ensures
            r.1 < 1_000_000_000,
    {
        let d = Instant::now().duration_since(self.start);
        (d.as_secs(), d.subsec_nanos())
    }
}

/// Microseconds in `secs` seconds and `nanos` nanoseconds, rounded down and
/// wrapped to 64 bits.
pub fn micros_from_parts(secs: u64, nanos: u32) -> (r: u64)
    ensures
        r == micros_of(secs, nanos) as u64,
{
    ((secs as u128) * 1_000_000 + (nanos / 1_000) as u128) as u64
}

/// Milliseconds in `secs` seconds and `nanos` nanoseconds, rounded down and
/// wrapped to 64 bits.
pub fn millis_from_parts(secs: u64, nanos: u32) -> (r: u64)
    ensures
        r == millis_of(secs, nanos) as u64,
{
    ((secs as u128) * 1_000 + (nanos / 1_000_000) as u128) as u64
}

/// Milliseconds since the clock started, wrapped to 32 bits.
pub fn get_milliseconds_as_u32(clock: &Clock) -> (r: u32)
    ensures
        exists|secs: u64, nanos: u32| nanos < 1_000_000_000 && r == millis_of(secs, nanos) as u64 as u32,
{
    let (secs, nanos) = clock.elapsed();
    let r = millis_from_parts(secs, nanos) as u32;
    r
}

/// Milliseconds since the clock started.
pub fn get_milliseconds_as_u64(clock: &Clock) -> (r: u64)
    ensures
        exists|secs: u64, nanos: u32| nanos < 1_000_000_000 && r == millis_of(secs, nanos) as u64,
{
    let (secs, nanos) = clock.elapsed();
    millis_from_parts(secs, nanos)
}

/// Microseconds since the clock started, wrapped to 32 bits.
pub fn get_microseconds_as_u32(clock: &Clock) -> (r: u32)
    ensures
        exists|secs: u64, nanos: u32| nanos < 1_000_000_000 && r == micros_of(secs, nanos) as u64 as u32,
{
    let (secs, nanos) = clock.elapsed();
    let r = micros_from_parts(secs, nanos) as u32;
    r
}

/// Microseconds since the clock started.
pub fn get_microseconds_as_u64(clock: &Clock) -> (r: u64)
    ensures
        exists|secs: u64, nanos: u32| nanos < 1_000_000_000 && r == micros_of(secs, nanos) as u64,
{
    let (secs, nanos) = clock.elapsed();
    micros_from_parts(secs, nanos)
}

} // verus!
