//! The time of day.

use vstd::prelude::*;

verus! {

/// A span of time since the start of 1970: whole seconds, and the nanoseconds
/// of the second that has begun.
#[derive(Clone, Copy, Debug, PartialEq, Eq, Structural)]
pub struct SinceEpoch {
    pub secs: u64,
    pub nanos: u32,
}

/// `std::time::SystemTime::elapsed` of the Unix epoch: how long ago the epoch
/// is, and nothing at all where the clock is set before it. The part of the
/// second is less than a second. What time it is is not stated.
#[verifier::external_body]
pub(crate) fn since_epoch() -> (r: SinceEpoch)
    ensures
        r.nanos < 1_000_000_000,
{
    let d = std::time::UNIX_EPOCH.elapsed().unwrap_or_default();
    SinceEpoch { secs: d.as_secs(), nanos: d.subsec_nanos() }
}

/// A span in microseconds, in the 64 bits that are kept of it.
pub open spec fn micros_in(t: SinceEpoch) -> u64 {
    ((t.secs * 1_000_000 + t.nanos / 1000) % 0x1_0000_0000_0000_0000) as u64
}

/// A span in milliseconds, in the 64 bits that are kept of it.
pub open spec fn millis_in(t: SinceEpoch) -> u64 {
    ((t.secs * 1000 + t.nanos / 1_000_000) % 0x1_0000_0000_0000_0000) as u64
}

/// A span in whole seconds.
pub open spec fn secs_in(t: SinceEpoch) -> u64 {
    t.secs
}

/// A span in microseconds.
pub fn micros_of(t: SinceEpoch) -> (r: u64)
    ensures
        r == micros_in(t),
{
    let all: u128 = t.secs as u128 * 1_000_000 + (t.nanos / 1000) as u128;
    (all % 0x1_0000_0000_0000_0000) as u64
}

/// A span in milliseconds.
pub fn millis_of(t: SinceEpoch) -> (r: u64)
    ensures
        r == millis_in(t),
{
    let all: u128 = t.secs as u128 * 1000 + (t.nanos / 1_000_000) as u128;
    (all % 0x1_0000_0000_0000_0000) as u64
}

/// The time in microseconds.
pub fn now_micros() -> (r: u64)
    ensures
        exists|t: SinceEpoch| t.nanos < 1_000_000_000 && r == #[trigger] micros_in(t),
{
    let t = since_epoch();
    micros_of(t)
}

/// The time in milliseconds.
pub fn now_millis() -> (r: u64)
    ensures
        exists|t: SinceEpoch| t.nanos < 1_000_000_000 && r == #[trigger] millis_in(t),
{
    let t = since_epoch();
    millis_of(t)
}

/// The time in seconds.
pub fn now_secs() -> (r: u64)
    ensures
        exists|t: SinceEpoch| t.nanos < 1_000_000_000 && r == #[trigger] secs_in(t),
{
    let t = since_epoch();
    assert(t.secs == secs_in(t));
    t.secs
}

/// Of two times before the year 500000 the later is not the smaller, in
/// microseconds and in milliseconds.
pub proof fn law_time_does_not_run_backwards(a: SinceEpoch, b: SinceEpoch)
    requires
        a.nanos < 1_000_000_000,
        b.nanos < 1_000_000_000,
        a.secs <= b.secs < 16_000_000_000_000,
        a.secs == b.secs ==> a.nanos <= b.nanos,
    ensures
        micros_in(a) <= micros_in(b),
        millis_in(a) <= millis_in(b),
{
}

/// A second is a million microseconds and a thousand milliseconds, and what is
/// less than one of these does not count.
pub proof fn law_units_of_time(t: SinceEpoch)
    requires
        t.nanos < 1_000_000_000,
        t.secs < 16_000_000_000_000,
    ensures
        1000 * micros_in(t) <= 1_000_000_000 * t.secs + t.nanos < 1000 * micros_in(t) + 1000,
        1_000_000 * millis_in(t) <= 1_000_000_000 * t.secs + t.nanos < 1_000_000 * millis_in(t)
            + 1_000_000,
        secs_in(t) == t.secs,
{
}

/// Of a span that is too long for its unit, whole turns of 64 bits are left
/// out.
pub proof fn law_long_spans_wrap(t: SinceEpoch)
    ensures
        (t.secs * 1_000_000 + t.nanos / 1000 - micros_in(t)) % 0x1_0000_0000_0000_0000 == 0,
        (t.secs * 1000 + t.nanos / 1_000_000 - millis_in(t)) % 0x1_0000_0000_0000_0000 == 0,
{
}

} // verus!
