//! UTC instants as whole nanoseconds since the Unix epoch, over the range
//! of dates `time` supports (years -9999 through 9999).

use vstd::prelude::*;

verus! {

/// Nanoseconds in one second.
pub const NANOS_PER_SECOND: i128 = 1_000_000_000;
/// Nanoseconds in one hour.
pub const NANOS_PER_HOUR: i128 = 3_600_000_000_000;
/// Nanoseconds in one day.
pub const NANOS_PER_DAY: i128 = 86_400_000_000_000;
/// Earliest representable instant: -9999-01-01T00:00:00Z.
pub const MIN_INSTANT: i128 = -377_705_116_800_000_000_000;
/// Latest representable instant: 9999-12-31T23:59:59.999999999Z.
pub const MAX_INSTANT: i128 = 253_402_300_799_999_999_999;
/// Largest magnitude of a duration, in nanoseconds.
pub const MAX_DURATION: i128 = 9_223_372_036_854_775_807_999_999_999;

/// `t` is a representable instant.
pub open spec fn valid_instant(t: int) -> bool {
    MIN_INSTANT <= t <= MAX_INSTANT
}

/// `d` is a representable duration.
pub open spec fn valid_duration(d: int) -> bool {
    -MAX_DURATION <= d <= MAX_DURATION
}

/// The hour boundary at or before `t`.
pub open spec fn floor_hour_spec(t: int) -> int {
    t - t % (NANOS_PER_HOUR as int)
}

/// `t` lies on an hour boundary.
pub open spec fn hour_aligned(t: int) -> bool {
    t % (NANOS_PER_HOUR as int) == 0
}

/// Seconds east of UTC that a `time` UTC offset can hold (±25:59:59).
pub const MAX_OFFSET_SECONDS: i32 = 93_599;

/// An instant shown at a UTC offset of `offset` seconds: the instant is in
/// range, the offset is one `time` can hold, and the local date-time is
/// in range too.
pub open spec fn valid_zoned(t: int, offset: int) -> bool {
    &&& valid_instant(t)
    &&& -MAX_OFFSET_SECONDS <= offset <= MAX_OFFSET_SECONDS
    &&& valid_instant(t + offset * NANOS_PER_SECOND)
}

/// The UTC hour boundary at or before `t`.
pub fn floor_to_hour(t: i128) -> (r: i128)
    requires
        valid_instant(t as int),
    ensures
        r == floor_hour_spec(t as int),
        valid_instant(r as int),
        hour_aligned(r as int),
        r <= t < r + NANOS_PER_HOUR,
{
    let rem = t.checked_rem_euclid(NANOS_PER_HOUR).unwrap();
    assert((MIN_INSTANT as int) % (NANOS_PER_HOUR as int) == 0);
    t - rem
}

/// `t + d` if the result is a representable instant.
pub fn checked_add(t: i128, d: i128) -> (r: Option<i128>)
    requires
        valid_instant(t as int),
        valid_duration(d as int),
    ensures
        r is Some <==> valid_instant(t + d),
        r matches Some(x) ==> x == t + d,
{
    let s = t + d;
    if MIN_INSTANT <= s && s <= MAX_INSTANT {
        Some(s)
    } else {
        None
    }
}

} // verus!
