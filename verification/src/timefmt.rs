//! Text forms of instants and calendar dates, as the `time` crate renders
//! them.

use vstd::prelude::*;

use crate::instant::{valid_instant, valid_zoned};

verus! {

/// `time`'s `Display` rendering of a UTC instant given in nanoseconds.
pub uninterp spec fn instant_display(nanos: i128) -> Seq<char>;

/// `time`'s RFC 3339 rendering of an instant given in nanoseconds, shown
/// at a UTC offset of `offset` seconds (falling back to its `Debug`
/// rendering when RFC 3339 cannot express it).
pub uninterp spec fn zoned_rfc3339(nanos: i128, offset: i32) -> Seq<char>;

/// `time`'s RFC 3339 rendering of a UTC instant given in nanoseconds.
pub open spec fn instant_rfc3339(nanos: i128) -> Seq<char> {
    zoned_rfc3339(nanos, 0)
}

/// `(year, month, day)` of the UTC calendar date holding a Unix second.
pub uninterp spec fn utc_date_of(unix_seconds: i64) -> (i32, u8, u8);

/// A leap year of the proleptic Gregorian calendar.
pub open spec fn is_leap_year(y: int) -> bool {
    (y % 4 == 0 && y % 100 != 0) || y % 400 == 0
}

/// Days in month `m` (1 through 12) of year `y`.
pub open spec fn days_in_month(y: int, m: int) -> int {
    if m == 2 {
        if is_leap_year(y) { 29 } else { 28 }
    } else if m == 4 || m == 6 || m == 9 || m == 11 {
        30
    } else {
        31
    }
}

/// Days in the months of year `y` before month `m`.
pub open spec fn days_before_month(y: int, m: int) -> int
    decreases m,
{
    if m <= 1 {
        0
    } else {
        days_before_month(y, m - 1) + days_in_month(y, m - 1)
    }
}

/// Leap years among the years before `y` (from year 1, counted back past
/// year 0 for earlier years).
pub open spec fn leaps_before(y: int) -> int {
    (y - 1) / 4 - (y - 1) / 100 + (y - 1) / 400
}

/// Days from 1970-01-01 to the date `(y, m, d)` of the proleptic Gregorian
/// calendar (negative before it).
pub open spec fn days_from_civil(y: int, m: int, d: int) -> int {
    365 * (y - 1970) + leaps_before(y) - leaps_before(1970) + days_before_month(y, m) + d - 1
}

/// Renders an instant with `OffsetDateTime`'s `Display` impl. The text is
/// a function of the instant alone; its layout is `time`'s.
#[verifier::external_body]
pub(crate) fn display_instant(nanos: i128) -> (s: String)
    requires
        valid_instant(nanos as int),
    ensures
        s@ == instant_display(nanos),
{
    time::OffsetDateTime::from_unix_timestamp_nanos(nanos).unwrap().to_string()
}

/// Renders an instant, moved to the UTC offset of `offset` seconds with
/// `OffsetDateTime::to_offset`, with `OffsetDateTime::format(&Rfc3339)`,
/// or with its `Debug` impl when RFC 3339 cannot express it (years
/// outside 0..=9999). The text is a function of the instant and the
/// offset alone; its layout is `time`'s. `requires` admits the offsets
/// `UtcOffset::from_whole_seconds` accepts (within ±25:59:59) and the
/// instants whose local date-time lies in `time`'s range, where neither
/// call fails.
#[verifier::external_body]
pub(crate) fn rfc3339_zoned(nanos: i128, offset: i32) -> (s: String)
    requires
        valid_zoned(nanos as int, offset as int),
    ensures
        s@ == zoned_rfc3339(nanos, offset),
{
    let off = time::UtcOffset::from_whole_seconds(offset).unwrap();
    let dt = time::OffsetDateTime::from_unix_timestamp_nanos(nanos).unwrap().to_offset(off);
    dt.format(&time::format_description::well_known::Rfc3339).unwrap_or_else(|_| format!("{dt:?}"))
}

/// RFC 3339 text of a UTC instant.
pub(crate) fn rfc3339(nanos: i128) -> (s: String)
    requires
        valid_instant(nanos as int),
    ensures
        s@ == instant_rfc3339(nanos),
{
    rfc3339_zoned(nanos, 0)
}

/// The UTC calendar date of a Unix second, via
/// `OffsetDateTime::from_unix_timestamp`: the year, the month number
/// (1 through 12) and the day of the month, as `time` documents them:
/// the proleptic Gregorian date of the day holding that second.
#[verifier::external_body]
pub(crate) fn utc_date(unix_seconds: i64) -> (r: (i32, u8, u8))
    requires
        -377_705_116_800 <= unix_seconds <= 253_402_300_799,
    ensures
        r == utc_date_of(unix_seconds),
        -9999 <= r.0 <= 9999,
        1 <= r.1 <= 12,
        1 <= r.2 <= 31,
        r.2 <= days_in_month(r.0 as int, r.1 as int),
        days_from_civil(r.0 as int, r.1 as int, r.2 as int) == unix_seconds as int / 86400,
{
    let dt = time::OffsetDateTime::from_unix_timestamp(unix_seconds).unwrap();
    (dt.year(), u8::from(dt.month()), dt.day())
}

} // verus!
