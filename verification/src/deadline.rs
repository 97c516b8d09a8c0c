//! `--by` deadlines: a time of day such as `7am`, `19:30` or
//! `tomorrow-9am`, resolved to its next occurrence in UTC.

use vstd::prelude::*;

use crate::instant::{valid_duration, valid_instant, NANOS_PER_DAY, NANOS_PER_HOUR, NANOS_PER_SECOND};
use crate::resolve::{debug_quoted, debug_text};
use crate::run_report::{dur_text, fmt_dur};
use crate::timefmt::{instant_rfc3339, rfc3339, utc_date, utc_date_of};
use crate::text::{
    chars_of, decimal, lower_seq, lower_vec, padded, parse_u32, parse_u32_spec, push_decimal,
    push_char, push_padded, push_signed, push_str, signed_decimal, skip_ws_end, skip_ws_start, slice_eq, string_of,
    trim_end_at, trim_seq, trim_start_at, is_ws, lower_char, upper_char, upper_seq,
};
use vstd::string::StringExecFns;

verus! {

/// First day (since the Unix epoch) of the supported calendar: -9999-01-01.
pub const MIN_DAY: i128 = -4_371_587;
/// Last day (since the Unix epoch) of the supported calendar: 9999-12-31.
pub const MAX_DAY: i128 = 2_932_896;

/// A parsed `--by` value.
#[derive(Debug, Clone, PartialEq, Eq)]
pub struct ByTime {
    /// Hour of day, 0 through 23.
    pub hour: u8,
    /// Minute, 0 through 59.
    pub minute: u8,
    /// 0 = next occurrence from today; 1 or more = that many days ahead.
    pub day_offset: i64,
    /// The input as typed.
    pub raw: String,
}

/// Index of the first `c` in `s[from..to]`, or `to` when absent.
pub open spec fn find_char(s: Seq<char>, c: char, from: int, to: int) -> int
    decreases to - from,
{
    if from >= to {
        to
    } else if s[from] == c {
        from
    } else {
        find_char(s, c, from + 1, to)
    }
}

/// `s[from..to]` parsed as a `u32` after trimming whitespace.
pub open spec fn trimmed_u32(s: Seq<char>, from: int, to: int) -> Option<u32> {
    let a = trim_start_at(s, from, to);
    let b = trim_end_at(s, a, to);
    parse_u32_spec(s.subrange(a, b))
}

/// `s[a..b]` ends with `x` then `y`.
pub open spec fn ends_with2(s: Seq<char>, a: int, b: int, x: char, y: char) -> bool {
    b - a >= 2 && s[b - 2] == x && s[b - 1] == y
}

/// The 24-hour hour for `h` on a 12-hour clock (`pm` when `is_pm`).
pub open spec fn twelve_hour(h: int, is_pm: bool) -> Option<int> {
    if h == 0 || h > 12 {
        None
    } else if is_pm {
        Some(if h == 12 { 12 } else { h + 12 })
    } else {
        Some(if h == 12 { 0 } else { h })
    }
}

/// The time of day written in `s[a..b]` (already trimmed): `H`, `H:MM`,
/// optionally followed by `am`/`pm`; or why it is not one, quoting the
/// text.
pub open spec fn time_of_day_spec(s: Seq<char>, a: int, b: int) -> Result<(int, int), Seq<char>> {
    let q = debug_text(s.subrange(a, b));
    let ampm: Option<bool> = if ends_with2(s, a, b, 'a', 'm') {
        Some(false)
    } else if ends_with2(s, a, b, 'p', 'm') {
        Some(true)
    } else {
        None
    };
    let e = if ampm is Some {
        trim_end_at(s, a, b - 2)
    } else {
        b
    };
    let c = find_char(s, ':', a, e);
    let h = if c < e {
        trimmed_u32(s, a, c)
    } else {
        trimmed_u32(s, a, e)
    };
    let m: Option<u32> = if c < e {
        trimmed_u32(s, c + 1, e)
    } else {
        Some(0)
    };
    match (h, m) {
        (None, _) => Err("could not parse hour in "@ + q),
        (Some(_), None) => Err("could not parse minute in "@ + q),
        (Some(h), Some(m)) => if m >= 60 {
            Err("minute "@ + decimal(m as nat) + " out of range in "@ + q)
        } else {
            match ampm {
                Some(pm) => match twelve_hour(h as int, pm) {
                    Some(hh) => Ok((hh, m as int)),
                    None => Err(
                        "12-hour clock hour "@ + decimal(h as nat) + " invalid in "@ + q
                            + " (use 1-12 with am/pm)"@,
                    ),
                },
                None => if h >= 24 {
                    Err(
                        "24-hour clock hour "@ + decimal(h as nat) + " out of range in "@ + q
                            + " (use 0-23)"@,
                    )
                } else {
                    Ok((h as int, m as int))
                },
            }
        },
    }
}

/// `s[from..]` starts with `p`.
pub open spec fn has_prefix(s: Seq<char>, p: Seq<char>) -> bool {
    p.len() <= s.len() && s.subrange(0, p.len() as int) == p
}

/// Day offset and the index where the time of day begins, after an
/// optional `tomorrow-`, `tomorrow `, `today-` or `today ` prefix.
pub open spec fn by_prefix(l: Seq<char>) -> (int, int) {
    if has_prefix(l, "tomorrow-"@) || has_prefix(l, "tomorrow "@) {
        (1, trim_start_at(l, 9, l.len() as int))
    } else if has_prefix(l, "today-"@) || has_prefix(l, "today "@) {
        (0, trim_start_at(l, 6, l.len() as int))
    } else {
        (0, 0)
    }
}

/// What `parse_by` makes of a text: `(hour, minute, day_offset)`, or why
/// it is not a time of day.
pub open spec fn parse_by_spec(s: Seq<char>) -> Result<(int, int, int), Seq<char>> {
    let t = trim_seq(s);
    if t.len() == 0 {
        Err("--by value is empty"@)
    } else {
        let l = lower_seq(t);
        let (off, p) = by_prefix(l);
        let a = trim_start_at(l, p, l.len() as int);
        let b = trim_end_at(l, a, l.len() as int);
        match time_of_day_spec(l, a, b) {
            Ok((h, m)) => Ok((h, m, off)),
            Err(e) => Err(e),
        }
    }
}

proof fn lemma_trim_bounds(s: Seq<char>, from: int, to: int)
    requires
        from <= to,
    ensures
        from <= trim_start_at(s, from, to) <= to,
        from <= trim_end_at(s, from, to) <= to,
    decreases to - from,
{
    if from < to {
        lemma_trim_bounds(s, from + 1, to);
        lemma_trim_bounds(s, from, to - 1);
    }
}

/// Index of the first `c` in `v[from..to]`, or `to`.
fn find_colon(v: &Vec<char>, from: usize, to: usize) -> (r: usize)
    requires
        from <= to <= v@.len(),
    ensures
        r == find_char(v@, ':', from as int, to as int),
        from <= r <= to,
{
    let mut i = from;
    while i < to && v[i] != ':'
        invariant
            from <= i <= to,
            to <= v@.len(),
            find_char(v@, ':', i as int, to as int) == find_char(v@, ':', from as int, to as int),
        decreases to - i,
    {
        i = i + 1;
    }
    i
}

/// Parse `v[from..to]` as a `u32` after trimming.
fn trimmed_parse(v: &Vec<char>, from: usize, to: usize) -> (r: Option<u32>)
    requires
        from <= to <= v@.len(),
    ensures
        r == trimmed_u32(v@, from as int, to as int),
{
    let a = skip_ws_start(v, from, to);
    let b = skip_ws_end(v, a, to);
    parse_u32(v, a, b)
}

/// Parse a time of day in `v[a..b]` into `(hour, minute)`.
pub fn parse_time_of_day(v: &Vec<char>, a: usize, b: usize) -> (r: Result<(u8, u8), String>)
    requires
        a <= b <= v@.len(),
    ensures
        match time_of_day_spec(v@, a as int, b as int) {
            Ok((h, m)) => r matches Ok((x, y)) && x == h && y == m,
            Err(e) => r matches Err(x) && x@ == e,
        },
{
    let t = string_of(v, a, b);
    let q = debug_quoted(t.as_str());
    let ampm: Option<bool> = if b - a >= 2 && v[b - 2] == 'a' && v[b - 1] == 'm' {
        Some(false)
    } else if b - a >= 2 && v[b - 2] == 'p' && v[b - 1] == 'm' {
        Some(true)
    } else {
        None
    };
    let e = if ampm.is_some() {
        skip_ws_end(v, a, b - 2)
    } else {
        b
    };
    let c = find_colon(v, a, e);
    let h = if c < e {
        trimmed_parse(v, a, c)
    } else {
        trimmed_parse(v, a, e)
    };
    let m: Option<u32> = if c < e {
        trimmed_parse(v, c + 1, e)
    } else {
        Some(0)
    };
    let h = match h {
        Some(x) => x,
        None => {
            let mut e = String::from_str("could not parse hour in ");
            push_str(&mut e, q.as_str());
            return Err(e);
        },
    };
    let m = match m {
        Some(x) => x,
        None => {
            let mut e = String::from_str("could not parse minute in ");
            push_str(&mut e, q.as_str());
            return Err(e);
        },
    };
    if m >= 60 {
        let mut e = String::from_str("minute ");
        push_decimal(&mut e, m as u128);
        push_str(&mut e, " out of range in ");
        push_str(&mut e, q.as_str());
        return Err(e);
    }
    let hour: u32 = match ampm {
        Some(pm) => {
            if h == 0 || h > 12 {
                let mut e = String::from_str("12-hour clock hour ");
                push_decimal(&mut e, h as u128);
                push_str(&mut e, " invalid in ");
                push_str(&mut e, q.as_str());
                push_str(&mut e, " (use 1-12 with am/pm)");
                return Err(e);
            }
            if pm {
                if h == 12 {
                    12
                } else {
                    h + 12
                }
            } else {
                if h == 12 {
                    0
                } else {
                    h
                }
            }
        },
        None => {
            if h >= 24 {
                let mut e = String::from_str("24-hour clock hour ");
                push_decimal(&mut e, h as u128);
                push_str(&mut e, " out of range in ");
                push_str(&mut e, q.as_str());
                push_str(&mut e, " (use 0-23)");
                return Err(e);
            }
            h
        },
    };
    Ok((hour as u8, m as u8))
}

/// If `v[p..]` starts with `prefix`, the index just past it with leading
/// whitespace skipped.
pub fn strip_prefix_ci(v: &Vec<char>, prefix: &str) -> (r: Option<usize>)
    ensures
        r is Some <==> has_prefix(v@, prefix@),
        r matches Some(i) ==> i == trim_start_at(v@, prefix@.len() as int, v@.len() as int)
            && i <= v@.len(),
{
    let n = prefix.unicode_len();
    if n > v.len() {
        return None;
    }
    if slice_eq(v, 0, n, prefix) {
        Some(skip_ws_start(v, n, v.len()))
    } else {
        None
    }
}

/// Parse a `--by` value.
pub fn parse_by(s: &str) -> (r: Result<ByTime, String>)
    ensures
        match parse_by_spec(s@) {
            Ok((h, m, o)) => r matches Ok(b) && b.hour == h && b.minute == m && b.day_offset == o
                && b.raw@ == s@,
            Err(e) => r matches Err(x) && x@ == e,
        },
{
    let raw = String::from_str(s);
    let v = chars_of(s);
    let ta = skip_ws_start(&v, 0, v.len());
    let tb = skip_ws_end(&v, ta, v.len());
    if ta == tb {
        return Err(String::from_str("--by value is empty"));
    }
    let t = crate::text::string_of(&v, ta, tb);
    let tv = chars_of(t.as_str());
    let l = lower_vec(&tv);
    proof {
        assert(l@ == lower_seq(trim_seq(s@)));
    }
    let (off, p): (i64, usize) = if let Some(i) = strip_prefix_ci(&l, "tomorrow-") {
        (1, i)
    } else if let Some(i) = strip_prefix_ci(&l, "tomorrow ") {
        (1, i)
    } else if let Some(i) = strip_prefix_ci(&l, "today-") {
        (0, i)
    } else if let Some(i) = strip_prefix_ci(&l, "today ") {
        (0, i)
    } else {
        (0, 0)
    };
    proof {
        reveal_strlit("tomorrow-");
        reveal_strlit("tomorrow ");
        reveal_strlit("today-");
        reveal_strlit("today ");
        assert(by_prefix(l@) == (off as int, p as int));
    }
    let a = skip_ws_start(&l, p, l.len());
    let b = skip_ws_end(&l, a, l.len());
    match parse_time_of_day(&l, a, b) {
        Ok((hour, minute)) => Ok(ByTime { hour, minute, day_offset: off, raw }),
        Err(e) => Err(e),
    }
}

/// Minutes and hours of a time of day, in nanoseconds after midnight.
pub open spec fn time_of_day_nanos(hour: int, minute: int) -> int {
    hour * NANOS_PER_HOUR + minute * 60 * NANOS_PER_SECOND
}

/// The day (since the epoch) containing instant `now`.
pub open spec fn day_of(now: int) -> int {
    now / (NANOS_PER_DAY as int)
}

/// The instant a `--by` value resolves to against `now`: the given time
/// of day on `today + day_offset`; for offset 0, a time at or before
/// `now` moves to the next day. `None` when the time of day is invalid or
/// the day leaves the supported calendar.
pub open spec fn resolve_by_spec(hour: int, minute: int, off: int, now: int) -> Option<int> {
    if hour > 23 || minute > 59 {
        None
    } else {
        let d1 = day_of(now) + off;
        let tod = time_of_day_nanos(hour, minute);
        if d1 < MIN_DAY || d1 > MAX_DAY {
            None
        } else if off == 0 && d1 * NANOS_PER_DAY + tod <= now {
            if d1 + 1 > MAX_DAY {
                None
            } else {
                Some((d1 + 1) * NANOS_PER_DAY + tod)
            }
        } else {
            Some(d1 * NANOS_PER_DAY + tod)
        }
    }
}

/// A calendar date as `time` displays it: `YYYY-MM-DD`, with a leading
/// `-` for years before 1.
pub open spec fn date_text(d: (i32, u8, u8)) -> Seq<char> {
    (if d.0 < 0 {
        seq!['-']
    } else {
        Seq::empty()
    }) + padded(abs_int(d.0 as int) as nat, 4) + seq!['-'] + padded(d.1 as nat, 2) + seq!['-'] + padded(
        d.2 as nat,
        2,
    )
}

/// The absolute value of an integer.
pub open spec fn abs_int(x: int) -> int {
    if x < 0 {
        -x
    } else {
        x
    }
}

/// The date of day `d` since the epoch, as text.
pub open spec fn day_text(d: int) -> Seq<char> {
    date_text(utc_date_of((d * 86_400) as i64))
}

/// Why a `--by` time has no instant against `now`: an impossible hour or
/// minute, a day offset too large for a duration, or a day outside the
/// calendar (the day the offset was added to, and the offset).
pub open spec fn by_error(hour: int, minute: int, off: int, now: int) -> Seq<char> {
    let clock = "invalid time "@ + decimal(hour as nat) + ":"@ + decimal(minute as nat) + ": "@;
    let d0 = day_of(now);
    if hour > 23 {
        clock + "hour was not in range"@
    } else if minute > 59 {
        clock + "minute was not in range"@
    } else if !(i64::MIN <= off * 86_400 <= i64::MAX) {
        "day offset "@ + signed_decimal(off) + " overflows"@
    } else if d0 + off < MIN_DAY || d0 + off > MAX_DAY {
        "date arithmetic overflowed: "@ + day_text(d0) + " + "@ + signed_decimal(off) + "d"@
    } else {
        "date arithmetic overflowed: "@ + day_text(d0 + off) + " + 1d"@
    }
}

/// Append the date of day `d` since the epoch.
fn push_day(s: &mut String, d: i128)
    requires
        MIN_DAY <= d <= MAX_DAY,
    ensures
        final(s)@ == old(s)@ + day_text(d as int),
{
    let secs: i64 = (d * 86_400) as i64;
    let (y, m, dd) = utc_date(secs);
    if y < 0 {
        push_char(s, '-');
    }
    let ay: u128 = if y < 0 {
        (-(y as i64)) as u128
    } else {
        y as u128
    };
    push_padded(s, ay, 4);
    push_char(s, '-');
    push_padded(s, m as u128, 2);
    push_char(s, '-');
    push_padded(s, dd as u128, 2);
    proof {
        assert(final(s)@ =~= old(s)@ + day_text(d as int));
    }
}

impl ByTime {
    /// Resolve to a UTC instant (nanoseconds) against `now`.
    pub fn resolve(&self, now: i128) -> (r: Result<i128, String>)
        requires
            valid_instant(now as int),
        ensures
            r is Ok <==> resolve_by_spec(
                self.hour as int,
                self.minute as int,
                self.day_offset as int,
                now as int,
            ) is Some,
            r matches Ok(t) ==> resolve_by_spec(
                self.hour as int,
                self.minute as int,
                self.day_offset as int,
                now as int,
            ) == Some(t as int),
            r matches Err(e) ==> e@ == by_error(
                self.hour as int,
                self.minute as int,
                self.day_offset as int,
                now as int,
            ),
    {
        if self.hour > 23 || self.minute > 59 {
            let mut e = String::from_str("invalid time ");
            push_decimal(&mut e, self.hour as u128);
            push_str(&mut e, ":");
            push_decimal(&mut e, self.minute as u128);
            push_str(&mut e, ": ");
            if self.hour > 23 {
                push_str(&mut e, "hour was not in range");
            } else {
                push_str(&mut e, "minute was not in range");
            }
            return Err(e);
        }
        let d0 = now.checked_div_euclid(NANOS_PER_DAY).unwrap();
        assert(d0 == day_of(now as int));
        assert(MIN_DAY <= d0 <= MAX_DAY) by (nonlinear_arith)
            requires
                d0 == (now as int) / 86_400_000_000_000int,
                -377_705_116_800_000_000_000int <= now <= 253_402_300_799_999_999_999int,
        ;
        let off = self.day_offset;
        if off < -106_751_991_167_300 || off > 106_751_991_167_300 {
            let mut e = String::from_str("day offset ");
            push_signed(&mut e, off as i128);
            push_str(&mut e, " overflows");
            return Err(e);
        }
        let d1 = d0 + (off as i128);
        if d1 < MIN_DAY || d1 > MAX_DAY {
            let mut e = String::from_str("date arithmetic overflowed: ");
            push_day(&mut e, d0);
            push_str(&mut e, " + ");
            push_signed(&mut e, off as i128);
            push_str(&mut e, "d");
            return Err(e);
        }
        let tod: i128 = (self.hour as i128) * NANOS_PER_HOUR + (self.minute as i128) * 60
            * NANOS_PER_SECOND;
        let cand = d1 * NANOS_PER_DAY + tod;
        if off == 0 && cand <= now {
            if d1 + 1 > MAX_DAY {
                let mut e = String::from_str("date arithmetic overflowed: ");
                push_day(&mut e, d1);
                push_str(&mut e, " + 1d");
                return Err(e);
            }
            Ok((d1 + 1) * NANOS_PER_DAY + tod)
        } else {
            Ok(cand)
        }
    }
}

proof fn lemma_trim_same_ws(s: Seq<char>, u: Seq<char>, from: int, to: int)
    requires
        s.len() == u.len(),
        0 <= from,
        to <= s.len(),
        forall|i: int| 0 <= i < s.len() ==> is_ws(#[trigger] s[i]) == is_ws(u[i]),
    ensures
        trim_start_at(s, from, to) == trim_start_at(u, from, to),
        trim_end_at(s, from, to) == trim_end_at(u, from, to),
    decreases to - from,
{
    if from < to {
        lemma_trim_same_ws(s, u, from + 1, to);
        lemma_trim_same_ws(s, u, from, to - 1);
    }
}

proof fn lemma_upper_char_facts(c: char)
    ensures
        is_ws(upper_char(c)) == is_ws(c),
        lower_char(upper_char(c)) == lower_char(c),
{
}

/// A `--by` value reads the same in upper case: `parse_by` gives the same
/// hour, minute and day offset (or the same refusal) for the
/// ASCII-upper-cased text. Any time it accepts lies in 00:00..23:59, and
/// its day offset is 1 exactly when the trimmed, lower-cased text starts
/// with `tomorrow-` or `tomorrow `, else 0. (`parse_by` itself states that
/// the result keeps the raw text.)
pub proof fn lemma_parse_by_ignores_case(s: Seq<char>)
    ensures
        parse_by_spec(upper_seq(s)) == parse_by_spec(s),
        parse_by_spec(s) matches Ok((h, m, o)) ==> 0 <= h <= 23 && 0 <= m <= 59 && (o == 0
            || o == 1),
        parse_by_spec(s) matches Ok((h, m, o)) ==> (o == 1 <==> (has_prefix(
            lower_seq(trim_seq(s)),
            "tomorrow-"@,
        ) || has_prefix(lower_seq(trim_seq(s)), "tomorrow "@))),
{
    let u = upper_seq(s);
    assert forall|i: int| 0 <= i < s.len() implies is_ws(#[trigger] s[i]) == is_ws(u[i]) by {
        lemma_upper_char_facts(s[i]);
    }
    lemma_trim_same_ws(s, u, 0, s.len() as int);
    let a = trim_start_at(s, 0, s.len() as int);
    crate::text::lemma_trim_start_bounds(s, 0, s.len() as int);
    crate::text::lemma_trim_end_bounds(s, a, s.len() as int);
    lemma_trim_same_ws(s, u, a, s.len() as int);
    let t = trim_seq(s);
    assert(trim_seq(u) =~= upper_seq(t));
    assert forall|i: int| 0 <= i < t.len() implies #[trigger] lower_seq(upper_seq(t))[i]
        == lower_seq(t)[i] by {
        lemma_upper_char_facts(t[i]);
    }
    assert(lower_seq(upper_seq(t)) =~= lower_seq(t));
}

/// With no explicit day offset, a `--by` time resolves to an instant
/// strictly after `now` and at most one day later, at the requested time
/// of day.
pub proof fn lemma_by_is_next_occurrence(hour: int, minute: int, now: int)
    requires
        0 <= hour <= 23,
        0 <= minute <= 59,
        valid_instant(now),
        resolve_by_spec(hour, minute, 0, now) is Some,
    ensures
        ({
            let t = resolve_by_spec(hour, minute, 0, now).unwrap();
            &&& now < t <= now + NANOS_PER_DAY
            &&& t % (NANOS_PER_DAY as int) == time_of_day_nanos(hour, minute)
        }),
{
    let day = NANOS_PER_DAY as int;
    let d0 = day_of(now);
    let tod = time_of_day_nanos(hour, minute);
    assert(0 <= tod < day);
    vstd::arithmetic::div_mod::lemma_fundamental_div_mod(now, day);
    assert(0 <= now % day < day);
    let t = resolve_by_spec(hour, minute, 0, now).unwrap();
    if d0 * day + tod <= now {
        assert(t == (d0 + 1) * day + tod);
        vstd::arithmetic::div_mod::lemma_fundamental_div_mod_converse(t, day, d0 + 1, tod);
    } else {
        assert(t == d0 * day + tod);
        vstd::arithmetic::div_mod::lemma_fundamental_div_mod_converse(t, day, d0, tod);
    }
}

proof fn lemma_day_time_in_calendar(d: int, tod: int)
    requires
        MIN_DAY <= d <= MAX_DAY,
        0 <= tod < NANOS_PER_DAY,
    ensures
        valid_instant(d * NANOS_PER_DAY + tod),
{
    assert(MIN_DAY * NANOS_PER_DAY <= d * NANOS_PER_DAY <= MAX_DAY * NANOS_PER_DAY) by (nonlinear_arith)
        requires
            MIN_DAY <= d <= MAX_DAY,
    ;
}

proof fn lemma_resolved_in_calendar(hour: int, minute: int, off: int, now: int)
    requires
        0 <= hour,
        0 <= minute,
    ensures
        resolve_by_spec(hour, minute, off, now) matches Some(t) ==> valid_instant(t),
{
    if hour <= 23 && minute <= 59 {
        let d1 = day_of(now) + off;
        let tod = time_of_day_nanos(hour, minute);
        assert(0 <= tod < NANOS_PER_DAY);
        if MIN_DAY <= d1 <= MAX_DAY {
            lemma_day_time_in_calendar(d1, tod);
            if d1 + 1 <= MAX_DAY {
                lemma_day_time_in_calendar(d1 + 1, tod);
            }
        }
    }
}

/// The line announcing a deadline derived from `--within`.
pub open spec fn within_note(t: int, w: int) -> Seq<char> {
    "nami: deadline "@ + instant_rfc3339(t as i128) + " (from --within "@ + dur_text(w) + ")"@
}

/// The line announcing a deadline derived from `--by`.
pub open spec fn by_note(t: int, raw: Seq<char>) -> Seq<char> {
    "nami: deadline "@ + instant_rfc3339(t as i128) + " (from --by "@ + raw + ") [UTC]"@
}

/// The deadline the command line gives, with the UTC offset (seconds) it
/// is shown at: `--deadline` as is, at the offset it was written at; else
/// `now` plus `--within`, else the next occurrence of the `--by` time, both
/// in UTC; a derived deadline comes with the line that announces it.
/// `None` when none of the three is given.
pub fn normalize_deadline(
    deadline: Option<(i128, i32)>,
    within: Option<i128>,
    by: &Option<ByTime>,
    now: i128,
) -> (r: Result<Option<((i128, i32), Option<String>)>, String>)
    requires
        valid_instant(now as int),
        within matches Some(w) ==> valid_duration(w as int),
        deadline is None ==> (within matches Some(w) ==> valid_instant(now + w)),
    ensures
        match deadline {
            Some(d) => r matches Ok(Some((x, None))) && x == d,
            None => match within {
                Some(w) => r matches Ok(Some((x, Some(n)))) && x.0 == now + w && x.1 == 0 && n@ == within_note(
                    x.0 as int,
                    w as int,
                ),
                None => match by {
                    Some(b) => match resolve_by_spec(
                        b.hour as int,
                        b.minute as int,
                        b.day_offset as int,
                        now as int,
                    ) {
                        Some(t) => r matches Ok(Some((x, Some(n)))) && x.0 == t && x.1 == 0 && n@ == by_note(
                            t,
                            b.raw@,
                        ),
                        None => r matches Err(e) && e@ == "--by "@ + debug_text(b.raw@) + ": "@
                            + by_error(b.hour as int, b.minute as int, b.day_offset as int, now as int),
                    },
                    None => r matches Ok(None),
                },
            },
        },
{
    if let Some(d) = deadline {
        return Ok(Some((d, None)));
    }
    if let Some(w) = within {
        let t = now + w;
        let mut n = String::from_str("nami: deadline ");
        push_str(&mut n, rfc3339(t).as_str());
        push_str(&mut n, " (from --within ");
        push_str(&mut n, fmt_dur(w).as_str());
        push_str(&mut n, ")");
        return Ok(Some(((t, 0i32), Some(n))));
    }
    match by {
        Some(b) => match b.resolve(now) {
            Ok(t) => {
                proof {
                    assert(valid_instant(t as int)) by {
                        lemma_resolved_in_calendar(b.hour as int, b.minute as int, b.day_offset as int, now as int);
                    }
                }
                let mut n = String::from_str("nami: deadline ");
                push_str(&mut n, rfc3339(t).as_str());
                push_str(&mut n, " (from --by ");
                push_str(&mut n, b.raw.as_str());
                push_str(&mut n, ") [UTC]");
                Ok(Some(((t, 0i32), Some(n))))
            },
            Err(e) => {
                let mut m = String::from_str("--by ");
                push_str(&mut m, debug_quoted(b.raw.as_str()).as_str());
                push_str(&mut m, ": ");
                push_str(&mut m, e.as_str());
                Err(m)
            },
        },
        None => Ok(None),
    }
}

} // verus!
