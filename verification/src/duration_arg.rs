//! Durations given on the command line: an integer followed by a unit
//! letter, `s`, `m`, `h` or `d` (`30s`, `45m`, `2h`, `1d`).

use vstd::prelude::*;

use crate::instant::NANOS_PER_SECOND;
use crate::text::{chars_of, parse_i64, parse_i64_spec, push_char, push_str, string_of};
use vstd::string::StringExecFns;

verus! {

/// An ASCII letter.
pub open spec fn ascii_alpha(c: char) -> bool {
    ('a' <= c && c <= 'z') || ('A' <= c && c <= 'Z')
}

/// Seconds in one of the unit letters.
pub open spec fn unit_seconds(c: char) -> Option<int> {
    if c == 's' {
        Some(1)
    } else if c == 'm' {
        Some(60)
    } else if c == 'h' {
        Some(3600)
    } else if c == 'd' {
        Some(86400)
    } else {
        None
    }
}

/// How a duration argument parses: nanoseconds, or the message
/// explaining why it does not.
pub open spec fn duration_arg(s: Seq<char>) -> Result<int, Seq<char>> {
    if s.len() == 0 || !ascii_alpha(s.last()) {
        Err("duration must end with s/m/h/d (got `"@ + s + "`)"@)
    } else {
        match parse_i64_spec(s.drop_last()) {
            None => Err("could not parse `"@ + s.drop_last() + "` as an integer"@),
            Some(n) => match unit_seconds(s.last()) {
                Some(k) => Ok(n * k * NANOS_PER_SECOND),
                None => Err("unknown duration unit `"@ + seq![s.last()] + "` (use s/m/h/d)"@),
            },
        }
    }
}

/// The number of seconds a duration argument names fits in an `i64`
/// (the duration type cannot hold more), or the argument is rejected
/// before that matters.
pub open spec fn duration_arg_representable(s: Seq<char>) -> bool {
    s.len() > 0 && ascii_alpha(s.last()) ==> match parse_i64_spec(s.drop_last()) {
        Some(n) => match unit_seconds(s.last()) {
            Some(k) => i64::MIN <= n * k <= i64::MAX,
            None => true,
        },
        None => true,
    }
}

/// Parse a duration argument into nanoseconds.
pub fn parse_duration(s: &str) -> (r: Result<i128, String>)
    requires
        duration_arg_representable(s@),
    ensures
        match duration_arg(s@) {
            Ok(d) => r matches Ok(x) && x == d,
            Err(m) => r matches Err(e) && e@ == m,
        },
{
    let v = chars_of(s);
    let n = v.len();
    if n == 0 || !(('a' <= v[n - 1] && v[n - 1] <= 'z') || ('A' <= v[n - 1] && v[n - 1] <= 'Z')) {
        let mut e = String::from_str("duration must end with s/m/h/d (got `");
        push_str(&mut e, s);
        push_str(&mut e, "`)");
        return Err(e);
    }
    let unit = v[n - 1];
    assert(v@.subrange(0, n - 1) =~= s@.drop_last());
    let value = match parse_i64(&v, 0, n - 1) {
        Some(x) => x,
        None => {
            let mut e = String::from_str("could not parse `");
            push_str(&mut e, string_of(&v, 0, n - 1).as_str());
            push_str(&mut e, "` as an integer");
            return Err(e);
        },
    };
    let k: i128 = if unit == 's' {
        1
    } else if unit == 'm' {
        60
    } else if unit == 'h' {
        3600
    } else if unit == 'd' {
        86400
    } else {
        let mut e = String::from_str("unknown duration unit `");
        push_char(&mut e, unit);
        push_str(&mut e, "` (use s/m/h/d)");
        return Err(e);
    };
    let secs = (value as i128) * k;
    assert(-0x8000_0000_0000_0000 <= secs <= 0x7fff_ffff_ffff_ffff);
    Ok(secs * NANOS_PER_SECOND)
}

} // verus!
