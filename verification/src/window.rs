//! Hour-aligned candidate execution windows before a deadline.

use vstd::prelude::*;

use crate::instant::{
    checked_add, floor_hour_spec, floor_to_hour, hour_aligned, valid_duration, valid_instant,
    MAX_INSTANT, NANOS_PER_HOUR,
};

verus! {

/// One candidate window: the job would occupy `[start, start + duration)`.
#[derive(Debug, Clone, Copy, PartialEq, Eq, Structural)]
pub struct CandidateWindow {
    /// UTC start instant (nanoseconds), on an hour boundary.
    pub start: i128,
    /// The job's estimated duration in nanoseconds.
    pub duration: i128,
}

/// Advancing to the next whole hour would leave the supported time range.
#[derive(Debug, Clone, Copy, PartialEq, Eq, Structural)]
pub enum WindowError {
    /// The next hour boundary after `now` is not representable.
    TimeOutOfRange,
}

/// The first candidate start: `now` itself when it lies on an hour
/// boundary, otherwise the next hour boundary.
pub open spec fn first_start(now: int) -> int {
    if floor_hour_spec(now) == now {
        now
    } else {
        floor_hour_spec(now) + NANOS_PER_HOUR
    }
}

/// How many candidate windows fit before `deadline`.
pub open spec fn window_count(now: int, deadline: int, duration: int) -> int {
    let first = first_start(now);
    if duration <= 0 || deadline <= now || first + duration > deadline {
        0
    } else {
        (deadline - duration - first) / (NANOS_PER_HOUR as int) + 1
    }
}

/// The only way enumeration fails: `now` is mid-hour in the last
/// representable hour, so the next boundary does not exist.
pub open spec fn windows_fail(now: int, deadline: int, duration: int) -> bool {
    duration > 0 && deadline > now && floor_hour_spec(now) != now && floor_hour_spec(now)
        + NANOS_PER_HOUR > MAX_INSTANT
}

impl CandidateWindow {
    /// The exclusive end of the window, when representable.
    pub fn end(&self) -> (r: Option<i128>)
        requires
            valid_instant(self.start as int),
            valid_duration(self.duration as int),
        ensures
            r is Some <==> valid_instant(self.start + self.duration),
            r matches Some(e) ==> e == self.start + self.duration,
    {
        checked_add(self.start, self.duration)
    }
}

/// Hour-aligned candidate start windows in `[now, deadline]` such that the
/// whole job fits before `deadline` (inclusive), ascending by start.
///
/// Empty when the duration is not positive, when `deadline <= now`, or
/// when the job cannot fit.
pub fn candidate_windows(now: i128, deadline: i128, duration: i128) -> (r: Result<
    Vec<CandidateWindow>,
    WindowError,
>)
    requires
        valid_instant(now as int),
        valid_instant(deadline as int),
        valid_duration(duration as int),
    ensures
        r is Err <==> windows_fail(now as int, deadline as int, duration as int),
        r matches Ok(w) ==> {
            &&& w@.len() == window_count(now as int, deadline as int, duration as int)
            &&& forall|i: int|
                0 <= i < w@.len() ==> #[trigger] w@[i].start == first_start(now as int) + i
                    * NANOS_PER_HOUR && w@[i].duration == duration
        },
{
    if duration <= 0 || deadline <= now {
        return Ok(Vec::new());
    }
    let floored = floor_to_hour(now);
    let mut start: i128;
    if floored == now {
        start = now;
    } else {
        match checked_add(floored, NANOS_PER_HOUR) {
            Some(s) => {
                start = s;
            },
            None => {
                return Err(WindowError::TimeOutOfRange);
            },
        }
    }
    let ghost first = start as int;
    let ghost count = window_count(now as int, deadline as int, duration as int);
    assert(first == first_start(now as int));
    let mut windows: Vec<CandidateWindow> = Vec::new();
    loop
        invariant_except_break
            valid_instant(start as int),
            start == first + windows@.len() * NANOS_PER_HOUR,
        invariant
            valid_instant(deadline as int),
            valid_duration(duration as int),
            duration > 0,
            deadline > now,
            first == first_start(now as int),
            count == window_count(now as int, deadline as int, duration as int),
            windows@.len() <= count,
            forall|i: int|
                0 <= i < windows@.len() ==> #[trigger] windows@[i].start == first + i
                    * NANOS_PER_HOUR && windows@[i].duration == duration,
        ensures
            windows@.len() == count,
        decreases count - windows@.len(),
    {
        proof {
            lemma_count_bound(now as int, deadline as int, duration as int, windows@.len() as int);
        }
        let end = match checked_add(start, duration) {
            Some(e) => e,
            None => {
                break;
            },
        };
        if end > deadline {
            break;
        }
        windows.push(CandidateWindow { start, duration });
        match checked_add(start, NANOS_PER_HOUR) {
            Some(next) => {
                start = next;
            },
            None => {
                proof {
                    lemma_count_bound(
                        now as int,
                        deadline as int,
                        duration as int,
                        windows@.len() as int,
                    );
                }
                break;
            },
        }
    }
    Ok(windows)
}

/// `first + i * h` stays on an hour boundary.
proof fn lemma_aligned_step(first: int, i: int)
    requires
        hour_aligned(first),
    ensures
        hour_aligned(first + i * NANOS_PER_HOUR),
{
    let h = NANOS_PER_HOUR as int;
    vstd::arithmetic::div_mod::lemma_fundamental_div_mod(first, h);
    let q = first / h;
    assert(first + i * h == (q + i) * h + 0) by (nonlinear_arith)
        requires
            first == h * q,
    ;
    vstd::arithmetic::div_mod::lemma_fundamental_div_mod_converse(first + i * h, h, q + i, 0);
}

/// The first candidate is on an hour boundary within an hour after `now`.
proof fn lemma_first_start(now: int)
    ensures
        hour_aligned(first_start(now)),
        now <= first_start(now) < now + NANOS_PER_HOUR,
        floor_hour_spec(now) != now ==> floor_hour_spec(now) < now,
{
    let h = NANOS_PER_HOUR as int;
    vstd::arithmetic::div_mod::lemma_fundamental_div_mod(now, h);
    let q = now / h;
    let f = now - now % h;
    assert(f == q * h + 0) by (nonlinear_arith)
        requires
            now == h * q + now % h,
            f == now - now % h,
    ;
    vstd::arithmetic::div_mod::lemma_fundamental_div_mod_converse(f, h, q, 0);
    lemma_aligned_step(f, 1);
}

/// Window `k` (counting from 0) fits before the deadline exactly when
/// `k` is below the window count.
proof fn lemma_count_bound(now: int, deadline: int, duration: int, k: int)
    requires
        duration > 0,
        deadline > now,
        k >= 0,
    ensures
        k < window_count(now, deadline, duration) <==> first_start(now) + k * NANOS_PER_HOUR
            + duration <= deadline,
{
    let h = NANOS_PER_HOUR as int;
    let first = first_start(now);
    if first + duration <= deadline {
        let m = deadline - duration - first;
        vstd::arithmetic::div_mod::lemma_fundamental_div_mod(m, h);
        let q = m / h;
        let r = m % h;
        assert(0 <= r < h);
        assert(k < q + 1 <==> k * h <= m) by (nonlinear_arith)
            requires
                m == h * q + r,
                0 <= r < h,
                k >= 0,
                h > 0,
        ;
    } else {
        assert(k * h >= 0) by (nonlinear_arith)
            requires
                k >= 0,
                h > 0,
        ;
    }
}

/// Every candidate starts on an hour boundary no earlier than `now`,
/// finishes by the deadline, and follows the previous one by exactly an
/// hour; and every hour boundary `s >= now` whose window `[s, s + d)`
/// finishes by the deadline is a candidate.
pub proof fn lemma_windows_sound_and_complete(now: int, deadline: int, duration: int, s: int)
    requires
        valid_instant(now),
        valid_instant(deadline),
        duration > 0,
    ensures
        forall|i: int|
            0 <= i < window_count(now, deadline, duration) ==> {
                let st = #[trigger] (first_start(now) + i * NANOS_PER_HOUR);
                &&& hour_aligned(st)
                &&& now <= st
                &&& st + duration <= deadline
            },
        hour_aligned(s) && now <= s && s + duration <= deadline ==> {
            let k = (s - first_start(now)) / (NANOS_PER_HOUR as int);
            &&& 0 <= k < window_count(now, deadline, duration)
            &&& s == first_start(now) + k * NANOS_PER_HOUR
        },
{
    let h = NANOS_PER_HOUR as int;
    let first = first_start(now);
    lemma_first_start(now);
    assert forall|i: int| 0 <= i < window_count(now, deadline, duration) implies {
        let st = #[trigger] (first_start(now) + i * NANOS_PER_HOUR);
        &&& hour_aligned(st)
        &&& now <= st
        &&& st + duration <= deadline
    } by {
        lemma_aligned_step(first, i);
        lemma_count_bound(now, deadline, duration, i);
        assert(i * h >= 0) by (nonlinear_arith)
            requires
                i >= 0,
                h > 0,
        ;
    }
    if hour_aligned(s) && now <= s && s + duration <= deadline {
        let k = (s - first) / h;
        assert(s >= first) by {
            if s < first {
                let f = floor_hour_spec(now);
                assert(f % h == 0) by {
                    lemma_aligned_step(f, 0);
                    assert(f + 0 * h == f);
                }
                assert(f < s < f + h);
                vstd::arithmetic::div_mod::lemma_fundamental_div_mod(s, h);
                vstd::arithmetic::div_mod::lemma_fundamental_div_mod(f, h);
                assert(false) by (nonlinear_arith)
                    requires
                        s == h * (s / h),
                        f == h * (f / h),
                        f < s < f + h,
                        h > 0,
                ;
            }
        }
        vstd::arithmetic::div_mod::lemma_fundamental_div_mod(s - first, h);
        assert((s - first) % h == 0) by {
            vstd::arithmetic::div_mod::lemma_fundamental_div_mod(s, h);
            vstd::arithmetic::div_mod::lemma_fundamental_div_mod(first, h);
            let q = s / h - first / h;
            assert(s - first == q * h + 0) by (nonlinear_arith)
                requires
                    s == h * (s / h),
                    first == h * (first / h),
                    q == s / h - first / h,
            ;
            vstd::arithmetic::div_mod::lemma_fundamental_div_mod_converse(s - first, h, q, 0);
        }
        assert(s == first + k * h) by (nonlinear_arith)
            requires
                s - first == h * ((s - first) / h) + (s - first) % h,
                (s - first) % h == 0,
                k == (s - first) / h,
        ;
        assert(k >= 0) by (nonlinear_arith)
            requires
                s == first + k * h,
                s >= first,
                h > 0,
        ;
        lemma_count_bound(now, deadline, duration, k);
    }
}

} // verus!
