//! Properties that span several functions of the library.

use vstd::prelude::*;

use crate::confidence::{assessed_level, ConfidenceLevel, DataFreshness};
use crate::instant::{hour_aligned, valid_instant};
use crate::preview::{base_warning_texts, basis_line, forecast_warning_texts, static_fallback_shape};
use crate::decision::SchedulingDecision;
use crate::cache::Intensity;
use crate::run_report::Percent;
use crate::text::views;
use crate::refresh::{capped, MAX_WARNINGS};
use crate::run_report::RunReport;
use crate::scheduler::{
    bucket_count, bucket_start, lemma_bucket_count, score_matches, scorable, scorable_starts,
    BucketWeight, ForecastPoint, WindowScore,
};
use crate::instant::{NANOS_PER_DAY, NANOS_PER_HOUR, NANOS_PER_SECOND};
use crate::forecast::hour_of;
use crate::region::{region_code, Region};
use crate::reports::auto_name_text;
use crate::summary::tally;
use crate::profile::text_lt;
use crate::text::{decimal, digit_char, lemma_decimal_len_small, padded, pow10, zeros};
use crate::window::lemma_windows_sound_and_complete;
use crate::program::{launch_spec, Launch};
use crate::deadline::resolve_by_spec;
use crate::forecast_text::{forecast_text, point_row, point_rows, table_header, PointFigures};
use crate::run_report::dur_text;
use crate::status::{pad_left, pad_right, region_line_text};
use crate::cache::{region_obs, HistoricalCache};
use crate::doctor::whole_hours;
use crate::text::signed_decimal;
use crate::timefmt::instant_rfc3339;
use crate::fuel::{classify_spec, FuelClass, FuelType};
use crate::fuel_mix::{find_mix, fuel_rank, lemma_find_mix, period_spec, step, MixView, RawRow, RowValue};
use crate::region::region_of_respondent;
use crate::egrid::{fuel_at, fuel_pos};

verus! {

/// Whatever the sample count and interval width, data that comes only
/// from the static table is graded `VeryLow`.
pub proof fn lemma_static_fallback_is_very_low(sample_count: int, width: ConfidenceLevel)
    ensures
        assessed_level(sample_count, width, DataFreshness::StaticFallbackOnly)
            == ConfidenceLevel::VeryLow,
{
}

/// Every candidate the best-window policy compares against running now
/// starts on an hour boundary, no earlier than now, can be scored by the
/// forecast, and finishes by the deadline.
pub proof fn lemma_deferred_start_fits(
    fc: Seq<ForecastPoint>,
    now: int,
    deadline: int,
    duration: int,
    i: int,
)
    requires
        valid_instant(now),
        valid_instant(deadline),
        duration > 0,
        0 <= i < scorable_starts(fc, now, deadline, duration).len(),
    ensures
        ({
            let s = scorable_starts(fc, now, deadline, duration)[i];
            &&& hour_aligned(s)
            &&& now <= s
            &&& s + duration <= deadline
            &&& scorable(fc, s, duration)
        }),
{
    let all = Seq::new(
        crate::window::window_count(now, deadline, duration) as nat,
        |k: int| crate::window::first_start(now) + k * crate::instant::NANOS_PER_HOUR,
    );
    let pred = |s: int| scorable(fc, s, duration);
    let f = all.filter(pred);
    assert(f == scorable_starts(fc, now, deadline, duration));
    assert(f.contains(f[i]));
    all.lemma_filter_contains_rev(pred, f[i]);
    let k = choose|k: int| 0 <= k < all.len() && all[k] == f[i];
    lemma_windows_sound_and_complete(now, deadline, duration, f[i]);
    assert(all[k] == crate::window::first_start(now) + k * crate::instant::NANOS_PER_HOUR);
    all.lemma_filter_pred(pred, i);
}

/// Every counted report is exactly one of deferred, run immediately, or
/// refused, and no more reports are counted than were given.
pub proof fn lemma_summary_partition(rs: Seq<RunReport>, ws: int, we: int, filter: Option<crate::region::Region>)
    ensures
        tally(rs, ws, we, filter).deferred + tally(rs, ws, we, filter).run_immediately + tally(
            rs,
            ws,
            we,
            filter,
        ).refused == tally(rs, ws, we, filter).total,
        tally(rs, ws, we, filter).total <= rs.len(),
    decreases rs.len(),
{
    if rs.len() > 0 {
        lemma_summary_partition(rs.drop_last(), ws, we, filter);
    }
}

/// Capped warnings never exceed fifty lines plus the summary line, and
/// keep the first fifty as they were.
pub proof fn lemma_capped_bounded(w: Seq<Seq<char>>)
    ensures
        capped(w).len() <= MAX_WARNINGS + 1,
        forall|i: int| 0 <= i < capped(w).len() && i < MAX_WARNINGS ==> #[trigger] capped(w)[i] == w[i],
{
}

/// A report on the static fallback never presents its basis as a
/// historical-pattern forecast.
pub proof fn lemma_static_basis_is_not_a_forecast(r: RunReport)
    requires
        r.data_freshness == DataFreshness::StaticFallbackOnly,
    ensures
        basis_line(r) == "Basis: static annual regional mean — a degraded fallback, not a forecast ("@
            + r.methodology_version@ + ")\n"@,
{
}

/// The nanoseconds of a window counted by its hour buckets.
pub open spec fn overlap_total(b: Seq<BucketWeight>) -> int
    decreases b.len(),
{
    if b.len() == 0 {
        0
    } else {
        overlap_total(b.drop_last()) + b.last().overlap
    }
}

proof fn lemma_prefix_total(s: WindowScore, fc: Seq<ForecastPoint>, start: int, duration: int, j: int)
    requires
        score_matches(s, fc, start, duration),
        valid_instant(start),
        duration > 0,
        1 <= j <= bucket_count(start, start + duration),
    ensures
        overlap_total(s.buckets@.take(j)) == (if start + duration < bucket_start(start, j) {
            start + duration
        } else {
            bucket_start(start, j)
        }) - start,
    decreases j,
{
    let b = s.buckets@;
    let end = start + duration;
    let h = NANOS_PER_HOUR as int;
    assert(b.take(j).drop_last() =~= b.take(j - 1));
    assert(b.take(j).last() == b[j - 1]);
    lemma_bucket_count(start, end, j - 1);
    assert(0 <= start % h < h);
    assert(bucket_start(start, 0) <= start < bucket_start(start, 0) + h);
    let bj1 = bucket_start(start, j - 1);
    assert(b[j - 1].overlap == (if end < bj1 + h {
        end
    } else {
        bj1 + h
    }) - (if start > bj1 {
        start
    } else {
        bj1
    }));
    assert(bucket_start(start, j) == bj1 + h);
    assert(overlap_total(b.take(j)) == overlap_total(b.take(j - 1)) + b[j - 1].overlap);
    if j > 1 {
        lemma_prefix_total(s, fc, start, duration, j - 1);
        assert(bj1 >= bucket_start(start, 0) + h);
    } else {
        assert(b.take(0) =~= Seq::<BucketWeight>::empty());
        assert(overlap_total(b.take(0)) == 0);
    }
}

/// A scored window is split into its hour buckets without gap or overlap:
/// every bucket's share is positive, and the shares add up to the
/// window's duration, so the duration-weighted mean over them is a mean
/// over the whole window.
pub proof fn lemma_window_shares_cover_duration(
    s: WindowScore,
    fc: Seq<ForecastPoint>,
    start: int,
    duration: int,
)
    requires
        score_matches(s, fc, start, duration),
        valid_instant(start),
        duration > 0,
    ensures
        overlap_total(s.buckets@) == duration,
        forall|k: int| 0 <= k < s.buckets@.len() ==> #[trigger] s.buckets@[k].overlap > 0,
{
    let b = s.buckets@;
    let end = start + duration;
    let h = NANOS_PER_HOUR as int;
    let m = bucket_count(start, end);
    assert(0 <= start % h < h);
    lemma_bucket_count(start, end, 0);
    lemma_bucket_count(start, end, m);
    assert(m >= 1);
    lemma_prefix_total(s, fc, start, duration, m);
    assert(b.take(m) =~= b);
    assert forall|k: int| 0 <= k < b.len() implies #[trigger] b[k].overlap > 0 by {
        lemma_bucket_count(start, end, k);
    }
}

/// The `w` lowest decimal digits of `n`, most significant first.
pub open spec fn digits(n: nat, w: nat) -> Seq<char>
    decreases w,
{
    if w == 0 {
        Seq::empty()
    } else {
        digits(n / 10, (w - 1) as nat).push(digit_char((n % 10) as int))
    }
}

proof fn lemma_text_lt_same_prefix(x: Seq<char>, a: Seq<char>, b: Seq<char>)
    requires
        text_lt(a, b),
    ensures
        text_lt(x + a, x + b),
    decreases x.len(),
{
    if x.len() > 0 {
        assert((x + a).skip(1) =~= x.skip(1) + a);
        assert((x + b).skip(1) =~= x.skip(1) + b);
        lemma_text_lt_same_prefix(x.skip(1), a, b);
    } else {
        assert(x + a =~= a);
        assert(x + b =~= b);
    }
}

proof fn lemma_text_lt_prefix_decides(x: Seq<char>, y: Seq<char>, a: Seq<char>, b: Seq<char>)
    requires
        x.len() == y.len(),
        text_lt(x, y),
    ensures
        text_lt(x + a, y + b),
    decreases x.len(),
{
    assert((x + a)[0] == x[0]);
    assert((y + b)[0] == y[0]);
    if x[0] == y[0] {
        assert((x + a).skip(1) =~= x.skip(1) + a);
        assert((y + b).skip(1) =~= y.skip(1) + b);
        lemma_text_lt_prefix_decides(x.skip(1), y.skip(1), a, b);
    }
}

proof fn lemma_digit_char_order(d1: int, d2: int)
    requires
        0 <= d1 < d2 < 10,
    ensures
        digit_char(d1) < digit_char(d2),
{
}

proof fn lemma_digits_order(a: nat, b: nat, w: nat)
    requires
        a < b < pow10(w),
    ensures
        text_lt(digits(a, w), digits(b, w)),
        digits(a, w).len() == w,
    decreases w,
{
    if w == 0 {
        assert(pow10(0) == 1);
    } else {
        let x = digits(a / 10, (w - 1) as nat);
        let y = digits(b / 10, (w - 1) as nat);
        assert(b / 10 < pow10((w - 1) as nat)) by (nonlinear_arith)
            requires
                b < 10 * pow10((w - 1) as nat),
        ;
        lemma_digits_len(a / 10, (w - 1) as nat);
        lemma_digits_len(b / 10, (w - 1) as nat);
        let ca = seq![digit_char((a % 10) as int)];
        let cb = seq![digit_char((b % 10) as int)];
        assert(digits(a, w) =~= x + ca);
        assert(digits(b, w) =~= y + cb);
        if a / 10 < b / 10 {
            lemma_digits_order(a / 10, b / 10, (w - 1) as nat);
            lemma_text_lt_prefix_decides(x, y, ca, cb);
        } else {
            assert(a / 10 == b / 10);
            assert(a % 10 < b % 10);
            lemma_digit_char_order((a % 10) as int, (b % 10) as int);
            assert(text_lt(ca, cb)) by {
                assert(ca.skip(1).len() == 0);
            }
            lemma_text_lt_same_prefix(x, ca, cb);
        }
    }
}

proof fn lemma_digits_len(n: nat, w: nat)
    ensures
        digits(n, w).len() == w,
    decreases w,
{
    if w > 0 {
        lemma_digits_len(n / 10, (w - 1) as nat);
    }
}

proof fn lemma_zero_digits(k: nat)
    ensures
        digits(0, k) == zeros(k),
    decreases k,
{
    if k > 0 {
        lemma_zero_digits((k - 1) as nat);
        assert(digit_char(0) == '0');
        assert(digits(0, k) =~= zeros(k));
    } else {
        assert(digits(0, k) =~= zeros(k));
    }
}

proof fn lemma_padded_is_digits(n: nat, w: nat)
    requires
        w >= 1,
        n < pow10(w),
    ensures
        padded(n, w) == digits(n, w),
    decreases n,
{
    lemma_decimal_len_small(n, w);
    if n < 10 {
        lemma_zero_digits((w - 1) as nat);
        assert(n / 10 == 0);
        assert(n % 10 == n);
        assert(padded(n, w) =~= digits(n, w));
    } else {
        if w == 1 {
            assert(pow10(1) == 10) by {
                reveal_with_fuel(pow10, 2);
            }
        }
        assert(w >= 2);
        assert(n / 10 < pow10((w - 1) as nat)) by (nonlinear_arith)
            requires
                n < 10 * pow10((w - 1) as nat),
        ;
        lemma_padded_is_digits(n / 10, (w - 1) as nat);
        let c = digit_char((n % 10) as int);
        assert(decimal(n) == decimal(n / 10).push(c));
        assert(padded(n, w) =~= padded(n / 10, (w - 1) as nat).push(c));
    }
}

/// Zero-padded numbers of one width sort as the numbers do.
pub proof fn lemma_padded_order(a: nat, b: nat, w: nat)
    requires
        w >= 1,
        a < b < pow10(w),
    ensures
        text_lt(padded(a, w), padded(b, w)),
        padded(a, w).len() == w,
        padded(b, w).len() == w,
{
    lemma_padded_is_digits(a, w);
    lemma_padded_is_digits(b, w);
    lemma_digits_order(a, b, w);
    lemma_digits_len(b, w);
}

/// For `x < y` with the same quotient by `k`, the remainders keep the order;
/// in any case the quotients do.
proof fn lemma_split_order(x: int, y: int, k: int)
    requires
        x < y,
        k > 0,
    ensures
        x / k <= y / k,
        x / k == y / k ==> x % k < y % k,
{
    vstd::arithmetic::div_mod::lemma_div_is_ordered(x, y, k);
    vstd::arithmetic::div_mod::lemma_fundamental_div_mod(x, k);
    vstd::arithmetic::div_mod::lemma_fundamental_div_mod(y, k);
}

proof fn lemma_quotient_below(x: int, k: int, q: int)
    requires
        0 <= x < k * q,
        k > 0,
        q > 0,
    ensures
        0 <= x / k < q,
{
    vstd::arithmetic::div_mod::lemma_fundamental_div_mod(x, k);
    assert(0 <= x / k < q) by (nonlinear_arith)
        requires
            x == k * (x / k) + x % k,
            0 <= x % k < k,
            0 <= x < k * q,
            k > 0,
    ;
}

/// The fields of an automatic report name after the hour: minutes,
/// seconds, nanoseconds and the rest.
spec fn name_after_seconds(t: int, r: Region) -> Seq<char> {
    padded((t % (NANOS_PER_SECOND as int)) as nat, 9) + seq!['-'] + region_code(r) + ".json"@
}

spec fn name_after_minutes(t: int, r: Region) -> Seq<char> {
    let in_hour = (t % (NANOS_PER_DAY as int)) % (NANOS_PER_HOUR as int);
    padded(((in_hour % 60_000_000_000) / 1_000_000_000) as nat, 2) + (seq!['-'] + name_after_seconds(t, r))
}

spec fn name_after_hours(t: int, r: Region) -> Seq<char> {
    let in_hour = (t % (NANOS_PER_DAY as int)) % (NANOS_PER_HOUR as int);
    padded((in_hour / 60_000_000_000) as nat, 2) + (seq!['-'] + name_after_minutes(t, r))
}

proof fn lemma_name_shape(t: int, r: Region)
    ensures
        auto_name_text(t, r) == padded(hour_of(t) as nat, 2) + (seq!['-'] + name_after_hours(t, r)),
{
    assert(auto_name_text(t, r) =~= padded(hour_of(t) as nat, 2) + (seq!['-'] + name_after_hours(t, r)));
}

/// Automatic report names sort by time within a (UTC) day: of two
/// instants of the same day, the earlier one's name sorts first, whatever
/// the regions.
pub proof fn lemma_auto_names_sort_by_time(t1: int, t2: int, r1: Region, r2: Region)
    requires
        valid_instant(t1),
        valid_instant(t2),
        t1 / (NANOS_PER_DAY as int) == t2 / (NANOS_PER_DAY as int),
        t1 < t2,
    ensures
        text_lt(auto_name_text(t1, r1), auto_name_text(t2, r2)),
{
    let day = NANOS_PER_DAY as int;
    let hour = NANOS_PER_HOUR as int;
    let minute = 60_000_000_000int;
    let second = NANOS_PER_SECOND as int;
    assert(pow10(2) == 100 && pow10(9) == 1_000_000_000) by {
        reveal_with_fuel(pow10, 10);
    }
    // Time of day, then its parts.
    let q1 = t1 % day;
    let q2 = t2 % day;
    lemma_split_order(t1, t2, day);
    let h1 = q1 / hour;
    let h2 = q2 / hour;
    lemma_quotient_below(q1, hour, 24);
    lemma_quotient_below(q2, hour, 24);
    lemma_split_order(q1, q2, hour);
    let i1 = q1 % hour;
    let i2 = q2 % hour;
    lemma_quotient_below(i1, minute, 60);
    lemma_quotient_below(i2, minute, 60);
    let m1 = i1 / minute;
    let m2 = i2 / minute;
    let s1 = (i1 % minute) / second;
    let s2 = (i2 % minute) / second;
    lemma_quotient_below(i1 % minute, second, 60);
    lemma_quotient_below(i2 % minute, second, 60);
    // The nanoseconds field is the remainder within the second.
    assert forall|t: int| #[trigger] ((((t % day) % hour) % minute) % second) == t % second by {
        vstd::arithmetic::div_mod::lemma_mod_mod(t % day % hour, second, 60);
        vstd::arithmetic::div_mod::lemma_mod_mod(t % day, second, 3600);
        vstd::arithmetic::div_mod::lemma_mod_mod(t, second, 86_400);
    }
    let n1 = t1 % second;
    let n2 = t2 % second;
    assert(((((t1 % day) % hour) % minute) % second) == n1);
    assert(((((t2 % day) % hour) % minute) % second) == n2);
    lemma_name_shape(t1, r1);
    lemma_name_shape(t2, r2);
    let dash = seq!['-'];
    if h1 != h2 {
        lemma_padded_order(h1 as nat, h2 as nat, 2);
        lemma_text_lt_prefix_decides(
            padded(h1 as nat, 2),
            padded(h2 as nat, 2),
            dash + name_after_hours(t1, r1),
            dash + name_after_hours(t2, r2),
        );
    } else {
        lemma_split_order(i1, i2, minute);
        if m1 != m2 {
            lemma_padded_order(m1 as nat, m2 as nat, 2);
            lemma_text_lt_prefix_decides(
                padded(m1 as nat, 2),
                padded(m2 as nat, 2),
                dash + name_after_minutes(t1, r1),
                dash + name_after_minutes(t2, r2),
            );
        } else {
            lemma_split_order(i1 % minute, i2 % minute, second);
            if s1 != s2 {
                lemma_padded_order(s1 as nat, s2 as nat, 2);
                lemma_text_lt_prefix_decides(
                    padded(s1 as nat, 2),
                    padded(s2 as nat, 2),
                    dash + name_after_seconds(t1, r1),
                    dash + name_after_seconds(t2, r2),
                );
            } else {
                lemma_padded_order(n1 as nat, n2 as nat, 9);
                lemma_text_lt_prefix_decides(
                    padded(n1 as nat, 9),
                    padded(n2 as nat, 9),
                    dash + region_code(r1) + ".json"@,
                    dash + region_code(r2) + ".json"@,
                );
                assert(name_after_seconds(t1, r1) =~= padded(n1 as nat, 9) + (dash + region_code(r1) + ".json"@));
                assert(name_after_seconds(t2, r2) =~= padded(n2 as nat, 9) + (dash + region_code(r2) + ".json"@));
                lemma_text_lt_same_prefix(dash, name_after_seconds(t1, r1), name_after_seconds(t2, r2));
                lemma_text_lt_same_prefix(padded(s1 as nat, 2), dash + name_after_seconds(t1, r1), dash + name_after_seconds(t2, r2));
            }
            lemma_text_lt_same_prefix(dash, name_after_minutes(t1, r1), name_after_minutes(t2, r2));
            lemma_text_lt_same_prefix(padded(m1 as nat, 2), dash + name_after_minutes(t1, r1), dash + name_after_minutes(t2, r2));
        }
        lemma_text_lt_same_prefix(dash, name_after_hours(t1, r1), name_after_hours(t2, r2));
        lemma_text_lt_same_prefix(padded(h1 as nat, 2), dash + name_after_hours(t1, r1), dash + name_after_hours(t2, r2));
    }
}

/// A historical-pattern recommendation always says that its figures are
/// average (not marginal) intensity and no guarantee of a reduction.
pub proof fn lemma_forecast_reports_carry_disclaimers(
    stale: bool,
    region: Region,
    max_hours: nat,
    d: SchedulingDecision,
)
    ensures
        forecast_warning_texts(stale, region, max_hours, d).contains(base_warning_texts()[0]),
        forecast_warning_texts(stale, region, max_hours, d).contains(base_warning_texts()[1]),
{
    let w = forecast_warning_texts(stale, region, max_hours, d);
    assert(w[0] == base_warning_texts()[0]);
    assert(w[1] == base_warning_texts()[1]);
}

/// A static-fallback recommendation says the same, besides why it fell
/// back and that it is no forecast.
pub proof fn lemma_fallback_reports_carry_disclaimers(
    r: RunReport,
    reason: Seq<char>,
    baseline: Intensity,
    threshold: Percent,
)
    requires
        static_fallback_shape(r, reason, baseline, threshold),
    ensures
        views(r.warnings@).contains(base_warning_texts()[0]),
        views(r.warnings@).contains(base_warning_texts()[1]),
{
    let w = views(r.warnings@);
    assert(w[1] == base_warning_texts()[0]);
    assert(w[2] == base_warning_texts()[1]);
}

/// A deferred job waits for the window the scheduler chose: `nami run`
/// launches a `StartAt` decision at its own start time, never at `now`;
/// an immediate start launches at `now`, and a refusal launches nothing.
pub proof fn lemma_deferral_launches_at_its_window(d: SchedulingDecision, now: i128)
    ensures
        d matches SchedulingDecision::StartAt { start_time, .. } ==> launch_spec(d, now)
            == Launch::At(start_time),
        d is StartImmediately ==> launch_spec(d, now) == Launch::At(now),
        d is Refuse ==> launch_spec(d, now) is Exit,
{
}

/// An explicit day offset is never bumped: `--by tomorrow-9am` (or any
/// offset of one day or more) resolves to that day at that time of day,
/// whether or not the time has already passed today.
pub proof fn lemma_by_offset_is_not_bumped(hour: int, minute: int, off: int, now: int)
    requires
        off >= 1,
        resolve_by_spec(hour, minute, off, now) is Some,
    ensures
        resolve_by_spec(hour, minute, off, now) == Some(
            (now / (NANOS_PER_DAY as int) + off) * NANOS_PER_DAY + hour * NANOS_PER_HOUR + minute
                * 60 * NANOS_PER_SECOND,
        ),
{
}

/// Each generation fuel is filed in its own slot of a mix's generation
/// lists: the slot at the fuel's position in `FuelType::ALL`, which is
/// also the position eGRID's factor table uses for that fuel. So coal
/// generation is weighed with the coal factor, never another fuel's.
pub proof fn lemma_fuel_slot_is_its_position(f: FuelType)
    ensures
        0 <= fuel_rank(f) < 9,
        FuelType::ALL@[fuel_rank(f)] == f,
        fuel_rank(f) == fuel_pos(f),
        fuel_at(fuel_rank(f)) == f,
{
}

/// A reported generation value lands in its fuel's slot of its
/// region-hour: after a row is taken in, the mix for the row's hour and
/// region holds the value appended to the list of the slot whose
/// `FuelType::ALL` entry is the row's fuel, and every other slot as it
/// was (empty for a region-hour seen for the first time).
pub proof fn lemma_row_lands_in_its_fuel_slot(
    gs: Seq<MixView>,
    row: RawRow,
    region: Region,
    at: int,
    f: FuelType,
    b: u64,
)
    requires
        region_of_respondent(row.respondent@) == Some(region),
        period_spec(row.period@) == Ok::<int, Seq<char>>(at),
        classify_spec(row.fueltype@) == FuelClass::Generation(f),
        row.value == RowValue::Number(b),
        forall|j: int| 0 <= j < gs.len() ==> (#[trigger] gs[j]).generation.len() == 9,
    ensures
        step(gs, row) matches Ok(out) && ({
            let k = find_mix(gs, at, region);
            let before = if k < gs.len() {
                gs[k].generation
            } else {
                Seq::new(9, |i: int| Seq::<u64>::empty())
            };
            &&& k < out.len()
            &&& out[k].at == at
            &&& out[k].region == region
            &&& out[k].generation.len() == 9
            &&& forall|i: int|
                0 <= i < 9 ==> #[trigger] out[k].generation[i] == if FuelType::ALL@[i] == f {
                    before[i].push(b)
                } else {
                    before[i]
                }
        }),
{
    lemma_find_mix(gs, at, region);
    lemma_fuel_slot_is_its_position(f);
    assert(FuelClass::Generation(f) !is Storage);
}

/// `s` ends with `t`.
pub open spec fn ends_with(s: Seq<char>, t: Seq<char>) -> bool {
    t.len() <= s.len() && s.subrange(s.len() - t.len(), s.len() as int) == t
}

proof fn lemma_ends_with_concat(p: Seq<char>, q: Seq<char>)
    ensures
        ends_with(p + q, q),
{
    assert((p + q).subrange(p.len() as int, (p + q).len() as int) =~= q);
}

/// `nami status` flags a region STALE exactly when its newest sample is
/// older than the bound: a line whose newest sample is more than
/// `max_age` old ends with `STALE (> {max_age}h)`, and any other line
/// ends with the sample's age.
pub proof fn lemma_status_flags_stale_exactly_when_old(
    c: HistoricalCache,
    r: Region,
    now: int,
    max_age: int,
)
    requires
        region_obs(c.regions@, r).len() > 0,
    ensures
        ({
            let ns = region_obs(c.regions@, r).last().at;
            let line = region_line_text(c, r, now, max_age);
            &&& now - ns > max_age ==> ends_with(
                line,
                "  STALE (> "@ + signed_decimal(whole_hours(max_age)) + "h)"@ + "\n"@,
            )
            &&& now - ns <= max_age ==> ends_with(
                line,
                " (age "@ + signed_decimal(whole_hours(now - ns)) + "h)"@ + "\n"@,
            )
        }),
{
    let obs = region_obs(c.regions@, r);
    let ns = obs.last().at;
    let pre = "  "@ + pad_right(region_code(r), 6) + " "@ + pad_left(decimal(obs.len()), 5)
        + " obs, newest "@ + instant_rfc3339(ns);
    let age = " (age "@ + signed_decimal(whole_hours(now - ns)) + "h)"@;
    let stale = "  STALE (> "@ + signed_decimal(whole_hours(max_age)) + "h)"@;
    let line = region_line_text(c, r, now, max_age);
    if now - ns > max_age {
        assert(line =~= (pre + age) + (stale + "\n"@));
        lemma_ends_with_concat(pre + age, stale + "\n"@);
    } else {
        assert(line =~= pre + (age + "\n"@));
        lemma_ends_with_concat(pre, age + "\n"@);
    }
}

/// The forecast table's rows: one per point, in order.
pub open spec fn table_rows(ps: Seq<ForecastPoint>, fs: Seq<PointFigures>) -> Seq<Seq<char>> {
    Seq::new(ps.len(), |k: int| point_row(ps[k], fs[k]))
}

proof fn lemma_point_rows_flatten(ps: Seq<ForecastPoint>, fs: Seq<PointFigures>, n: int)
    requires
        0 <= n <= ps.len(),
    ensures
        point_rows(ps, fs, n) == Seq::new(n as nat, |k: int| point_row(ps[k], fs[k])).flatten(),
    decreases n,
{
    if n > 0 {
        lemma_point_rows_flatten(ps, fs, n - 1);
        let prev = Seq::new((n - 1) as nat, |k: int| point_row(ps[k], fs[k]));
        let cur = Seq::new(n as nat, |k: int| point_row(ps[k], fs[k]));
        assert(cur =~= prev.push(point_row(ps[n - 1], fs[n - 1])));
        prev.lemma_flatten_push(point_row(ps[n - 1], fs[n - 1]));
    } else {
        assert(Seq::new(0nat, |k: int| point_row(ps[k], fs[k])) =~= Seq::<Seq<char>>::empty());
    }
}

/// `nami forecast` prints exactly one table row per forecast point, in
/// the points' order, none dropped or repeated: the output ends with the
/// table header, the rows of all the points, a blank line and the
/// methodology lines.
pub proof fn lemma_forecast_table_has_a_row_per_point(
    region: Region,
    weeks: nat,
    horizon: int,
    has_history: bool,
    ps: Seq<ForecastPoint>,
    fs: Seq<PointFigures>,
)
    requires
        ps.len() > 0,
        fs.len() == ps.len(),
    ensures
        ends_with(
            forecast_text(region, weeks, horizon, has_history, ps, fs),
            table_header() + table_rows(ps, fs).flatten() + "\n"@ + "Methodology: "@
                + ps[0].methodology@ + "\n"@
                + "Hours with no matching samples are omitted, never invented.\n"@,
        ),
{
    lemma_point_rows_flatten(ps, fs, ps.len() as int);
    let code = region_code(region);
    let pre = "nami forecast — region "@ + code + " — "@ + decimal(ps.len()) + " point(s) over the next "@
        + dur_text(horizon) + "\n"@
        + "Basis: historical-pattern forecast (mean of matching hour-of-day / day-of-week / month samples, last "@
        + decimal(weeks) + " weeks).\n"@
        + "Estimated AVERAGE carbon intensity (gCO2/kWh), not marginal emissions. Cache-only basis caps confidence at Low.\n\n"@;
    let tail = table_header() + table_rows(ps, fs).flatten() + "\n"@ + "Methodology: "@
        + ps[0].methodology@ + "\n"@
        + "Hours with no matching samples are omitted, never invented.\n"@;
    assert(table_rows(ps, fs) == Seq::new(ps.len(), |k: int| point_row(ps[k], fs[k])));
    assert(forecast_text(region, weeks, horizon, has_history, ps, fs) =~= pre + tail);
    lemma_ends_with_concat(pre, tail);
}

} // verus!
