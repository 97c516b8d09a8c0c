//! Sample selection for the historical-pattern forecast: for each hour of
//! the horizon, the cached observations from the look-back window that
//! share its hour of day, day of week and month.
//!
//! The mean, standard deviation and interval of the selected samples are
//! computed by the caller; hours with no matching sample are omitted,
//! never invented.

use vstd::prelude::*;

use crate::cache::{region_obs, CarbonObservation, HistoricalCache};
use crate::confidence::DataFreshness;
use crate::instant::{
    checked_add, floor_to_hour, valid_duration, valid_instant, MIN_INSTANT, NANOS_PER_DAY,
    NANOS_PER_HOUR, NANOS_PER_SECOND,
};
use crate::region::Region;
use crate::scheduler::{bucket_count, bucket_start};
use crate::text::{decimal, push_decimal, push_str};
use crate::timefmt::{utc_date, utc_date_of};
use vstd::string::StringExecFns;

verus! {

/// Default look-back window, in weeks.
pub const DEFAULT_FORECAST_WEEKS: u32 = 8;

/// Nanoseconds in one week.
pub const NANOS_PER_WEEK: i128 = 604_800_000_000_000;

/// Hour of day (0 through 23) of an instant.
pub open spec fn hour_of(t: int) -> int {
    (t % (NANOS_PER_DAY as int)) / (NANOS_PER_HOUR as int)
}

/// Day of week of an instant, as a residue of the day count mod 7.
pub open spec fn weekday_of(t: int) -> int {
    (t / (NANOS_PER_DAY as int)) % 7
}

/// Month (1 through 12) of an instant.
pub open spec fn month_of(t: int) -> int {
    utc_date_of((t / (NANOS_PER_SECOND as int)) as i64).1 as int
}

/// Same hour of day, day of week, and month.
pub open spec fn same_slot(a: int, b: int) -> bool {
    hour_of(a) == hour_of(b) && weekday_of(a) == weekday_of(b) && month_of(a) == month_of(b)
}

/// Observation `o` is a sample for the hour at `at`: inside the look-back
/// window `(ws, now]` and in the same slot.
pub open spec fn is_sample(o: CarbonObservation, at: int, ws: int, now: int) -> bool {
    ws < o.at <= now && same_slot(o.at as int, at)
}

/// Indices (ascending) of the samples for the hour at `at`.
pub open spec fn sample_indices(obs: Seq<CarbonObservation>, at: int, ws: int, now: int) -> Seq<int> {
    Seq::new(obs.len(), |i: int| i).filter(|i: int| is_sample(obs[i], at, ws, now))
}

/// `historical-pattern-mean-{weeks}w-hour-dow-month-v1`
pub open spec fn methodology_text(weeks: nat) -> Seq<char> {
    "historical-pattern-mean-"@ + decimal(weeks) + "w-hour-dow-month-v1"@
}

/// The methodology label for a look-back of `weeks`.
pub fn methodology_label(weeks: u32) -> (s: String)
    ensures
        s@ == methodology_text(weeks as nat),
{
    let mut s = String::from_str("historical-pattern-mean-");
    push_decimal(&mut s, weeks as u128);
    push_str(&mut s, "w-hour-dow-month-v1");
    s
}

/// One estimable hour: its start and the indices of its samples in the
/// region's observations.
#[derive(Debug)]
pub struct HourSamples {
    /// UTC start of the hour (nanoseconds).
    pub at: i128,
    /// Indices into the region's observations, ascending.
    pub samples: Vec<usize>,
}

/// What the forecast is computed from.
#[derive(Debug)]
pub struct ForecastBasis {
    /// Estimable hours, ascending; hours without samples are absent.
    pub hours: Vec<HourSamples>,
    /// Always `HistoricalCacheOnly` with the region's newest sample.
    pub freshness: DataFreshness,
    /// Methodology label embedding the look-back in weeks.
    pub label: String,
}

pub(crate) fn hour_of_exec(t: i128) -> (h: i128)
    ensures
        h == hour_of(t as int),
{
    let r = t.checked_rem_euclid(NANOS_PER_DAY).unwrap();
    r / NANOS_PER_HOUR
}

fn weekday_of_exec(t: i128) -> (w: i128)
    ensures
        w == weekday_of(t as int),
{
    let d = t.checked_div_euclid(NANOS_PER_DAY).unwrap();
    d.checked_rem_euclid(7).unwrap()
}

fn month_of_exec(t: i128) -> (m: u8)
    requires
        valid_instant(t as int),
    ensures
        m == month_of(t as int),
{
    let s = t.checked_div_euclid(NANOS_PER_SECOND).unwrap();
    assert(-377_705_116_800 <= s <= 253_402_300_799) by (nonlinear_arith)
        requires
            s == (t as int) / 1_000_000_000int,
            -377_705_116_800_000_000_000int <= t <= 253_402_300_799_999_999_999int,
    ;
    utc_date(s as i64).1
}

/// Indices of the samples for the hour at `at`.
#[verifier::loop_isolation(false)]
fn samples_for(obs: &[CarbonObservation], at: i128, ws: i128, now: i128) -> (r: Vec<usize>)
    requires
        valid_instant(at as int),
        forall|k: int| 0 <= k < obs@.len() ==> valid_instant(#[trigger] obs@[k].at as int),
    ensures
        r@.map_values(|i: usize| i as int) == sample_indices(obs@, at as int, ws as int, now as int),
{
    let ghost all = Seq::new(obs@.len(), |i: int| i);
    let ghost pred = |i: int| is_sample(obs@[i], at as int, ws as int, now as int);
    let h = hour_of_exec(at);
    let w = weekday_of_exec(at);
    let m = month_of_exec(at);
    let mut r: Vec<usize> = Vec::new();
    let mut i: usize = 0;
    while i < obs.len()
        invariant
            i <= obs@.len(),
            r@.map_values(|i: usize| i as int) == all.take(i as int).filter(pred),
        decreases obs@.len() - i,
    {
        let t = obs[i].at;
        proof {
            assert(valid_instant(obs@[i as int].at as int));
        }
        let hit = ws < t && t <= now && hour_of_exec(t) == h && weekday_of_exec(t) == w
            && month_of_exec(t) == m;
        proof {
            reveal_with_fuel(Seq::<_>::filter, 1);
            assert(all.take(i + 1).drop_last() =~= all.take(i as int));
            assert(all[i as int] == i);
            assert(hit == pred(i as int));
        }
        if hit {
            r.push(i);
        }
        proof {
            assert(r@.map_values(|i: usize| i as int) =~= all.take(i + 1).filter(pred));
        }
        i = i + 1;
    }
    proof {
        assert(all.take(i as int) =~= all);
    }
    r
}

/// The hours of the horizon (ascending) that have at least one sample.
pub open spec fn estimable_hours(
    obs: Seq<CarbonObservation>,
    start: int,
    end: int,
    ws: int,
    now: int,
) -> Seq<int> {
    Seq::new(bucket_count(start, end) as nat, |k: int| bucket_start(start, k)).filter(
        |t: int| sample_indices(obs, t, ws, now).len() > 0,
    )
}

/// Select, for each hour in `[floor_hour(start), start + duration)`, the
/// region's cached samples from the last `weeks` weeks ending at `now` that
/// share the hour's hour of day, day of week and month. `None` (nothing to
/// forecast) when the region has no history or the look-back start is not
/// representable.
pub fn forecast_basis(
    cache: &HistoricalCache,
    region: Region,
    start: i128,
    duration: i128,
    now: i128,
    weeks: u32,
) -> (r: Option<ForecastBasis>)
    requires
        valid_instant(start as int),
        valid_instant(start + duration),
        valid_instant(now as int),
        forall|k: int|
            0 <= k < region_obs(cache.regions@, region).len() ==> valid_instant(
                #[trigger] region_obs(cache.regions@, region)[k].at as int,
            ),
    ensures
        ({
            let obs = region_obs(cache.regions@, region);
            let ws = now - weeks * NANOS_PER_WEEK;
            if obs.len() == 0 || !valid_instant(ws) {
                r is None
            } else {
                r matches Some(b) && b.freshness == (DataFreshness::HistoricalCacheOnly {
                    newest_sample_at: obs.last().at,
                }) && b.label@ == methodology_text(weeks as nat) && b.hours@.len()
                    == estimable_hours(obs, start as int, start + duration, ws, now as int).len()
                    && forall|k: int|
                    0 <= k < b.hours@.len() ==> (#[trigger] b.hours@[k]).at == estimable_hours(
                        obs,
                        start as int,
                        start + duration,
                        ws,
                        now as int,
                    )[k] && b.hours@[k].samples@.map_values(|i: usize| i as int)
                        == sample_indices(obs, b.hours@[k].at as int, ws, now as int)
            }
        }),
{
    let obs = cache.observations(region);
    let newest = match cache.newest_sample(region) {
        Some(t) => t,
        None => {
            return None;
        },
    };
    let back = (weeks as i128) * NANOS_PER_WEEK;
    let ws = now - back;
    if ws < MIN_INSTANT {
        return None;
    }
    let end = start + duration;
    let mut at = floor_to_hour(start);
    let label = methodology_label(weeks);
    let ghost hours_all = Seq::new(
        bucket_count(start as int, end as int) as nat,
        |k: int| bucket_start(start as int, k),
    );
    let ghost pred = |t: int| sample_indices(obs@, t, ws as int, now as int).len() > 0;
    let ghost m = bucket_count(start as int, end as int);
    proof {
        crate::scheduler::lemma_bucket_count_small(start as int, end as int);
    }
    let mut hours: Vec<HourSamples> = Vec::new();
    let mut k: usize = 0;
    while at < end
        invariant_except_break
            at == bucket_start(start as int, k as int),
            valid_instant(at as int),
            (at < end) == (k < m),
        invariant
            k <= m,
            m < 1_000_000_000,
            m == bucket_count(start as int, end as int),
            end == start + duration,
            valid_instant(start as int),
            valid_instant(end as int),
            hours_all == Seq::new(
                bucket_count(start as int, end as int) as nat,
                |k: int| bucket_start(start as int, k),
            ),
            pred == (|t: int| sample_indices(obs@, t, ws as int, now as int).len() > 0),
            forall|j: int| 0 <= j < obs@.len() ==> valid_instant(#[trigger] obs@[j].at as int),
            hours@.len() == hours_all.take(k as int).filter(pred).len(),
            forall|j: int|
                0 <= j < hours@.len() ==> (#[trigger] hours@[j]).at == hours_all.take(k as int).filter(
                    pred,
                )[j] && hours@[j].samples@.map_values(|i: usize| i as int) == sample_indices(
                    obs@,
                    hours@[j].at as int,
                    ws as int,
                    now as int,
                ),
        ensures
            k == m,
        decreases m - k,
    {
        proof {
            crate::scheduler::lemma_bucket_count(start as int, end as int, k as int);
            crate::scheduler::lemma_bucket_count(start as int, end as int, k + 1);
            reveal_with_fuel(Seq::<_>::filter, 1);
            assert(hours_all.take(k + 1).drop_last() =~= hours_all.take(k as int));
            assert(hours_all[k as int] == at);
        }
        let samples = samples_for(obs, at, ws, now);
        let found = samples.len() > 0;
        if found {
            hours.push(HourSamples { at, samples });
        }
        k = k + 1;
        match checked_add(at, NANOS_PER_HOUR) {
            Some(next) => {
                at = next;
            },
            None => {
                proof {
                    crate::scheduler::lemma_bucket_count(start as int, end as int, k as int);
                }
                break;
            },
        }
    }
    proof {
        assert(hours_all.take(k as int) =~= hours_all);
    }
    Some(
        ForecastBasis {
            hours,
            freshness: DataFreshness::HistoricalCacheOnly { newest_sample_at: newest },
            label,
        },
    )
}

} // verus!
