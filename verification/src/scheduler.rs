//! The best-window policy: score the run-now window and every hour-aligned
//! candidate against the hourly forecast, and pick the cleanest candidate
//! when it beats running now by the materiality threshold.
//!
//! Intensities are compared through their `Intensity` bit patterns; the
//! duration-weighted means and the percentage comparison against the
//! threshold are computed by the caller from the bucket weights produced
//! here.

use vstd::prelude::*;

use crate::cache::Intensity;
use crate::confidence::{most_conservative, rank, worse, Confidence, ConfidenceLevel};
use crate::decision::{JobSpec, RefuseReason, SchedulingDecision, StartReason};
use crate::instant::{
    checked_add, floor_hour_spec, floor_to_hour, valid_duration, valid_instant, MAX_INSTANT,
    NANOS_PER_HOUR,
};
use crate::text::{decimal, push_decimal, push_str};
use crate::window::{candidate_windows, first_start, window_count, windows_fail, CandidateWindow};
use vstd::string::StringExecFns;

verus! {

/// One point on the hourly forecast curve.
#[derive(Debug)]
pub struct ForecastPoint {
    /// UTC start of the hour this point covers (nanoseconds).
    pub at: i128,
    /// Modelled mean intensity for the hour.
    pub intensity: Intensity,
    /// Confidence and evidence behind the estimate.
    pub confidence: Confidence,
    /// Methodology label.
    pub methodology: String,
}

/// How much of a window falls into one forecast hour.
#[derive(Debug, Clone, Copy, PartialEq, Eq, Structural)]
pub struct BucketWeight {
    /// Index of the forecast point for the hour.
    pub point: usize,
    /// Nanoseconds of the window inside that hour.
    pub overlap: i128,
}

/// A scored window: the hours it overlaps and the aggregated confidence of
/// the forecast points behind them.
#[derive(Debug)]
pub struct WindowScore {
    /// One entry per overlapped hour, in time order.
    pub buckets: Vec<BucketWeight>,
    /// Most conservative level of the points, with their samples summed.
    pub confidence: Confidence,
}

/// Index of the first forecast point at `t` from index `i`, or the length.
pub open spec fn find_point(fc: Seq<ForecastPoint>, t: int, i: int) -> int
    decreases fc.len() - i,
{
    if i >= fc.len() {
        fc.len() as int
    } else if fc[i].at == t {
        i
    } else {
        find_point(fc, t, i + 1)
    }
}

/// Start of the `k`-th hour bucket a window starting at `start` touches.
pub open spec fn bucket_start(start: int, k: int) -> int {
    floor_hour_spec(start) + k * NANOS_PER_HOUR
}

/// Number of hour buckets starting before `end`.
pub open spec fn bucket_count(start: int, end: int) -> int {
    let f = floor_hour_spec(start);
    if end <= f {
        0
    } else {
        (end - f - 1) / (NANOS_PER_HOUR as int) + 1
    }
}

/// Every hour bucket of `[start, end)` has a forecast point and a
/// representable end.
pub open spec fn covered(fc: Seq<ForecastPoint>, start: int, end: int) -> bool {
    forall|k: int|
        0 <= k < bucket_count(start, end) ==> find_point(fc, #[trigger] bucket_start(start, k), 0)
            < fc.len() && valid_instant(bucket_start(start, k) + NANOS_PER_HOUR)
}

/// A window `[start, start + duration)` can be scored.
pub open spec fn scorable(fc: Seq<ForecastPoint>, start: int, duration: int) -> bool {
    &&& duration > 0
    &&& valid_instant(start + duration)
    &&& covered(fc, start, start + duration)
}

/// Most conservative level over the first `m` buckets (High when none).
pub open spec fn worst_level(fc: Seq<ForecastPoint>, start: int, m: int) -> ConfidenceLevel
    decreases m,
{
    if m <= 0 {
        ConfidenceLevel::High
    } else {
        worse(
            worst_level(fc, start, m - 1),
            fc[find_point(fc, bucket_start(start, m - 1), 0)].confidence.level,
        )
    }
}

/// Samples summed over the first `m` buckets.
pub open spec fn sample_total(fc: Seq<ForecastPoint>, start: int, m: int) -> int
    decreases m,
{
    if m <= 0 {
        0
    } else {
        sample_total(fc, start, m - 1) + fc[find_point(
            fc,
            bucket_start(start, m - 1),
            0,
        )].confidence.sample_count
    }
}

/// A sample total, saturated at `usize::MAX`.
pub open spec fn capped_count(n: int) -> int {
    if n > usize::MAX {
        usize::MAX as int
    } else {
        n
    }
}

/// `window confidence = most conservative of {n} hourly forecast point(s)`
pub open spec fn window_note(n: nat) -> Seq<char> {
    "window confidence = most conservative of "@ + decimal(n) + " hourly forecast point(s)"@
}

/// The score of a window is exactly described by the forecast.
pub open spec fn score_matches(
    s: WindowScore,
    fc: Seq<ForecastPoint>,
    start: int,
    duration: int,
) -> bool {
    let end = start + duration;
    let m = bucket_count(start, end);
    &&& s.buckets@.len() == m
    &&& forall|k: int|
        0 <= k < m ==> {
            let b = bucket_start(start, k);
            &&& (#[trigger] s.buckets@[k]).point == find_point(fc, b, 0)
            &&& s.buckets@[k].overlap == (if end < b + NANOS_PER_HOUR {
                end
            } else {
                b + NANOS_PER_HOUR
            }) - (if start > b {
                start
            } else {
                b
            })
        }
    &&& s.confidence.level == worst_level(fc, start, m)
    &&& s.confidence.sample_count == capped_count(sample_total(fc, start, m))
    &&& s.confidence.notes@.len() == 1
    &&& s.confidence.notes@[0]@ == window_note(m as nat)
}

fn find_point_exec(fc: &Vec<ForecastPoint>, t: i128) -> (i: usize)
    ensures
        i == find_point(fc@, t as int, 0),
{
    let mut i: usize = 0;
    while i < fc.len()
        invariant
            i <= fc@.len(),
            find_point(fc@, t as int, i as int) == find_point(fc@, t as int, 0),
        decreases fc@.len() - i,
    {
        if fc[i].at == t {
            return i;
        }
        i = i + 1;
    }
    i
}

pub(crate) proof fn lemma_bucket_count(start: int, end: int, k: int)
    requires
        k >= 0,
        valid_instant(start),
    ensures
        k < bucket_count(start, end) <==> bucket_start(start, k) < end,
{
    let h = NANOS_PER_HOUR as int;
    let f = floor_hour_spec(start);
    if end > f {
        let m = end - f - 1;
        vstd::arithmetic::div_mod::lemma_fundamental_div_mod(m, h);
        assert(k < m / h + 1 <==> k * h <= m) by (nonlinear_arith)
            requires
                m == h * (m / h) + m % h,
                0 <= m % h < h,
                k >= 0,
                h > 0,
        ;
    } else {
        assert(k * h >= 0) by (nonlinear_arith)
            requires
                k >= 0,
                h > 0,
        ;
    }
}

/// Fewer than `usize::MAX` buckets for any representable window.
pub(crate) proof fn lemma_bucket_count_small(start: int, end: int)
    requires
        valid_instant(start),
        valid_instant(end),
    ensures
        0 <= bucket_count(start, end) < 1_000_000_000,
{
    let h = NANOS_PER_HOUR as int;
    let f = floor_hour_spec(start);
    if end > f {
        assert((end - f - 1) / h <= 700_000_000) by (nonlinear_arith)
            requires
                0 <= end - f - 1 <= 700_000_000_000_000_000_000int,
                h == 3_600_000_000_000int,
        ;
    }
}

/// Score `[start, start + duration)` against the forecast: `None` when any
/// overlapped hour is missing from the forecast (no scoring on partial
/// data) or the duration is not positive.
#[verifier::loop_isolation(false)]
pub fn score_window(start: i128, duration: i128, forecast: &Vec<ForecastPoint>) -> (r: Option<
    WindowScore,
>)
    requires
        valid_instant(start as int),
        valid_duration(duration as int),
    ensures
        r is Some <==> scorable(forecast@, start as int, duration as int),
        r matches Some(s) ==> score_matches(s, forecast@, start as int, duration as int),
{
    let end = match checked_add(start, duration) {
        Some(e) => e,
        None => {
            return None;
        },
    };
    if duration <= 0 {
        return None;
    }
    let ghost m = bucket_count(start as int, end as int);
    proof {
        lemma_bucket_count_small(start as int, end as int);
    }
    let f = floor_to_hour(start);
    let mut bucket = f;
    let mut k: usize = 0;
    let mut buckets: Vec<BucketWeight> = Vec::new();
    let mut worst = ConfidenceLevel::High;
    let mut samples: u128 = 0;
    proof {
        lemma_bucket_count(start as int, end as int, 0);
    }
    while bucket < end
        invariant
            k <= m,
            m < 1_000_000_000,
            bucket == bucket_start(start as int, k as int),
            valid_instant(bucket as int),
            buckets@.len() == k,
            forall|j: int|
                0 <= j < k ==> find_point(forecast@, #[trigger] bucket_start(start as int, j), 0)
                    < forecast@.len() && valid_instant(bucket_start(start as int, j) + NANOS_PER_HOUR),
            forall|j: int|
                0 <= j < k ==> {
                    let b = bucket_start(start as int, j);
                    &&& (#[trigger] buckets@[j]).point == find_point(forecast@, b, 0)
                    &&& buckets@[j].overlap == (if end < b + NANOS_PER_HOUR {
                        end as int
                    } else {
                        b + NANOS_PER_HOUR
                    }) - (if start > b {
                        start as int
                    } else {
                        b
                    })
                },
            worst == worst_level(forecast@, start as int, k as int),
            samples == sample_total(forecast@, start as int, k as int),
            samples <= k * (usize::MAX as int),
            (bucket < end) == (k < m),
        decreases m - k,
    {
        proof {
            lemma_bucket_count(start as int, end as int, k as int);
            lemma_bucket_count(start as int, end as int, k + 1);
        }
        let bucket_end = match checked_add(bucket, NANOS_PER_HOUR) {
            Some(e) => e,
            None => {
                return None;
            },
        };
        let lo = if start > bucket {
            start
        } else {
            bucket
        };
        let hi = if end < bucket_end {
            end
        } else {
            bucket_end
        };
        let idx = find_point_exec(forecast, bucket);
        if idx >= forecast.len() {
            return None;
        }
        let p = &forecast[idx];
        buckets.push(BucketWeight { point: idx, overlap: hi - lo });
        worst = most_conservative(worst, p.confidence.level);
        assert(samples + p.confidence.sample_count <= (k + 1) * (usize::MAX as int))
            by (nonlinear_arith)
            requires
                samples <= k * (usize::MAX as int),
                p.confidence.sample_count <= usize::MAX,
        ;
        samples = samples + p.confidence.sample_count as u128;
        bucket = bucket_end;
        k = k + 1;
        proof {
            assert(bucket == bucket_start(start as int, k as int));
        }
    }
    assert(k == m);
    let count: usize = if samples > usize::MAX as u128 {
        usize::MAX
    } else {
        samples as usize
    };
    let mut note = String::from_str("window confidence = most conservative of ");
    push_decimal(&mut note, k as u128);
    push_str(&mut note, " hourly forecast point(s)");
    let mut notes: Vec<String> = Vec::new();
    notes.push(note);
    Some(
        WindowScore {
            buckets,
            confidence: Confidence { level: worst, sample_count: count, notes },
        },
    )
}

} // verus!

verus! {

/// A deferred candidate that the forecast could score.
#[derive(Debug)]
pub struct ScoredCandidate {
    /// Hour-aligned start (UTC nanoseconds).
    pub start: i128,
    /// Its score.
    pub score: WindowScore,
}

/// The first stage of a best-window decision: either already decided, or
/// the run-now baseline and the scorable candidates to compare.
#[derive(Debug)]
pub enum Plan {
    /// The decision needs no comparison of intensities.
    Decided(SchedulingDecision),
    /// Compare the candidates' mean intensities against running now.
    Compare { run_now: WindowScore, candidates: Vec<ScoredCandidate> },
}

/// `{n} candidate window(s) unscorable (forecast gaps); no trustworthy cleaner window`
pub open spec fn unscorable_note(n: nat) -> Seq<char> {
    decimal(n) + " candidate window(s) unscorable (forecast gaps); no trustworthy cleaner window"@
}

/// The candidate starts (in order) that the forecast can score.
pub open spec fn scorable_starts(
    fc: Seq<ForecastPoint>,
    now: int,
    deadline: int,
    d: int,
) -> Seq<int> {
    Seq::new(
        window_count(now, deadline, d) as nat,
        |i: int| first_start(now) + i * NANOS_PER_HOUR,
    ).filter(|s: int| scorable(fc, s, d))
}

/// A confidence equals the aggregate of the buckets of a window.
pub open spec fn window_confidence(c: Confidence, fc: Seq<ForecastPoint>, start: int, d: int) -> bool {
    let m = bucket_count(start, start + d);
    &&& c.level == worst_level(fc, start, m)
    &&& c.sample_count == capped_count(sample_total(fc, start, m))
    &&& c.notes@.len() >= 1
    &&& c.notes@[0]@ == window_note(m as nat)
}

/// The first stage of the best-window policy.
///
/// Refuses when the job cannot run now and finish by the deadline, when the
/// forecast is empty or does not cover the run-now window (no baseline to
/// measure improvement against); runs immediately when no hour-aligned
/// deferral fits (`DeadlineTooSoon`) or none can be scored; otherwise hands
/// back the run-now score and the scorable candidates, in start order.
#[verifier::loop_isolation(false)]
pub fn plan_decision(job: &JobSpec, forecast: &Vec<ForecastPoint>, now: i128) -> (p: Plan)
    requires
        valid_instant(now as int),
        valid_instant(job.deadline as int),
        valid_duration(job.estimated_duration as int),
    ensures
        ({
            let d = job.estimated_duration as int;
            let dl = job.deadline as int;
            let n = now as int;
            let fc = forecast@;
            if !valid_instant(n + d) || n + d > dl {
                p == Plan::Decided(
                    SchedulingDecision::Refuse { reason: RefuseReason::NoWindowBeforeDeadline },
                )
            } else if fc.len() == 0 || !scorable(fc, n, d) {
                p == Plan::Decided(
                    SchedulingDecision::Refuse { reason: RefuseReason::ForecastTooUncertain },
                )
            } else if windows_fail(n, dl, d) {
                p == Plan::Decided(
                    SchedulingDecision::Refuse { reason: RefuseReason::NoWindowBeforeDeadline },
                )
            } else if window_count(n, dl, d) == 0 {
                p matches Plan::Decided(
                    SchedulingDecision::StartImmediately { reason, confidence },
                ) && reason == StartReason::DeadlineTooSoon && window_confidence(
                    confidence,
                    fc,
                    n,
                    d,
                ) && confidence.notes@.len() == 1
            } else if scorable_starts(fc, n, dl, d).len() == 0 {
                p matches Plan::Decided(
                    SchedulingDecision::StartImmediately { reason, confidence },
                ) && reason == StartReason::RunNowAlreadyCleanest && window_confidence(
                    confidence,
                    fc,
                    n,
                    d,
                ) && confidence.notes@.len() == 2 && confidence.notes@[1]@ == unscorable_note(
                    window_count(n, dl, d) as nat,
                )
            } else {
                p matches Plan::Compare { run_now, candidates } && score_matches(run_now, fc, n, d)
                    && candidates@.len() == scorable_starts(fc, n, dl, d).len() && forall|i: int|
                    0 <= i < candidates@.len() ==> (#[trigger] candidates@[i]).start
                        == scorable_starts(fc, n, dl, d)[i] && score_matches(
                        candidates@[i].score,
                        fc,
                        candidates@[i].start as int,
                        d,
                    )
            }
        }),
{
    let d = job.estimated_duration;
    let run_now_end = match checked_add(now, d) {
        Some(e) => e,
        None => {
            return Plan::Decided(
                SchedulingDecision::Refuse { reason: RefuseReason::NoWindowBeforeDeadline },
            );
        },
    };
    if run_now_end > job.deadline {
        return Plan::Decided(
            SchedulingDecision::Refuse { reason: RefuseReason::NoWindowBeforeDeadline },
        );
    }
    if forecast.len() == 0 {
        return Plan::Decided(
            SchedulingDecision::Refuse { reason: RefuseReason::ForecastTooUncertain },
        );
    }
    let run_now = match score_window(now, d, forecast) {
        Some(s) => s,
        None => {
            return Plan::Decided(
                SchedulingDecision::Refuse { reason: RefuseReason::ForecastTooUncertain },
            );
        },
    };
    let windows = match candidate_windows(now, job.deadline, d) {
        Ok(w) => w,
        Err(_) => {
            return Plan::Decided(
                SchedulingDecision::Refuse { reason: RefuseReason::NoWindowBeforeDeadline },
            );
        },
    };
    if windows.len() == 0 {
        return Plan::Decided(
            SchedulingDecision::StartImmediately {
                reason: StartReason::DeadlineTooSoon,
                confidence: run_now.confidence,
            },
        );
    }
    let ghost all_starts = Seq::new(
        window_count(now as int, job.deadline as int, d as int) as nat,
        |i: int| first_start(now as int) + i * NANOS_PER_HOUR,
    );
    let ghost pred = |s: int| scorable(forecast@, s, d as int);
    let mut candidates: Vec<ScoredCandidate> = Vec::new();
    let mut i: usize = 0;
    while i < windows.len()
        invariant
            i <= windows@.len(),
            windows@.len() == all_starts.len(),
            forall|j: int| 0 <= j < windows@.len() ==> #[trigger] windows@[j].start == all_starts[j],
            candidates@.len() == all_starts.take(i as int).filter(pred).len(),
            forall|j: int|
                0 <= j < candidates@.len() ==> (#[trigger] candidates@[j]).start == all_starts.take(
                    i as int,
                ).filter(pred)[j] && score_matches(
                    candidates@[j].score,
                    forecast@,
                    candidates@[j].start as int,
                    d as int,
                ),
        decreases windows@.len() - i,
    {
        let w = windows[i];
        proof {
            reveal_with_fuel(Seq::<_>::filter, 1);
            assert(all_starts.take(i + 1).drop_last() =~= all_starts.take(i as int));
            crate::window::lemma_windows_sound_and_complete(
                now as int,
                job.deadline as int,
                d as int,
                0,
            );
            assert(w.start == first_start(now as int) + i * NANOS_PER_HOUR);
            assert(valid_instant(w.start as int));
        }
        match score_window(w.start, d, forecast) {
            Some(s) => {
                candidates.push(ScoredCandidate { start: w.start, score: s });
            },
            None => {},
        }
        i = i + 1;
        proof {
            assert(all_starts.take(i as int).filter(pred) == (if pred(all_starts[i - 1]) {
                all_starts.take(i - 1).filter(pred).push(all_starts[i - 1])
            } else {
                all_starts.take(i - 1).filter(pred)
            }));
        }
    }
    proof {
        assert(all_starts.take(i as int) =~= all_starts);
    }
    if candidates.len() == 0 {
        let mut confidence = run_now.confidence;
        let mut note = String::new();
        push_decimal(&mut note, windows.len() as u128);
        push_str(
            &mut note,
            " candidate window(s) unscorable (forecast gaps); no trustworthy cleaner window",
        );
        confidence.notes.push(note);
        return Plan::Decided(
            SchedulingDecision::StartImmediately {
                reason: StartReason::RunNowAlreadyCleanest,
                confidence,
            },
        );
    }
    Plan::Compare { run_now, candidates }
}

/// Index of the lowest key; ties resolve to the earliest index.
pub fn lowest_index(keys: &Vec<u64>) -> (r: Option<usize>)
    ensures
        r is None <==> keys@.len() == 0,
        r matches Some(i) ==> {
            &&& i < keys@.len()
            &&& forall|j: int| 0 <= j < keys@.len() ==> keys@[i as int] <= keys@[j]
            &&& forall|j: int| 0 <= j < i ==> keys@[j] > keys@[i as int]
        },
{
    if keys.len() == 0 {
        return None;
    }
    let mut best: usize = 0;
    let mut j: usize = 1;
    while j < keys.len()
        invariant
            1 <= j <= keys@.len(),
            best < j,
            forall|k: int| 0 <= k < j ==> keys@[best as int] <= keys@[k],
            forall|k: int| 0 <= k < best ==> keys@[k] > keys@[best as int],
        decreases keys@.len() - j,
    {
        if keys[j] < keys[best] {
            best = j;
        }
        j = j + 1;
    }
    Some(best)
}

/// The second stage: with the materially-cleaner candidate (if any)
/// chosen by the caller, defer to it; otherwise run now because running
/// now is already (within the threshold) the cleanest option.
pub fn conclude(run_now: WindowScore, candidates: Vec<ScoredCandidate>, winner: Option<usize>) -> (d:
    SchedulingDecision)
    requires
        winner matches Some(i) ==> i < candidates@.len(),
    ensures
        winner matches Some(i) ==> d == (SchedulingDecision::StartAt {
            start_time: candidates@[i as int].start,
            reason: StartReason::LowestEstimatedIntensity,
            confidence: candidates@[i as int].score.confidence,
        }),
        winner is None ==> d == (SchedulingDecision::StartImmediately {
            reason: StartReason::RunNowAlreadyCleanest,
            confidence: run_now.confidence,
        }),
{
    match winner {
        Some(i) => {
            let mut candidates = candidates;
            let c = candidates.remove(i);
            SchedulingDecision::StartAt {
                start_time: c.start,
                reason: StartReason::LowestEstimatedIntensity,
                confidence: c.score.confidence,
            }
        },
        None => SchedulingDecision::StartImmediately {
            reason: StartReason::RunNowAlreadyCleanest,
            confidence: run_now.confidence,
        },
    }
}

} // verus!
