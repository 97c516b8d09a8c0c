use nami::cache::Intensity;
use nami::confidence::{Confidence, ConfidenceLevel};
use nami::decision::{JobSpec, RefuseReason, SchedulingDecision, StartReason};
use nami::region::Region;
use nami::scheduler::{conclude, lowest_index, plan_decision, score_window, ForecastPoint, Plan, WindowScore};

const H: i128 = 3_600_000_000_000;

fn at(y: i32, mo: u8, d: u8, h: u8, mi: u8) -> i128 {
    let date = time::Date::from_calendar_date(y, time::Month::try_from(mo).unwrap(), d).unwrap();
    let t = time::Time::from_hms(h, mi, 0).unwrap();
    time::OffsetDateTime::new_utc(date, t).unix_timestamp_nanos()
}

fn now() -> i128 {
    at(2026, 5, 20, 10, 0)
}

fn fp(t: i128, v: f64, level: ConfidenceLevel) -> ForecastPoint {
    ForecastPoint {
        at: t,
        intensity: Intensity { bits: v.to_bits() },
        confidence: Confidence { level, sample_count: 5, notes: vec![] },
        methodology: "test".into(),
    }
}

fn job(deadline_hours: i128, dur_h: i128) -> JobSpec {
    JobSpec { command: vec!["x".into()], estimated_duration: dur_h * H, deadline: now() + deadline_hours * H, region: Region::Caiso }
}

/// Duration-weighted mean intensity of a scored window.
fn mean(s: &WindowScore, fc: &[ForecastPoint]) -> f64 {
    let mut num = 0.0;
    let mut den = 0.0;
    for b in &s.buckets {
        let w = b.overlap as f64;
        num += w * f64::from_bits(fc[b.point].intensity.bits);
        den += w;
    }
    num / den
}

/// The whole best-window decision with the default 5% threshold.
fn decide(j: &JobSpec, fc: &Vec<ForecastPoint>, t: i128) -> SchedulingDecision {
    match plan_decision(j, fc, t) {
        Plan::Decided(d) => d,
        Plan::Compare { run_now, candidates } => {
            let rn = mean(&run_now, fc);
            let keys: Vec<u64> = candidates.iter().map(|c| mean(&c.score, fc).to_bits()).collect();
            let best = lowest_index(&keys).unwrap();
            let best_mean = f64::from_bits(keys[best]);
            let winner = if rn > 0.0 && (rn - best_mean) / rn * 100.0 >= f64::from_bits(nami::run_report::DEFAULT_MATERIALITY_BITS) { Some(best) } else { None };
            conclude(run_now, candidates, winner)
        }
    }
}

#[test]
fn picks_materially_cleaner_window() {
    let mut fc: Vec<ForecastPoint> = (0..10).map(|h| fp(now() + h * H, 400.0, ConfidenceLevel::Low)).collect();
    fc[4] = fp(now() + 4 * H, 280.0, ConfidenceLevel::Low);
    match decide(&job(10, 1), &fc, now()) {
        SchedulingDecision::StartAt { start_time, reason, .. } => {
            assert_eq!(start_time, at(2026, 5, 20, 14, 0));
            assert_eq!(reason, StartReason::LowestEstimatedIntensity);
        }
        other => panic!("expected StartAt, got {other:?}"),
    }
}

#[test]
fn sub_threshold_runs_now() {
    let mut fc: Vec<ForecastPoint> = (0..10).map(|h| fp(now() + h * H, 400.0, ConfidenceLevel::Low)).collect();
    fc[4] = fp(now() + 4 * H, 396.0, ConfidenceLevel::Low);
    assert!(matches!(
        decide(&job(10, 1), &fc, now()),
        SchedulingDecision::StartImmediately { reason: StartReason::RunNowAlreadyCleanest, .. }
    ));
}

#[test]
fn empty_forecast_refuses() {
    assert!(matches!(
        decide(&job(10, 1), &vec![], now()),
        SchedulingDecision::Refuse { reason: RefuseReason::ForecastTooUncertain }
    ));
}

#[test]
fn missing_run_now_baseline_refuses() {
    let fc: Vec<ForecastPoint> = (3..10).map(|h| fp(now() + h * H, 300.0, ConfidenceLevel::Low)).collect();
    assert!(matches!(
        decide(&job(10, 1), &fc, now()),
        SchedulingDecision::Refuse { reason: RefuseReason::ForecastTooUncertain }
    ));
}

#[test]
fn cannot_finish_before_deadline_refuses() {
    let fc = vec![fp(now(), 400.0, ConfidenceLevel::Low)];
    assert!(matches!(
        decide(&job(1, 2), &fc, now()),
        SchedulingDecision::Refuse { reason: RefuseReason::NoWindowBeforeDeadline }
    ));
}

#[test]
fn no_room_to_defer_starts_immediately_deadline_too_soon() {
    let t = at(2026, 5, 20, 10, 30);
    let jb = JobSpec { command: vec!["x".into()], estimated_duration: H, deadline: at(2026, 5, 20, 11, 45), region: Region::Caiso };
    let fc = vec![fp(at(2026, 5, 20, 10, 0), 400.0, ConfidenceLevel::Low), fp(at(2026, 5, 20, 11, 0), 400.0, ConfidenceLevel::Low)];
    assert!(matches!(
        decide(&jb, &fc, t),
        SchedulingDecision::StartImmediately { reason: StartReason::DeadlineTooSoon, .. }
    ));
}

#[test]
fn candidates_unscorable_runs_now() {
    let t = at(2026, 5, 20, 10, 30);
    let jb = JobSpec { command: vec!["x".into()], estimated_duration: 20 * 60_000_000_000, deadline: at(2026, 5, 20, 20, 0), region: Region::Caiso };
    let fc = vec![fp(at(2026, 5, 20, 10, 0), 400.0, ConfidenceLevel::Low)];
    match decide(&jb, &fc, t) {
        SchedulingDecision::StartImmediately { reason: StartReason::RunNowAlreadyCleanest, confidence } => {
            assert!(confidence.notes.iter().any(|n| n.contains("unscorable")))
        }
        other => panic!("expected StartImmediately/RunNowAlreadyCleanest, got {other:?}"),
    }
}

#[test]
fn window_confidence_is_most_conservative() {
    let fc = vec![
        fp(now(), 400.0, ConfidenceLevel::Medium),
        fp(now() + H, 400.0, ConfidenceLevel::Low),
        fp(now() + 2 * H, 400.0, ConfidenceLevel::Medium),
    ];
    let c = match decide(&job(3, 2), &fc, now()) {
        SchedulingDecision::StartImmediately { confidence, .. } => confidence,
        SchedulingDecision::StartAt { confidence, .. } => confidence,
        other => panic!("unexpected {other:?}"),
    };
    assert_eq!(c.level, ConfidenceLevel::Low);
    assert_eq!(c.sample_count, 10);
}

#[test]
fn ties_resolve_to_earliest_index() {
    assert_eq!(lowest_index(&vec![5, 3, 3, 7]), Some(1));
    assert_eq!(lowest_index(&vec![]), None);
}

#[test]
fn window_shares_add_up_to_the_duration() {
    let fc: Vec<ForecastPoint> = (0..5).map(|h| fp(now() + h * H, 400.0, ConfidenceLevel::Low)).collect();
    let start = at(2026, 5, 20, 10, 30);
    let s = score_window(start, 2 * H, &fc).unwrap();
    let shares: Vec<i128> = s.buckets.iter().map(|b| b.overlap).collect();
    assert_eq!(shares, vec![H / 2, H, H / 2]);
    assert_eq!(shares.iter().sum::<i128>(), 2 * H);
}
