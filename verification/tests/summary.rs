use nami::cache::Intensity;
use nami::confidence::{Confidence, ConfidenceLevel, DataFreshness, DataGranularity};
use nami::decision::{RefuseReason, SchedulingDecision, StartReason};
use nami::region::Region;
use nami::run_report::{Percent, ProviderInfo, RunReport, WindowEstimate};
use nami::summary::{bump_confidence, empty_confidence_buckets, is_in_window, render, summarize, ImprovementFigures, Summary};

const H: i128 = 3_600_000_000_000;

fn at(y: i32, mo: u8, d: u8, h: u8) -> i128 {
    let date = time::Date::from_calendar_date(y, time::Month::try_from(mo).unwrap(), d).unwrap();
    let t = time::Time::from_hms(h, 0, 0).unwrap();
    time::OffsetDateTime::new_utc(date, t).unix_timestamp_nanos()
}

fn now() -> i128 {
    at(2026, 5, 20, 12)
}

fn base_report(region: Region) -> RunReport {
    RunReport {
        command: "python".into(),
        args: vec!["train.py".into()],
        region,
        deadline: at(2026, 5, 20, 18),
        deadline_offset: 0,
        estimated_duration: H,
        decision: SchedulingDecision::Refuse { reason: RefuseReason::NoWindowBeforeDeadline },
        run_now_estimate: None,
        selected_window_estimate: None,
        estimated_improvement_pct: None,
        materiality_threshold_pct: Percent { bits: 5.0f64.to_bits() },
        provider: ProviderInfo { name: "static-fallback".into(), capabilities: vec![], granularity: DataGranularity::Annual, expected_lag: None },
        data_freshness: DataFreshness::StaticFallbackOnly,
        methodology_version: "test-v1".into(),
        warnings: vec![],
        submitted_at: at(2026, 5, 20, 11),
        started_at: None,
        finished_at: None,
        wall_duration: None,
        exit_code: None,
    }
}

fn conf(level: ConfidenceLevel, n: usize) -> Confidence {
    Confidence { level, sample_count: n, notes: vec![] }
}

fn deferred(region: Region, improvement: f64, level: ConfidenceLevel) -> RunReport {
    let mut r = base_report(region);
    r.decision = SchedulingDecision::StartAt {
        start_time: at(2026, 5, 20, 15),
        reason: StartReason::LowestEstimatedIntensity,
        confidence: conf(level, 6),
    };
    r.estimated_improvement_pct = Some(Percent { bits: improvement.to_bits() });
    r.selected_window_estimate = Some(WindowEstimate {
        start: at(2026, 5, 20, 15),
        duration: H,
        mean_intensity: Intensity { bits: 280.0f64.to_bits() },
        confidence: conf(level, 6),
    });
    r
}

fn ran_now(region: Region, level: ConfidenceLevel) -> RunReport {
    let mut r = base_report(region);
    r.decision = SchedulingDecision::StartImmediately { reason: StartReason::RunNowAlreadyCleanest, confidence: conf(level, 3) };
    r
}

fn refused(region: Region, reason: RefuseReason) -> RunReport {
    let mut r = base_report(region);
    r.decision = SchedulingDecision::Refuse { reason };
    r
}

fn count(s: &Summary, code: &str) -> usize {
    let order = ["CAISO", "ERCOT", "ISONE", "MISO", "NYISO", "PJM", "SPP"];
    s.regions[order.iter().position(|c| *c == code).unwrap()]
}

/// Mean, median, min, max of the improvements, one decimal each.
fn stats(s: &Summary) -> ImprovementFigures {
    let mut xs: Vec<f64> = s.improvement_pcts.iter().map(|p| f64::from_bits(p.bits)).collect();
    if xs.is_empty() {
        return ImprovementFigures { mean: String::new(), median: String::new(), min: String::new(), max: String::new() };
    }
    let mean = xs.iter().sum::<f64>() / xs.len() as f64;
    xs.sort_by(|a, b| a.partial_cmp(b).unwrap());
    let n = xs.len();
    let median = if n % 2 == 0 { (xs[n / 2 - 1] + xs[n / 2]) / 2.0 } else { xs[n / 2] };
    ImprovementFigures {
        mean: format!("{mean:.1}"),
        median: format!("{median:.1}"),
        min: format!("{:.1}", xs[0]),
        max: format!("{:.1}", xs[n - 1]),
    }
}

#[test]
fn empty_input_yields_zero_counts() {
    let s = summarize(&vec![], at(2026, 4, 20, 0), now(), None, "/tmp/reports".into(), 0);
    assert_eq!((s.total, s.deferred, s.run_immediately, s.refused), (0, 0, 0, 0));
    assert!(s.regions.iter().all(|n| *n == 0));
    assert!(s.improvement_pcts.is_empty());
}

#[test]
fn aggregates_a_mixed_set() {
    let reports = vec![
        deferred(Region::Caiso, 18.0, ConfidenceLevel::Medium),
        deferred(Region::Caiso, 12.0, ConfidenceLevel::Low),
        ran_now(Region::Miso, ConfidenceLevel::Low),
        ran_now(Region::Caiso, ConfidenceLevel::Medium),
        refused(Region::Miso, RefuseReason::NoWindowBeforeDeadline),
    ];
    let s = summarize(&reports, at(2026, 4, 20, 0), now(), None, "/tmp/reports".into(), 0);
    assert_eq!(s.total, 5);
    assert_eq!((s.deferred, s.run_immediately, s.refused), (2, 2, 1));
    assert_eq!(count(&s, "CAISO"), 3);
    assert_eq!(count(&s, "MISO"), 2);
    assert_eq!(s.confidence[1], 2);
    assert_eq!(s.confidence[2], 2);
    assert_eq!(s.improvement_pcts.len(), 2);
    assert_eq!(stats(&s).mean, "15.0");
    assert_eq!(s.refusal_reasons[4], 1);
}

#[test]
fn region_filter_excludes_other_regions() {
    let reports = vec![deferred(Region::Caiso, 10.0, ConfidenceLevel::Low), deferred(Region::Miso, 20.0, ConfidenceLevel::Low)];
    let s = summarize(&reports, at(2026, 4, 20, 0), now(), Some(Region::Miso), "/tmp/reports".into(), 0);
    assert_eq!(s.total, 1);
    assert_eq!(count(&s, "MISO"), 1);
    assert_eq!(count(&s, "CAISO"), 0);
    assert_eq!(f64::from_bits(s.improvement_pcts[0].bits), 20.0);
}

#[test]
fn window_filter_excludes_old_reports() {
    let mut old = deferred(Region::Caiso, 10.0, ConfidenceLevel::Low);
    old.submitted_at = at(2026, 1, 1, 0);
    let mut fresh = deferred(Region::Caiso, 10.0, ConfidenceLevel::Low);
    fresh.submitted_at = at(2026, 5, 19, 0);
    let s = summarize(&vec![old, fresh], at(2026, 4, 20, 0), now(), None, "/tmp/reports".into(), 0);
    assert_eq!(s.total, 1);
    assert_eq!(s.deferred, 1);
}

#[test]
fn non_finite_improvements_are_not_averaged() {
    let reports = vec![deferred(Region::Pjm, f64::NAN, ConfidenceLevel::Low), deferred(Region::Pjm, 4.0, ConfidenceLevel::Low)];
    let s = summarize(&reports, at(2026, 4, 20, 0), now(), None, "/tmp/reports".into(), 0);
    assert_eq!(s.deferred, 2);
    assert_eq!(s.improvement_pcts.len(), 1);
}

#[test]
fn render_human_summary_has_expected_sections() {
    let reports = vec![
        deferred(Region::Caiso, 18.0, ConfidenceLevel::Medium),
        ran_now(Region::Miso, ConfidenceLevel::Low),
        refused(Region::Miso, RefuseReason::ForecastTooUncertain),
    ];
    let s = summarize(&reports, at(2026, 4, 20, 0), now(), None, "/tmp/reports".into(), 2);
    let out = render(&s, 30 * 24 * H, &stats(&s));
    assert!(out.contains("3 run(s) in the last 30d"));
    assert!(out.contains("start-at (deferred)    : 1"));
    assert!(out.contains("start-immediately      : 1"));
    assert!(out.contains("refused                : 1"));
    assert!(out.contains("mean   : 18.0%"));
    assert!(out.contains("ForecastTooUncertain: 1"));
    assert!(out.contains("Regions: CAISO (1), MISO (2)\n"));
    assert!(out.contains("Skipped 2 unparseable file(s)."));
    assert!(out.contains("  VeryLow  : 0\n"));
}

#[test]
fn render_omits_improvement_block_when_no_deferrals() {
    let reports = vec![ran_now(Region::Miso, ConfidenceLevel::Low)];
    let s = summarize(&reports, at(2026, 4, 20, 0), now(), None, "/tmp/reports".into(), 0);
    let out = render(&s, 30 * 24 * H, &stats(&s));
    assert!(!out.contains("When deferred"));
}

#[test]
fn buckets_start_empty_and_count_by_level() {
    let mut b = empty_confidence_buckets();
    assert_eq!(b, [0, 0, 0, 0]);
    bump_confidence(&mut b, ConfidenceLevel::VeryLow);
    bump_confidence(&mut b, ConfidenceLevel::VeryLow);
    bump_confidence(&mut b, ConfidenceLevel::High);
    assert_eq!(b, [1, 0, 0, 2]);
}

#[test]
fn date_directories_on_or_after_the_window_day_are_in() {
    let ws = at(2026, 5, 20, 15);
    assert!(is_in_window("2026-05-20", ws));
    assert!(is_in_window("2026-05-21", ws));
    assert!(!is_in_window("2026-05-19", ws));
    assert!(!is_in_window("notadate", ws));
    assert!(!is_in_window("2026-5-20", ws));
}
