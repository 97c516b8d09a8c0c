use nami::cache::Intensity;
use nami::confidence::{Confidence, ConfidenceLevel, DataFreshness, DataGranularity};
use nami::decision::{RefuseReason, SchedulingDecision, StartReason};
use nami::explain::explain;
use nami::preview::human_summary;
use nami::region::Region;
use nami::run_report::{fmt_dur, Percent, ProviderInfo, ReportFigures, RunReport, WindowEstimate};
use nami::status::summarize_report;

const H: i128 = 3_600_000_000_000;

fn at(y: i32, mo: u8, d: u8, h: u8) -> i128 {
    let date = time::Date::from_calendar_date(y, time::Month::try_from(mo).unwrap(), d).unwrap();
    let t = time::Time::from_hms(h, 0, 0).unwrap();
    time::OffsetDateTime::new_utc(date, t).unix_timestamp_nanos()
}

fn pct(v: f64) -> Percent {
    Percent { bits: v.to_bits() }
}

fn conf(level: ConfidenceLevel, n: usize, note: &str) -> Confidence {
    Confidence { level, sample_count: n, notes: vec![note.to_string()] }
}

fn estimate(start: i128, v: f64, level: ConfidenceLevel) -> WindowEstimate {
    WindowEstimate { start, duration: 2 * H, mean_intensity: Intensity { bits: v.to_bits() }, confidence: conf(level, 4, "") }
}

/// The report's numbers as text, the way the command renders them.
fn figures(r: &RunReport) -> ReportFigures {
    let f = |b: u64, d: usize| format!("{:.*}", d, f64::from_bits(b));
    ReportFigures {
        run_now_intensity: r.run_now_estimate.as_ref().map(|e| f(e.mean_intensity.bits, 0)),
        selected_intensity: r.selected_window_estimate.as_ref().map(|e| f(e.mean_intensity.bits, 0)),
        improvement: r.estimated_improvement_pct.map(|p| f(p.bits, 1)),
        threshold: f(r.materiality_threshold_pct.bits, 1),
    }
}

fn base() -> RunReport {
    RunReport {
        command: "python".into(),
        args: vec!["train.py".into()],
        region: Region::Miso,
        deadline: at(2026, 5, 20, 18),
        deadline_offset: 0,
        estimated_duration: 2 * H,
        decision: SchedulingDecision::Refuse { reason: RefuseReason::NoWindowBeforeDeadline },
        run_now_estimate: None,
        selected_window_estimate: None,
        estimated_improvement_pct: None,
        materiality_threshold_pct: pct(5.0),
        provider: ProviderInfo {
            name: "eia-egrid-historical-pattern".into(),
            capabilities: vec![],
            granularity: DataGranularity::Hourly,
            expected_lag: None,
        },
        data_freshness: DataFreshness::HistoricalCacheOnly { newest_sample_at: at(2026, 5, 20, 4) },
        methodology_version: "historical-pattern-mean-8w-hour-dow-month-v1".into(),
        warnings: vec!["not marginal emissions".into()],
        submitted_at: at(2026, 5, 20, 6),
        started_at: None,
        finished_at: None,
        wall_duration: None,
        exit_code: None,
    }
}

#[test]
fn explain_start_at_includes_improvement_and_threshold() {
    let mut r = base();
    r.decision = SchedulingDecision::StartAt {
        start_time: at(2026, 5, 20, 14),
        reason: StartReason::LowestEstimatedIntensity,
        confidence: conf(ConfidenceLevel::Medium, 4, "cache-only basis caps to Low → Medium"),
    };
    r.run_now_estimate = Some(estimate(at(2026, 5, 20, 6), 412.0, ConfidenceLevel::Medium));
    r.selected_window_estimate = Some(estimate(at(2026, 5, 20, 14), 298.0, ConfidenceLevel::Medium));
    r.estimated_improvement_pct = Some(pct(27.7));
    let out = explain(&r, &figures(&r));
    assert!(out.contains("Decision: defer to 2026-05-20T14:00:00Z"));
    assert!(out.contains("298 gCO2/kWh"));
    assert!(out.contains("412 gCO2/kWh"));
    assert!(out.contains("27.7% improvement"));
    assert!(out.contains("5.0%"));
    assert!(out.contains("Confidence: Medium (4 sample(s)"));
    assert!(out.contains("Why this confidence level:"));
    assert!(out.contains("historical-cache-only"));
}

#[test]
fn explain_start_immediately_run_now_already_cleanest() {
    let mut r = base();
    r.decision = SchedulingDecision::StartImmediately {
        reason: StartReason::RunNowAlreadyCleanest,
        confidence: conf(ConfidenceLevel::Low, 2, "cache-only basis caps at Low"),
    };
    r.run_now_estimate = Some(estimate(at(2026, 5, 20, 6), 312.0, ConfidenceLevel::Low));
    r.estimated_improvement_pct = Some(pct(2.4));
    let out = explain(&r, &figures(&r));
    assert!(out.contains("Decision: run immediately"));
    assert!(out.contains("RunNowAlreadyCleanest"));
    assert!(out.contains("running now is at least as clean"));
    assert!(out.contains("312 gCO2/kWh"));
    assert!(out.contains("beat that by only 2.4%"));
    assert!(out.contains("5.0% materiality"));
}

#[test]
fn explain_refuse_no_window_before_deadline() {
    let r = base();
    let out = explain(&r, &figures(&r));
    assert!(out.contains("Decision: refused"));
    assert!(out.contains("NoWindowBeforeDeadline"));
    assert!(out.contains("the job simply cannot finish in time"));
    assert!(out.contains("declined to produce a number"));
}

#[test]
fn explain_refuse_below_materiality_threshold_quotes_threshold() {
    let mut r = base();
    r.decision = SchedulingDecision::Refuse { reason: RefuseReason::CandidateWindowsBelowMaterialityThreshold };
    r.materiality_threshold_pct = pct(7.5);
    let out = explain(&r, &figures(&r));
    assert!(out.contains("7.5% materiality threshold"));
    assert!(out.contains("noise floor"));
}

#[test]
fn explain_includes_provenance_and_warnings_and_marginal_disclaimer() {
    let r = base();
    let out = explain(&r, &figures(&r));
    assert!(out.contains("Provider: eia-egrid-historical-pattern"));
    assert!(out.contains("Methodology: historical-pattern-mean-8w-hour-dow-month-v1"));
    assert!(out.contains("Data freshness: historical-cache-only"));
    assert!(out.contains("Job: python train.py"));
    assert!(out.contains("Region: MISO"));
    assert!(out.contains("- not marginal emissions"));
    assert!(out.contains("estimated duration 2h"));
    assert!(out.ends_with("Reminder: estimates are average carbon intensity, not marginal emissions.\n"));
}

#[test]
fn explain_shows_timing_and_exit_code_after_a_run() {
    let mut r = base();
    r.started_at = Some(at(2026, 5, 20, 7));
    r.finished_at = Some(at(2026, 5, 20, 8));
    r.exit_code = Some(3);
    let out = explain(&r, &figures(&r));
    assert!(out.contains("Started: 2026-05-20T07:00:00Z — finished: 2026-05-20T08:00:00Z — exit code: 3\n"));
}

fn static_base() -> RunReport {
    let mut r = base();
    r.provider.name = "static-fallback".into();
    r.provider.granularity = DataGranularity::Annual;
    r.data_freshness = DataFreshness::StaticFallbackOnly;
    r.methodology_version = "static-fallback-annual-v1".into();
    r
}

#[test]
fn summarizes_refuse_report() {
    let r = static_base();
    let out = summarize_report(&r, &figures(&r));
    assert!(out.contains("region MISO"));
    assert!(out.contains("decision: refused"));
    assert!(out.contains("NoWindowBeforeDeadline"));
    assert!(out.contains("freshness static-fallback-only"));
    assert!(out.contains("warnings: 1"));
}

#[test]
fn summarizes_startat_with_improvement_and_exit() {
    let mut r = static_base();
    r.decision = SchedulingDecision::StartAt {
        start_time: at(2026, 5, 20, 14),
        reason: StartReason::LowestEstimatedIntensity,
        confidence: Confidence::very_low("t".to_string()),
    };
    r.estimated_improvement_pct = Some(pct(18.7));
    r.run_now_estimate = Some(estimate(at(2026, 5, 20, 6), 390.0, ConfidenceLevel::VeryLow));
    r.exit_code = Some(0);
    let out = summarize_report(&r, &figures(&r));
    assert!(out.contains("start at 2026-05-20T14:00:00Z"));
    assert!(out.contains("LowestEstimatedIntensity"));
    assert!(out.contains("estimated improvement: 18.7% (materiality threshold 5.0%)"));
    assert!(out.contains("child exit code: 0"));
}

#[test]
fn terminal_summary_reflects_subcommand_and_static_basis() {
    let mut r = static_base();
    r.region = Region::Caiso;
    r.decision = SchedulingDecision::StartImmediately {
        reason: StartReason::FallbackPolicyRunImmediately,
        confidence: Confidence::very_low("t".to_string()),
    };
    let f = figures(&r);
    assert!(human_summary(&r, &f, "preview").starts_with("nami preview — region CAISO"));
    assert!(human_summary(&r, &f, "run").starts_with("nami run — region CAISO"));
    let text = human_summary(&r, &f, "preview").to_lowercase();
    assert!(text.contains("run immediately"));
    assert!(text.contains("confidence: very low"));
    assert!(text.contains("static annual regional mean"));
    assert!(!text.contains("historical-pattern forecast"));
}

#[test]
fn terminal_summary_of_a_deferral_lists_the_numbers() {
    let mut r = base();
    r.decision = SchedulingDecision::StartAt {
        start_time: at(2026, 5, 20, 14),
        reason: StartReason::LowestEstimatedIntensity,
        confidence: conf(ConfidenceLevel::Low, 4, "n"),
    };
    r.run_now_estimate = Some(estimate(at(2026, 5, 20, 6), 412.0, ConfidenceLevel::Low));
    r.selected_window_estimate = Some(estimate(at(2026, 5, 20, 14), 298.0, ConfidenceLevel::Low));
    r.estimated_improvement_pct = Some(pct(27.7));
    let out = human_summary(&r, &figures(&r), "preview");
    assert!(out.contains("Recommended start: 2026-05-20T14:00:00Z\n"));
    assert!(out.contains("Expected average intensity: 298 gCO2/kWh\n"));
    assert!(out.contains("Run-now estimate: 412 gCO2/kWh\n"));
    assert!(out.contains("Estimated improvement: 27.7% (materiality threshold: 5.0%)\n"));
    assert!(out.contains("Confidence: Low\n"));
    assert!(out.contains("Basis: historical-pattern forecast from hourly public data"));
    assert!(out.ends_with("Warning: not marginal emissions\n"));
}

#[test]
fn fmt_dur_units() {
    assert_eq!(fmt_dur(24 * H), "1d");
    assert_eq!(fmt_dur(36 * H), "36h");
    assert_eq!(fmt_dur(48 * H), "2d");
    assert_eq!(fmt_dur(90 * 60_000_000_000), "90m");
    assert_eq!(fmt_dur(45_000_000_000), "45s");
    assert_eq!(fmt_dur(0), "0s");
    assert_eq!(fmt_dur(-2 * H), "-2h");
}

#[test]
fn deadline_is_shown_at_the_offset_it_was_given_at() {
    let mut r = base();
    r.deadline_offset = 7200;
    let f = figures(&r);
    assert!(human_summary(&r, &f, "preview").starts_with("nami preview — region MISO — deadline 2026-05-20T20:00:00+02:00\n"));
    assert!(explain(&r, &f).contains("deadline 2026-05-20T20:00:00+02:00"));
    assert!(summarize_report(&r, &f).contains("deadline 2026-05-20T20:00:00+02:00"));
}
