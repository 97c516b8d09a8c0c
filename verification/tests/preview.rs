use nami::cache::{CarbonObservation, HistoricalCache, Intensity};
use nami::confidence::{Confidence, ConfidenceLevel, DataFreshness};
use nami::decision::{SchedulingDecision, StartReason};
use nami::preview::{assemble, CacheState, ForecastPath};
use nami::region::Region;
use nami::run_report::WindowEstimate;

const H: i128 = 3_600_000_000_000;

fn at(y: i32, mo: u8, d: u8, h: u8) -> i128 {
    let date = time::Date::from_calendar_date(y, time::Month::try_from(mo).unwrap(), d).unwrap();
    let t = time::Time::from_hms(h, 0, 0).unwrap();
    time::OffsetDateTime::new_utc(date, t).unix_timestamp_nanos()
}

fn cmd() -> Vec<String> {
    vec!["python".into(), "train.py".into()]
}

fn baseline() -> Intensity {
    Intensity { bits: 250.0f64.to_bits() }
}


fn cache_with(now: i128, samples: &[i128]) -> CacheState {
    let mut c = HistoricalCache::new(now, "test".into());
    if !samples.is_empty() {
        c.set_region(
            Region::Caiso,
            samples
                .iter()
                .map(|t| CarbonObservation {
                    at: *t,
                    intensity: Intensity { bits: 350.0f64.to_bits() },
                    methodology: "eia-930-v1+egrid-2023-ba".into(),
                })
                .collect(),
        );
    }
    CacheState::Present(c)
}

fn run_now_path(now: i128) -> ForecastPath {
    let confidence = Confidence { level: ConfidenceLevel::Low, sample_count: 1, notes: vec!["1 sample(s) → Low".into()] };
    ForecastPath {
        decision: SchedulingDecision::StartImmediately { reason: StartReason::RunNowAlreadyCleanest, confidence },
        run_now_estimate: Some(WindowEstimate {
            start: now,
            duration: H,
            mean_intensity: Intensity { bits: 350.0f64.to_bits() },
            confidence: Confidence { level: ConfidenceLevel::Low, sample_count: 1, notes: vec![] },
        }),
        selected_window_estimate: None,
        improvement: None,
    }
}

#[test]
fn missing_cache_uses_static_fallback() {
    let now = at(2026, 5, 20, 6);
    let r = assemble(Some(Region::Caiso), cmd(), 2 * H, at(2026, 5, 20, 18), 0, now, CacheState::Missing, 8, None, baseline()).unwrap();
    assert_eq!(r.data_freshness, DataFreshness::StaticFallbackOnly);
    assert_eq!(r.provider.name, "static-fallback");
    assert!(r.warnings.iter().any(|w| w.contains("No historical cache")));
    assert!(matches!(r.decision, SchedulingDecision::StartImmediately { reason: StartReason::FallbackPolicyRunImmediately, .. }));
    assert_eq!(r.command, "python");
    assert_eq!(r.args, vec!["train.py".to_string()]);
}

#[test]
fn unusable_cache_surfaces_cause() {
    let now = at(2026, 5, 20, 6);
    let r = assemble(Some(Region::Caiso), cmd(), 2 * H, at(2026, 5, 20, 18), 0, now, CacheState::Unusable("schema mismatch".into()), 8, None, baseline()).unwrap();
    assert_eq!(r.data_freshness, DataFreshness::StaticFallbackOnly);
    assert!(r.warnings.iter().any(|w| w.contains("schema mismatch")));
}

#[test]
fn cache_present_but_no_samples_falls_back() {
    let now = at(2026, 5, 20, 6);
    let r = assemble(Some(Region::Caiso), cmd(), H, at(2026, 5, 20, 18), 0, now, cache_with(now, &[]), 8, None, baseline()).unwrap();
    assert_eq!(r.data_freshness, DataFreshness::StaticFallbackOnly);
    assert!(r.warnings.iter().any(|w| w.contains("no matching samples")));
}

#[test]
fn eia_path_with_history_produces_cache_only_report() {
    let now = at(2026, 5, 20, 10);
    let r = assemble(Some(Region::Caiso), cmd(), H, at(2026, 5, 20, 15), 0, now, cache_with(now, &[at(2026, 5, 13, 10)]), 8, Some(run_now_path(now)), baseline()).unwrap();
    assert!(matches!(r.data_freshness, DataFreshness::HistoricalCacheOnly { .. }));
    assert_eq!(r.provider.name, "eia-egrid-historical-pattern");
    assert!(!r.provider.capabilities.contains(&nami::run_report::ProviderCapability::AverageCarbonForecast));
    assert!(r.methodology_version.starts_with("historical-pattern-mean-8w"));
    assert!(matches!(r.decision, SchedulingDecision::StartImmediately { reason: StartReason::RunNowAlreadyCleanest, .. }));
    let rn = r.run_now_estimate.expect("run-now estimate present");
    assert_eq!(f64::from_bits(rn.mean_intensity.bits), 350.0);
    assert!(r.warnings.iter().any(|w| w == "1 sample(s) → Low"));
}

#[test]
fn per_region_staleness_uses_newest_sample_not_file_timestamp() {
    let now = at(2026, 5, 20, 10);
    let stale = assemble(Some(Region::Caiso), cmd(), H, at(2026, 5, 20, 15), 0, now, cache_with(now, &[at(2026, 5, 13, 10)]), 8, Some(run_now_path(now)), baseline()).unwrap();
    assert!(stale.warnings.iter().any(|w| w.contains("STALE DATA")));
    assert_eq!(stale.data_freshness, DataFreshness::HistoricalCacheOnly { newest_sample_at: at(2026, 5, 13, 10) });
    assert!(stale.started_at.is_none() && stale.finished_at.is_none());
    assert!(stale.wall_duration.is_none() && stale.exit_code.is_none());
    let fresh = assemble(Some(Region::Caiso), cmd(), H, at(2026, 5, 20, 15), 0, now, cache_with(now, &[at(2026, 5, 13, 10), at(2026, 5, 20, 9)]), 8, Some(run_now_path(now)), baseline()).unwrap();
    assert!(!fresh.warnings.iter().any(|w| w.contains("STALE DATA")));
    assert!(matches!(fresh.data_freshness, DataFreshness::HistoricalCacheOnly { .. }));
    assert_eq!(f64::from_bits(fresh.materiality_threshold_pct.bits), 5.0);
}

#[test]
fn missing_region_is_an_error() {
    let now = at(2026, 5, 20, 6);
    assert!(assemble(None, cmd(), 2 * H, at(2026, 5, 20, 18), 0, now, CacheState::Missing, 8, None, baseline()).is_err());
}

#[test]
fn past_deadline_is_an_error() {
    let now = at(2026, 5, 20, 19);
    let e = assemble(Some(Region::Caiso), cmd(), 2 * H, at(2026, 5, 20, 18), 0, now, CacheState::Missing, 8, None, baseline()).unwrap_err();
    assert_eq!(e, "invalid job: invalid job spec: deadline must be in the future");
}

#[test]
fn summary_language_is_compliant() {
    let now = at(2026, 5, 20, 6);
    let r = assemble(Some(Region::Caiso), cmd(), 2 * H, at(2026, 5, 20, 18), 0, now, CacheState::Missing, 8, None, baseline()).unwrap();
    let f = nami::run_report::ReportFigures {
        run_now_intensity: Some("250".into()),
        selected_intensity: None,
        improvement: None,
        threshold: "5.0".into(),
    };
    assert!(nami::preview::human_summary(&r, &f, "preview").starts_with("nami preview — region CAISO"));
    assert!(nami::preview::human_summary(&r, &f, "run").starts_with("nami run — region CAISO"));
    let text = nami::preview::human_summary(&r, &f, "preview").to_lowercase();
    assert!(text.contains("run immediately"));
    assert!(text.contains("not marginal emissions"));
    assert!(text.contains("static annual regional mean"));
    assert!(!text.contains("historical-pattern forecast"));
    for banned in ["cleanest possible", "optimal carbon", "guaranteed", "real-time carbon", "precise grid"] {
        assert!(!text.contains(banned), "banned phrase present: {banned}");
    }
}

#[test]
fn cache_without_samples_for_the_window_falls_back_even_with_a_path() {
    // The only sample is at 09:00; the window's hours are 10:00 through 14:00.
    let now = at(2026, 5, 20, 10);
    let r = assemble(Some(Region::Caiso), cmd(), H, at(2026, 5, 20, 15), 0, now, cache_with(now, &[at(2026, 5, 20, 9)]), 8, Some(run_now_path(now)), baseline()).unwrap();
    assert_eq!(r.data_freshness, DataFreshness::StaticFallbackOnly);
    assert!(r.warnings.iter().any(|w| w.contains("no matching samples")));
    assert_eq!(f64::from_bits(r.materiality_threshold_pct.bits), 5.0);
}
