use nami::cache::Intensity;
use nami::confidence::{Confidence, ConfidenceLevel};
use nami::forecast_text::{render, PointFigures};
use nami::region::Region;
use nami::scheduler::ForecastPoint;

const H: i128 = 3_600_000_000_000;

fn at(y: i32, mo: u8, d: u8, h: u8) -> i128 {
    let date = time::Date::from_calendar_date(y, time::Month::try_from(mo).unwrap(), d).unwrap();
    let t = time::Time::from_hms(h, 0, 0).unwrap();
    time::OffsetDateTime::new_utc(date, t).unix_timestamp_nanos()
}

fn point(t: i128, v: f64, n: usize, level: ConfidenceLevel) -> ForecastPoint {
    ForecastPoint {
        at: t,
        intensity: Intensity { bits: v.to_bits() },
        confidence: Confidence { level, sample_count: n, notes: vec![] },
        methodology: "historical-pattern-mean-8w-hour-dow-month-v1".into(),
    }
}

#[test]
fn empty_with_history_is_refuse_not_zero() {
    let out = render(Region::Caiso, 8, 24 * H, true, &vec![], &vec![]);
    assert!(out.contains("matching samples"));
    assert!(out.contains("refuse-to-estimate"));
    assert!(!out.contains("0 gCO2/kWh"));
    assert!(out.starts_with("No hours in the next 1d have matching samples in the last 8 weeks for CAISO.\n"));
}

#[test]
fn empty_without_history_points_to_refresh() {
    let out = render(Region::Pjm, 8, 24 * H, false, &vec![], &vec![]);
    assert!(out.contains("No cached history for PJM"));
    assert!(out.contains("nami refresh --region PJM"));
}

#[test]
fn renders_points_with_confidence_and_compliant_language() {
    let pts = vec![point(at(2026, 5, 20, 10), 312.4, 6, ConfidenceLevel::Low), point(at(2026, 5, 20, 11), 280.0, 1, ConfidenceLevel::VeryLow)];
    let figs = vec![
        PointFigures { intensity: format!("{:.0}", 312.4f64), interval: Some("[304, 320]".into()) },
        PointFigures { intensity: format!("{:.0}", 280.0f64), interval: None },
    ];
    let out = render(Region::Miso, 8, 2 * H, true, &pts, &figs);
    let low = out.to_lowercase();
    assert!(out.contains("historical-pattern forecast"));
    assert!(out.contains("not marginal emissions"));
    assert!(out.contains("2026-05-20T10:00:00Z"));
    assert!(out.contains("historical-pattern-mean-8w-hour-dow-month-v1"));
    assert!(out.contains("—"));
    assert!(out.contains("2026-05-20T10:00:00Z        312       Low        6  [304, 320]\n"));
    assert!(out.contains("hour (UTC)             gCO2/kWh      conf  samples  1σ interval gCO2/kWh\n"));
    for banned in ["cleanest possible", "optimal carbon", "guaranteed", "real-time carbon", "precise grid"] {
        assert!(!low.contains(banned), "banned phrase: {banned}");
    }
}
