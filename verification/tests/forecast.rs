use nami::cache::{CarbonObservation, HistoricalCache, Intensity};
use nami::confidence::DataFreshness;
use nami::forecast::{forecast_basis, methodology_label};
use nami::region::Region;

const H: i128 = 3_600_000_000_000;

fn at(y: i32, mo: u8, d: u8, h: u8, mi: u8, s: u8) -> i128 {
    let date = time::Date::from_calendar_date(y, time::Month::try_from(mo).unwrap(), d).unwrap();
    let t = time::Time::from_hms(h, mi, s).unwrap();
    time::OffsetDateTime::new_utc(date, t).unix_timestamp_nanos()
}

fn obs(t: i128, v: f64) -> CarbonObservation {
    CarbonObservation { at: t, intensity: Intensity { bits: v.to_bits() }, methodology: "eia-930-v1+egrid-2023-ba".into() }
}

fn cache_with_history() -> HistoricalCache {
    let mut c = HistoricalCache::new(at(2026, 5, 19, 0, 0, 0), "test".to_string());
    c.set_region(
        Region::Caiso,
        vec![
            obs(at(2026, 5, 13, 14, 0, 0), 100.0),
            obs(at(2026, 5, 6, 14, 0, 0), 200.0),
            obs(at(2026, 4, 29, 14, 0, 0), 300.0),
            obs(at(2026, 5, 13, 3, 0, 0), 999.0),
            obs(at(2026, 5, 12, 14, 0, 0), 888.0),
            obs(at(2026, 1, 7, 14, 0, 0), 777.0),
        ],
    );
    c
}

fn now() -> i128 {
    at(2026, 5, 19, 0, 0, 0)
}

#[test]
fn means_only_matching_samples() {
    let c = cache_with_history();
    let b = forecast_basis(&c, Region::Caiso, at(2026, 5, 20, 14, 0, 0), H, now(), 8).unwrap();
    assert_eq!(b.hours.len(), 1);
    assert_eq!(b.hours[0].at, at(2026, 5, 20, 14, 0, 0));
    let values: Vec<f64> = b.hours[0].samples.iter().map(|i| f64::from_bits(c.observations(Region::Caiso)[*i].intensity.bits)).collect();
    let mut sorted = values.clone();
    sorted.sort_by(|a, b| a.partial_cmp(b).unwrap());
    assert_eq!(sorted, vec![100.0, 200.0]);
    assert_eq!(values.iter().sum::<f64>() / values.len() as f64, 150.0);
    assert_eq!(b.label, "historical-pattern-mean-8w-hour-dow-month-v1");
    assert_eq!(b.freshness, DataFreshness::HistoricalCacheOnly { newest_sample_at: at(2026, 5, 13, 14, 0, 0) });
}

#[test]
fn omits_hours_with_no_samples() {
    let c = cache_with_history();
    let b = forecast_basis(&c, Region::Caiso, at(2026, 5, 20, 14, 0, 0), 6 * H, now(), 8).unwrap();
    assert_eq!(b.hours.len(), 1);
    assert_eq!(b.hours[0].at, at(2026, 5, 20, 14, 0, 0));
}

#[test]
fn unknown_region_yields_empty() {
    let c = cache_with_history();
    assert!(forecast_basis(&c, Region::Pjm, at(2026, 5, 20, 14, 0, 0), H, now(), 8).is_none());
}

#[test]
fn zero_weeks_window_yields_empty() {
    let c = cache_with_history();
    let b = forecast_basis(&c, Region::Caiso, at(2026, 5, 20, 14, 0, 0), H, now(), 0).unwrap();
    assert!(b.hours.is_empty());
}

#[test]
fn label_reflects_actual_weeks() {
    let c = cache_with_history();
    let b = forecast_basis(&c, Region::Caiso, at(2026, 5, 20, 14, 0, 0), H, now(), 4).unwrap();
    assert_eq!(b.hours.len(), 1);
    assert_eq!(b.label, "historical-pattern-mean-4w-hour-dow-month-v1");
    assert_eq!(methodology_label(12), "historical-pattern-mean-12w-hour-dow-month-v1");
}

#[test]
fn unaligned_horizon_start_is_floored() {
    let c = cache_with_history();
    let b = forecast_basis(&c, Region::Caiso, at(2026, 5, 20, 14, 37, 12), H, now(), 8).unwrap();
    assert_eq!(b.hours.len(), 1);
    assert_eq!(b.hours[0].at, at(2026, 5, 20, 14, 0, 0));
}
