use nami::cache::{CarbonObservation, HistoricalCache, Intensity, RegionHistory, DEFAULT_MAX_CACHE_AGE};
use nami::eia_error::EiaError;
use nami::region::Region;

const H: i128 = 3_600_000_000_000;

fn at(y: i32, mo: u8, d: u8, h: u8) -> i128 {
    let date = time::Date::from_calendar_date(y, time::Month::try_from(mo).unwrap(), d).unwrap();
    let t = time::Time::from_hms(h, 0, 0).unwrap();
    time::OffsetDateTime::new_utc(date, t).unix_timestamp_nanos()
}

fn obs(t: i128, v: f64) -> CarbonObservation {
    CarbonObservation { at: t, intensity: Intensity { bits: v.to_bits() }, methodology: "test-v1".into() }
}

fn sample_cache() -> HistoricalCache {
    let mut c = HistoricalCache::new(at(2026, 5, 16, 0), "test-v1".to_string());
    c.set_region(
        Region::Caiso,
        vec![obs(at(2026, 5, 15, 2), 240.0), obs(at(2026, 5, 15, 0), 250.0), obs(at(2026, 5, 15, 1), 245.0)],
    );
    c.set_region(Region::Ercot, vec![obs(at(2026, 5, 15, 0), 400.0)]);
    c
}

#[test]
fn set_region_sorts_ascending() {
    let c = sample_cache();
    let times: Vec<_> = c.observations(Region::Caiso).iter().map(|o| o.at).collect();
    assert_eq!(times, vec![at(2026, 5, 15, 0), at(2026, 5, 15, 1), at(2026, 5, 15, 2)]);
    assert_eq!(c.newest_sample(Region::Caiso), Some(at(2026, 5, 15, 2)));
    assert_eq!(c.region_count(), 2);
    assert!(c.observations(Region::Pjm).is_empty());
    assert_eq!(c.newest_sample(Region::Pjm), None);
}

#[test]
fn set_region_replaces_existing() {
    let mut c = sample_cache();
    c.set_region(Region::Ercot, vec![obs(at(2026, 5, 15, 5), 410.0)]);
    assert_eq!(c.region_count(), 2);
    assert_eq!(c.observations(Region::Ercot).len(), 1);
    assert_eq!(c.newest_sample(Region::Ercot), Some(at(2026, 5, 15, 5)));
}

#[test]
fn validate_accepts_well_formed() {
    assert!(sample_cache().validate().is_ok());
}

#[test]
fn validate_rejects_unsorted_or_duplicate_timestamps() {
    let mut c = HistoricalCache::new(at(2026, 5, 16, 0), "test-v1".to_string());
    c.regions.push(RegionHistory {
        region: Region::Caiso,
        observations: vec![obs(at(2026, 5, 15, 1), 1.0), obs(at(2026, 5, 15, 1), 2.0)],
    });
    assert!(matches!(c.validate(), Err(EiaError::HistoricalCache(_))));
}

#[test]
fn validate_rejects_duplicate_region() {
    let mut c = HistoricalCache::new(at(2026, 5, 16, 0), "test-v1".to_string());
    c.regions.push(RegionHistory { region: Region::Caiso, observations: vec![] });
    c.regions.push(RegionHistory { region: Region::Caiso, observations: vec![] });
    assert!(matches!(c.validate(), Err(EiaError::HistoricalCache(_))));
}

#[test]
fn validate_rejects_bad_schema_version() {
    let mut c = sample_cache();
    c.schema_version = 999;
    assert!(matches!(c.validate(), Err(EiaError::CacheSchemaMismatch { found: 999, expected: 1 })));
}

#[test]
fn staleness_boundaries() {
    let c = HistoricalCache::new(at(2026, 5, 15, 0), "test-v1".to_string());
    assert!(!c.is_stale(at(2026, 5, 15, 23), DEFAULT_MAX_CACHE_AGE));
    assert!(c.is_stale(at(2026, 5, 16, 1), DEFAULT_MAX_CACHE_AGE));
    assert_eq!(c.age(at(2026, 5, 15, 6)), 6 * H);
}

#[test]
fn set_region_with_distinct_hours_keeps_the_cache_valid() {
    let mut c = sample_cache();
    assert!(c.validate().is_ok());
    c.set_region(Region::Pjm, vec![obs(at(2026, 5, 15, 3), 400.0), obs(at(2026, 5, 15, 1), 410.0)]);
    assert!(c.validate().is_ok());
    c.set_region(Region::Caiso, vec![obs(at(2026, 5, 15, 3), 200.0)]);
    assert!(c.validate().is_ok());
    c.set_region(Region::Caiso, vec![obs(at(2026, 5, 15, 3), 200.0), obs(at(2026, 5, 15, 3), 210.0)]);
    assert!(matches!(c.validate(), Err(EiaError::HistoricalCache(_))));
}

#[test]
fn validate_names_the_first_problem() {
    let mut c = HistoricalCache::new(at(2026, 5, 16, 0), "test-v1".to_string());
    let (t0, t1) = (at(2026, 5, 15, 2), at(2026, 5, 15, 1));
    c.regions.push(RegionHistory { region: Region::Pjm, observations: vec![obs(t0, 1.0), obs(t1, 2.0)] });
    c.regions.push(RegionHistory { region: Region::Pjm, observations: vec![] });
    let shown = |t: i128| format!("{}", time::OffsetDateTime::from_unix_timestamp_nanos(t).unwrap());
    match c.validate() {
        Err(EiaError::HistoricalCache(m)) => assert_eq!(
            m,
            format!("PJM observations not strictly ascending by timestamp (at {} then {})", shown(t0), shown(t1))
        ),
        other => panic!("unexpected {other:?}"),
    }
    c.regions[0].observations.swap(0, 1);
    match c.validate() {
        Err(EiaError::HistoricalCache(m)) => assert_eq!(m, "duplicate region entry: PJM"),
        other => panic!("unexpected {other:?}"),
    }
}

#[test]
fn set_region_sort_is_stable_for_equal_timestamps() {
    let mut c = HistoricalCache::new(at(2026, 5, 16, 0), "test-v1".to_string());
    c.set_region(
        Region::Caiso,
        vec![obs(at(2026, 5, 15, 3), 1.0), obs(at(2026, 5, 15, 1), 2.0), obs(at(2026, 5, 15, 3), 3.0), obs(at(2026, 5, 15, 1), 4.0)],
    );
    let got: Vec<(i128, f64)> =
        c.observations(Region::Caiso).iter().map(|o| (o.at, f64::from_bits(o.intensity.bits))).collect();
    assert_eq!(
        got,
        vec![(at(2026, 5, 15, 1), 2.0), (at(2026, 5, 15, 1), 4.0), (at(2026, 5, 15, 3), 1.0), (at(2026, 5, 15, 3), 3.0)]
    );
}
