use nami::cache::Intensity;
use nami::refresh::{build_query, cap_warnings, collect_derived, eia_period, page_done, parse_total_text, HourOutcome};
use nami::region::Region;

fn at(y: i32, mo: u8, d: u8, h: u8, mi: u8, s: u8) -> i128 {
    let date = time::Date::from_calendar_date(y, time::Month::try_from(mo).unwrap(), d).unwrap();
    let t = time::Time::from_hms(h, mi, s).unwrap();
    time::OffsetDateTime::new_utc(date, t).unix_timestamp_nanos()
}

#[test]
fn cap_warnings_truncates() {
    let mut w: Vec<String> = (0..60).map(|i| i.to_string()).collect();
    cap_warnings(&mut w);
    assert_eq!(w.len(), 51);
    assert!(w.last().unwrap().contains("more warnings suppressed"));
}

#[test]
fn cap_warnings_counts_the_dropped_lines() {
    let mut w: Vec<String> = (0..60).map(|i| i.to_string()).collect();
    cap_warnings(&mut w);
    assert_eq!(w[49], "49");
    assert_eq!(w[50], "(+10 more warnings suppressed)");
    let mut short: Vec<String> = (0..50).map(|i| i.to_string()).collect();
    cap_warnings(&mut short);
    assert_eq!(short.len(), 50);
}

#[test]
fn eia_period_formats_utc_hour() {
    assert_eq!(eia_period(at(2026, 5, 12, 0, 0, 0)), "2026-05-12T00");
    assert_eq!(eia_period(at(2026, 1, 9, 23, 0, 0)), "2026-01-09T23");
}

#[test]
fn truncate_drops_sub_hour() {
    let t = at(2026, 5, 12, 3, 47, 12) + 900_000_000;
    assert_eq!(nami::instant::floor_to_hour(t), at(2026, 5, 12, 3, 0, 0));
}

#[test]
fn build_query_has_key_facet_and_window() {
    let q = build_query("CISO", at(2026, 5, 12, 0, 0, 0), at(2026, 5, 19, 0, 0, 0), 5000, 5000, "SECRET");
    let get = |k: &str| q.iter().find(|(a, _)| a == k).map(|(_, v)| v.clone());
    assert_eq!(get("facets[respondent][]").as_deref(), Some("CISO"));
    assert_eq!(get("frequency").as_deref(), Some("hourly"));
    assert_eq!(get("start").as_deref(), Some("2026-05-12T00"));
    assert_eq!(get("end").as_deref(), Some("2026-05-19T00"));
    assert_eq!(get("offset").as_deref(), Some("5000"));
    assert_eq!(get("api_key").as_deref(), Some("SECRET"));
    assert_eq!(q.last().unwrap().0, "api_key");
}

#[test]
fn paging_stops_on_empty_page_or_reached_total() {
    assert!(page_done(0, 10, None));
    assert!(!page_done(5000, 5000, None));
    assert!(page_done(7, 7, Some(7)));
    assert!(!page_done(5000, 5000, Some(7000)));
}

fn value() -> Intensity {
    Intensity { bits: 350.0f64.to_bits() }
}

#[test]
fn process_rejects_region_mismatch() {
    let hours = vec![
        HourOutcome { at: 0, region: Region::Caiso, derived: Some((value(), vec![])) },
        HourOutcome { at: 1, region: Region::Ercot, derived: None },
    ];
    match collect_derived(hours, Region::Caiso) {
        Err(nami::eia_error::EiaError::Malformed(m)) => {
            assert_eq!(m, "EIA returned ERCOT data while refreshing CAISO")
        }
        other => panic!("expected Malformed, got {other:?}"),
    }
}

#[test]
fn derived_hours_fold_into_observations_gaps_and_unique_warnings() {
    let hours = vec![
        HourOutcome { at: 10, region: Region::Miso, derived: Some((value(), vec!["a".to_string(), "b".to_string()])) },
        HourOutcome { at: 15, region: Region::Miso, derived: None },
        HourOutcome { at: 20, region: Region::Miso, derived: Some((value(), vec!["b".to_string(), "c".to_string()])) },
    ];
    let (o, parsed, skipped, w) = collect_derived(hours, Region::Miso).unwrap();
    assert_eq!(o.iter().map(|x| x.at).collect::<Vec<_>>(), vec![10, 20]);
    assert!(o.iter().all(|x| x.methodology == "eia-930-v1+egrid-2023-ba" && x.intensity == value()));
    assert_eq!((parsed, skipped), (3, 1));
    assert_eq!(w, vec!["a", "b", "c"]);
}

#[test]
fn no_derived_hours_leads_with_a_note() {
    let hours = vec![HourOutcome { at: 0, region: Region::Pjm, derived: None }];
    let (o, parsed, skipped, w) = collect_derived(hours, Region::Pjm).unwrap();
    assert!(o.is_empty());
    assert_eq!((parsed, skipped), (1, 1));
    assert_eq!(
        w,
        vec!["no usable observations derived for PJM in the requested window (parsed 1 hours, 1 had no positive generation)"]
    );
}

#[test]
fn reported_totals_read_as_unsigned_numbers() {
    assert_eq!(parse_total_text("5000"), Some(5000));
    assert_eq!(parse_total_text(" 12\n"), Some(12));
    assert_eq!(parse_total_text("+7"), Some(7));
    assert_eq!(parse_total_text(""), None);
    assert_eq!(parse_total_text("-1"), None);
    assert_eq!(parse_total_text("12a"), None);
    assert_eq!(parse_total_text("+"), None);
    assert_eq!(parse_total_text("99999999999999999999999"), None);
}

#[test]
fn parse_total_accepts_string_or_number() {
    assert_eq!(parse_total_text("1344"), Some(1344));
    assert_eq!(parse_total_text("x"), None);
}
