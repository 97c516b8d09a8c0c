use nami::region::Region;
use nami::reports::{auto_filename, default_state_dir, resolve_target, utc_date_dir, Target};

fn at_ns(y: i32, mo: u8, d: u8, h: u8, mi: u8, s: u8, ns: u32) -> i128 {
    let date = time::Date::from_calendar_date(y, time::Month::try_from(mo).unwrap(), d).unwrap();
    let t = time::Time::from_hms_nano(h, mi, s, ns).unwrap();
    time::OffsetDateTime::new_utc(date, t).unix_timestamp_nanos()
}

fn now() -> i128 {
    let date = time::Date::from_calendar_date(2026, time::Month::May, 20).unwrap();
    let t = time::Time::from_hms_nano(6, 45, 23, 123_456_789).unwrap();
    time::OffsetDateTime::new_utc(date, t).unix_timestamp_nanos()
}

#[test]
fn auto_filename_is_sortable_and_includes_region() {
    let name = auto_filename(now(), Region::Caiso);
    assert!(name.starts_with("06-45-23-"));
    assert!(name.ends_with("-CAISO.json"));
    assert!(name.contains("-123456789-"));
    assert_eq!(name, "06-45-23-123456789-CAISO.json");
}

#[test]
fn date_dir_is_iso_yyyy_mm_dd() {
    assert_eq!(utc_date_dir(now()), "2026-05-20");
}

#[test]
fn pinned_report_wins_over_dir_and_default() {
    let t = resolve_target(Some("/tmp/foo.json"), Some("/tmp/dir"), Region::Miso, now(), Some("/should/not/be/used"));
    assert_eq!(t, Target::Pinned("/tmp/foo.json".to_string()));
}

#[test]
fn report_dir_overrides_default_and_uses_date_partition() {
    match resolve_target(None, Some("/tmp/reports"), Region::Pjm, now(), Some("/default/state")) {
        Target::Archived(p) => {
            assert!(p.starts_with("/tmp/reports/2026-05-20/"));
            assert!(p.ends_with("-PJM.json"));
        }
        other => panic!("expected Archived, got {other:?}"),
    }
}

#[test]
fn default_state_dir_used_when_no_flags() {
    match resolve_target(None, None, Region::Ercot, now(), Some("/default/state/")) {
        Target::Archived(p) => {
            assert_eq!(p, "/default/state/2026-05-20/06-45-23-123456789-ERCOT.json");
        }
        other => panic!("expected Archived, got {other:?}"),
    }
}

#[test]
fn falls_back_to_stdout_when_no_default_and_no_flags() {
    assert_eq!(resolve_target(None, None, Region::Spp, now(), None), Target::Stdout);
}

#[test]
fn auto_filenames_sort_by_time_within_a_day() {
    let times = [
        at_ns(2026, 5, 20, 0, 0, 0, 0),
        at_ns(2026, 5, 20, 9, 5, 7, 12),
        at_ns(2026, 5, 20, 9, 5, 7, 999_999_999),
        at_ns(2026, 5, 20, 9, 59, 0, 0),
        at_ns(2026, 5, 20, 23, 59, 59, 999_999_999),
    ];
    let names: Vec<String> = times
        .iter()
        .enumerate()
        .map(|(i, t)| auto_filename(*t, if i % 2 == 0 { Region::Spp } else { Region::Caiso }))
        .collect();
    let mut sorted = names.clone();
    sorted.sort();
    assert_eq!(names, sorted);
}

#[test]
fn default_state_dir_precedence() {
    assert_eq!(default_state_dir(Some("/st"), Some("/h")), Some("/st/nami/reports".to_string()));
    assert_eq!(default_state_dir(Some(""), Some("/h")), Some("/h/.local/state/nami/reports".to_string()));
    assert_eq!(default_state_dir(None, None), None);
}

#[test]
fn empty_report_dir_is_relative() {
    match resolve_target(None, Some(""), Region::Caiso, now(), None) {
        Target::Archived(p) => assert_eq!(p, "2026-05-20/06-45-23-123456789-CAISO.json"),
        other => panic!("unexpected {other:?}"),
    }
}
