use nami::eia_error::EiaError;
use nami::region::Region;
use nami::resolve::resolve;
use nami::doctor::{render, Check, CheckStatus};

fn check(status: CheckStatus, title: &str, detail: &str, fix: Option<&str>) -> Check {
    Check { status, title: title.into(), detail: detail.into(), fix: fix.map(str::to_string) }
}

#[test]
fn renders_tags_and_summary() {
    let checks = vec![
        check(CheckStatus::Pass, "region", "MISO (from NAMI_REGION)", None),
        check(
            CheckStatus::Warn,
            "EIA_API_KEY",
            "not set (only needed for `nami refresh`)",
            Some("free key: https://www.eia.gov/opendata/register.php"),
        ),
        check(CheckStatus::Fail, "MISO cache", "no observations for this region", Some("nami refresh --region MISO")),
    ];
    let (out, ok, warn, fail) = render(&checks);
    assert_eq!((ok, warn, fail), (1, 1, 1));
    assert!(out.contains("ok    region"));
    assert!(out.contains("warn  EIA_API_KEY"));
    assert!(out.contains("fail  MISO cache"));
    assert!(out.contains("        → nami refresh --region MISO"));
    assert!(out.contains("Summary: 1 ok, 1 warn, 1 fail"));
}

#[test]
fn render_handles_all_ok_with_no_fix_lines() {
    let checks = vec![
        check(CheckStatus::Pass, "region", "PJM (from --region)", None),
        check(CheckStatus::Pass, "EIA_API_KEY", "set", None),
    ];
    let (out, ok, warn, fail) = render(&checks);
    assert_eq!((ok, warn, fail), (2, 0, 0));
    assert!(!out.contains("→"));
    assert!(out.contains("Summary: 2 ok, 0 warn, 0 fail"));
}

#[test]
fn empty_checks_still_render_summary() {
    let (out, ok, warn, fail) = render(&vec![]);
    assert_eq!((ok, warn, fail), (0, 0, 0));
    assert!(out.starts_with("nami doctor\n"));
    assert!(out.contains("Summary: 0 ok, 0 warn, 0 fail"));
}

#[test]
fn gather_against_bogus_paths_yields_expected_failures() {
    let date = time::Date::from_calendar_date(2026, time::Month::May, 20).unwrap();
    let now = time::OffsetDateTime::new_utc(date, time::Time::from_hms(6, 0, 0).unwrap()).unix_timestamp_nanos();
    let checks = nami::doctor::gather_checks(
        resolve(Some(Region::Miso), None, None),
        Err(EiaError::EgridTable("not found: /no/such/egrid.toml".into())),
        "/no/such/egrid.toml",
        false,
        Err(EiaError::CacheMissing("/no/such/cache.json".into())),
        "/no/such/cache.json",
        now,
    );
    let region_check = &checks[0];
    assert_eq!(region_check.title, "region");
    assert_eq!(region_check.status, CheckStatus::Pass);
    assert!(region_check.detail.contains("MISO"));
    let egrid_check = checks.iter().find(|c| c.title == "eGRID factor table").expect("egrid check present");
    assert_eq!(egrid_check.status, CheckStatus::Fail);
    let cache_check = checks.iter().find(|c| c.title == "historical cache").expect("cache check present");
    assert_eq!(cache_check.status, CheckStatus::Fail);
    assert_eq!(cache_check.fix.as_deref(), Some("nami refresh --region MISO"));
}
