use nami::profile::{merge_into, resolve_profile, JobArgs, RawProfile};
use nami::region::Region;

const H: i128 = 3_600_000_000_000;

fn at(y: i32, mo: u8, d: u8, h: u8) -> i128 {
    let date = time::Date::from_calendar_date(y, time::Month::try_from(mo).unwrap(), d).unwrap();
    let t = time::Time::from_hms(h, 0, 0).unwrap();
    time::OffsetDateTime::new_utc(date, t).unix_timestamp_nanos()
}

fn now() -> i128 {
    at(2026, 5, 20, 6)
}

/// The `[profiles.*]` tables of a config text.
fn profiles_of(text: &str) -> Vec<(String, RawProfile)> {
    let table: toml::Table = text.parse().unwrap();
    let mut out = Vec::new();
    if let Some(toml::Value::Table(ps)) = table.get("profiles") {
        for (name, v) in ps {
            let t = v.as_table().unwrap();
            let s = |k: &str| t.get(k).and_then(|x| x.as_str()).map(str::to_string);
            let command = t.get("command").and_then(|x| x.as_array()).map(|a| {
                a.iter().map(|x| x.as_str().unwrap().to_string()).collect::<Vec<_>>()
            });
            out.push((
                name.clone(),
                RawProfile { region: s("region"), duration: s("duration"), within: s("within"), deadline: s("deadline"), command },
            ));
        }
    }
    out
}

const PATH: &str = "/tmp/nami/config.toml";

#[test]
fn resolves_a_minimal_profile_with_within() {
    let text = "[profiles.nightly]\nregion = \"MISO\"\nduration = \"2h\"\nwithin = \"8h\"\ncommand = [\"cargo\", \"test\"]\n";
    let p = resolve_profile("nightly", &profiles_of(text), PATH, now()).unwrap();
    assert_eq!(p.name, "nightly");
    assert_eq!(p.region, Some(Region::Miso));
    assert_eq!(p.duration, Some(2 * H));
    assert_eq!(p.deadline, Some((now() + 8 * H, 0)));
    assert_eq!(p.command, Some(vec!["cargo".to_string(), "test".to_string()]));
}

#[test]
fn deadline_field_used_when_set() {
    let text = "[profiles.fixed]\nduration = \"30m\"\ndeadline = \"2026-05-21T07:00:00Z\"\n";
    let p = resolve_profile("fixed", &profiles_of(text), PATH, now()).unwrap();
    assert_eq!(p.deadline, Some((at(2026, 5, 21, 7), 0)));
    assert_eq!(p.region, None);
    assert_eq!(p.command, None);
}

#[test]
fn within_and_deadline_are_mutually_exclusive() {
    let text = "[profiles.both]\nduration = \"1h\"\nwithin = \"8h\"\ndeadline = \"2026-05-21T07:00:00Z\"\n";
    let err = resolve_profile("both", &profiles_of(text), PATH, now()).unwrap_err();
    assert!(err.contains("mutually exclusive"));
}

#[test]
fn missing_profile_is_an_error_with_listing() {
    let text = "[profiles.reindex]\nduration = \"30m\"\nwithin = \"4h\"\n[profiles.nightly]\nduration = \"1h\"\nwithin = \"2h\"\n";
    let err = resolve_profile("eod", &profiles_of(text), PATH, now()).unwrap_err();
    assert!(err.contains("no profile `eod`"));
    assert!(err.contains("nightly") && err.contains("reindex"));
    assert!(err.ends_with("(available: nightly, reindex)"));
}

#[test]
fn missing_profile_with_none_defined_says_none() {
    let err = resolve_profile("eod", &vec![], PATH, now()).unwrap_err();
    assert_eq!(err, "no profile `eod` in /tmp/nami/config.toml (available: none)");
}

#[test]
fn bad_region_string_is_rejected() {
    let text = "[profiles.bad]\nregion = \"ATLANTIS\"\nduration = \"1h\"\nwithin = \"2h\"\n";
    let err = resolve_profile("bad", &profiles_of(text), PATH, now()).unwrap_err();
    assert_eq!(err, "profile `bad`: region \"ATLANTIS\": unknown region: ATLANTIS");
}

#[test]
fn bad_duration_string_is_rejected() {
    let text = "[profiles.bad]\nduration = \"2x\"\nwithin = \"8h\"\n";
    assert!(resolve_profile("bad", &profiles_of(text), PATH, now()).is_err());
}

#[test]
fn zero_within_is_rejected() {
    let text = "[profiles.bad]\nduration = \"1h\"\nwithin = \"0h\"\n";
    let err = resolve_profile("bad", &profiles_of(text), PATH, now()).unwrap_err();
    assert!(err.contains("within must be positive"));
}

#[test]
fn empty_command_array_is_rejected() {
    let text = "[profiles.bad]\nduration = \"1h\"\nwithin = \"2h\"\ncommand = []\n";
    assert!(resolve_profile("bad", &profiles_of(text), PATH, now()).is_err());
}

#[test]
fn coexists_with_top_level_region_key() {
    let text = "region = \"CAISO\"\n[profiles.foo]\nduration = \"1h\"\nwithin = \"8h\"\n";
    let p = resolve_profile("foo", &profiles_of(text), PATH, now()).unwrap();
    assert_eq!(p.region, None);
    assert!(p.duration.is_some());
}

#[test]
fn flags_win_and_profile_fills_the_gaps() {
    let text = "[profiles.nightly]\nregion = \"MISO\"\nduration = \"2h\"\nwithin = \"8h\"\ncommand = [\"cargo\", \"test\"]\n";
    let p = resolve_profile("nightly", &profiles_of(text), PATH, now()).unwrap();
    let mut args = JobArgs { region: Some(Region::Pjm), duration: None, deadline: None, command: vec![] };
    let notes = merge_into(&mut args, p);
    assert_eq!(args.region, Some(Region::Pjm));
    assert_eq!(args.duration, Some(2 * H));
    assert_eq!(args.deadline, Some((now() + 8 * H, 0)));
    assert_eq!(args.command, vec!["cargo".to_string(), "test".to_string()]);
    assert_eq!(
        notes,
        vec![
            "nami: duration 2h applied from profile `nightly` (no --duration given)".to_string(),
            "nami: deadline 2026-05-20T14:00:00Z applied from profile `nightly`".to_string(),
            "nami: command applied from profile `nightly` (cargo test)".to_string(),
        ]
    );
}

#[test]
fn profile_deadline_keeps_the_offset_it_was_written_at() {
    let text = "[profiles.cet]\nduration = \"30m\"\ndeadline = \"2026-05-21T07:00:00+02:00\"\n";
    let p = resolve_profile("cet", &profiles_of(text), PATH, now()).unwrap();
    assert_eq!(p.deadline, Some((at(2026, 5, 21, 5), 7200)));
    let mut args = JobArgs { region: Some(Region::Pjm), duration: None, deadline: None, command: vec!["x".to_string()] };
    let notes = merge_into(&mut args, p);
    assert_eq!(args.deadline, Some((at(2026, 5, 21, 5), 7200)));
    assert_eq!(notes[1], "nami: deadline 2026-05-21T07:00:00+02:00 applied from profile `cet`");
}
