use nami::deadline::{normalize_deadline, parse_by, ByTime};

fn at(y: i32, mo: u8, d: u8, h: u8, mi: u8) -> i128 {
    let date = time::Date::from_calendar_date(y, time::Month::try_from(mo).unwrap(), d).unwrap();
    let t = time::Time::from_hms(h, mi, 0).unwrap();
    time::OffsetDateTime::new_utc(date, t).unix_timestamp_nanos()
}

fn now() -> i128 {
    at(2026, 5, 20, 6, 0)
}

#[test]
fn parse_simple_12h() {
    let b = parse_by("7am").unwrap();
    assert_eq!((b.hour, b.minute, b.day_offset), (7, 0, 0));
    let b = parse_by("7:30am").unwrap();
    assert_eq!((b.hour, b.minute, b.day_offset), (7, 30, 0));
    let b = parse_by("7:30pm").unwrap();
    assert_eq!((b.hour, b.minute, b.day_offset), (19, 30, 0));
    let b = parse_by("12am").unwrap();
    assert_eq!(b.hour, 0);
    let b = parse_by("12pm").unwrap();
    assert_eq!(b.hour, 12);
}

#[test]
fn parse_24h() {
    let b = parse_by("19:30").unwrap();
    assert_eq!((b.hour, b.minute), (19, 30));
    let b = parse_by("00:00").unwrap();
    assert_eq!((b.hour, b.minute), (0, 0));
    let b = parse_by("23:59").unwrap();
    assert_eq!((b.hour, b.minute), (23, 59));
}

#[test]
fn parse_tomorrow_prefix() {
    let b = parse_by("tomorrow-9am").unwrap();
    assert_eq!((b.hour, b.day_offset), (9, 1));
    let b = parse_by("tomorrow 14:00").unwrap();
    assert_eq!((b.hour, b.day_offset), (14, 1));
    let b = parse_by("today 5am").unwrap();
    assert_eq!((b.hour, b.day_offset), (5, 0));
}

#[test]
fn parse_rejects_invalid() {
    for bad in ["xyz", "25:00", "7zm", "13pm", "0pm", "7:60", "", "  "] {
        assert!(parse_by(bad).is_err(), "should reject {bad:?}");
    }
}

#[test]
fn resolve_picks_today_when_future() {
    let b = parse_by("7am").unwrap();
    assert_eq!(b.resolve(now()).unwrap(), at(2026, 5, 20, 7, 0));
}

#[test]
fn resolve_bumps_to_tomorrow_when_past() {
    let b = parse_by("5am").unwrap();
    assert_eq!(b.resolve(now()).unwrap(), at(2026, 5, 21, 5, 0));
}

#[test]
fn resolve_respects_explicit_tomorrow() {
    let b = parse_by("tomorrow 11pm").unwrap();
    assert_eq!(b.resolve(now()).unwrap(), at(2026, 5, 21, 23, 0));
}

#[test]
fn resolve_today_equals_now_bumps_to_tomorrow() {
    let b = parse_by("6am").unwrap();
    assert_eq!(b.resolve(now()).unwrap(), at(2026, 5, 21, 6, 0));
}

const H: i128 = 3_600_000_000_000;

#[test]
fn explicit_deadline_is_kept_without_a_note() {
    let d = at(2026, 5, 21, 9, 0);
    assert_eq!(normalize_deadline(Some((d, 7200)), None, &None, now()).unwrap(), Some(((d, 7200), None)));
}

#[test]
fn within_adds_to_now_and_is_announced() {
    let (t, note) = normalize_deadline(None, Some(8 * H), &None, now()).unwrap().unwrap();
    assert_eq!(t, (at(2026, 5, 20, 14, 0), 0));
    assert_eq!(note.unwrap(), "nami: deadline 2026-05-20T14:00:00Z (from --within 8h)");
}

#[test]
fn by_resolves_and_is_announced() {
    let by = Some(parse_by("7am").unwrap());
    let (t, note) = normalize_deadline(None, None, &by, now()).unwrap().unwrap();
    assert_eq!(t, (at(2026, 5, 20, 7, 0), 0));
    assert_eq!(note.unwrap(), "nami: deadline 2026-05-20T07:00:00Z (from --by 7am) [UTC]");
}

#[test]
fn by_outside_the_calendar_is_an_error() {
    let by = Some(ByTime { hour: 7, minute: 0, day_offset: 10_000_000, raw: "far".to_string() });
    assert_eq!(
        normalize_deadline(None, None, &by, now()).unwrap_err(),
        "--by \"far\": date arithmetic overflowed: 2026-05-20 + 10000000d"
    );
}

#[test]
fn no_deadline_flags_give_none() {
    assert_eq!(normalize_deadline(None, None, &None, now()).unwrap(), None);
}

#[test]
fn by_errors_name_the_problem_and_the_text() {
    assert_eq!(parse_by("   ").unwrap_err(), "--by value is empty");
    assert_eq!(parse_by("x").unwrap_err(), "could not parse hour in \"x\"");
    assert_eq!(parse_by("7:xx").unwrap_err(), "could not parse minute in \"7:xx\"");
    assert_eq!(parse_by("7:75").unwrap_err(), "minute 75 out of range in \"7:75\"");
    assert_eq!(parse_by("13pm").unwrap_err(), "12-hour clock hour 13 invalid in \"13pm\" (use 1-12 with am/pm)");
    assert_eq!(parse_by("Tomorrow-25").unwrap_err(), "24-hour clock hour 25 out of range in \"25\" (use 0-23)");
}

#[test]
fn by_resolution_errors_follow_the_calendar_arithmetic() {
    let bad_hour = ByTime { hour: 25, minute: 0, day_offset: 0, raw: "x".to_string() };
    assert_eq!(bad_hour.resolve(now()).unwrap_err(), "invalid time 25:0: hour was not in range");
    let bad_minute = ByTime { hour: 5, minute: 61, day_offset: 0, raw: "x".to_string() };
    assert_eq!(bad_minute.resolve(now()).unwrap_err(), "invalid time 5:61: minute was not in range");
    let huge = ByTime { hour: 7, minute: 0, day_offset: i64::MAX, raw: "x".to_string() };
    assert_eq!(huge.resolve(now()).unwrap_err(), "day offset 9223372036854775807 overflows");
    let last = at(9999, 12, 31, 23, 0);
    let next = ByTime { hour: 7, minute: 0, day_offset: 0, raw: "x".to_string() };
    assert_eq!(next.resolve(last).unwrap_err(), "date arithmetic overflowed: 9999-12-31 + 1d");
}

#[test]
fn by_values_read_the_same_in_upper_case() {
    for s in ["tomorrow 7am", "today-19:30", "12pm", " tomorrow-6:05 pm ", "25:00", ""] {
        let lower = parse_by(s);
        let upper = parse_by(&s.to_ascii_uppercase());
        match (lower, upper) {
            (Ok(a), Ok(b)) => {
                assert_eq!((a.hour, a.minute, a.day_offset), (b.hour, b.minute, b.day_offset));
                assert!(a.hour <= 23 && a.minute <= 59 && (a.day_offset == 0 || a.day_offset == 1));
            }
            (Err(a), Err(b)) => assert_eq!(a, b),
            other => panic!("case changed the outcome for {s:?}: {other:?}"),
        }
    }
}
