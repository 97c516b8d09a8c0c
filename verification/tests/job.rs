use nami::decision::JobSpec;
use nami::region::Region;

const H: i128 = 3_600_000_000_000;

fn at(y: i32, mo: u8, d: u8, h: u8) -> i128 {
    let date = time::Date::from_calendar_date(y, time::Month::try_from(mo).unwrap(), d).unwrap();
    let t = time::Time::from_hms(h, 0, 0).unwrap();
    time::OffsetDateTime::new_utc(date, t).unix_timestamp_nanos()
}

fn spec() -> JobSpec {
    JobSpec {
        command: vec!["python".into(), "train.py".into()],
        estimated_duration: 2 * H,
        deadline: at(2030, 1, 1, 12),
        region: Region::Ercot,
    }
}

#[test]
fn validates_a_reasonable_spec() {
    assert!(spec().validate(at(2030, 1, 1, 6)).is_ok());
}

#[test]
fn rejects_empty_command() {
    let mut s = spec();
    s.command.clear();
    assert!(s.validate(at(2030, 1, 1, 6)).is_err());
}

#[test]
fn rejects_past_deadline() {
    assert!(spec().validate(at(2030, 1, 1, 13)).is_err());
}

#[test]
fn rejects_too_tight_deadline() {
    match spec().validate(at(2030, 1, 1, 11)) {
        Err(e) => assert_eq!(e.message(), "invalid job spec: deadline does not leave room for estimated_duration"),
        Ok(()) => panic!("expected an error"),
    }
}
