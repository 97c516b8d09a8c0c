use nami::window::candidate_windows;

const H: i128 = 3_600_000_000_000;

fn at(y: i32, mo: u8, d: u8, h: u8, mi: u8, s: u8) -> i128 {
    let date = time::Date::from_calendar_date(y, time::Month::try_from(mo).unwrap(), d).unwrap();
    let t = time::Time::from_hms(h, mi, s).unwrap();
    time::OffsetDateTime::new_utc(date, t).unix_timestamp_nanos()
}

#[test]
fn aligned_now_includes_now_as_first_candidate() {
    let now = at(2030, 1, 1, 10, 0, 0);
    let deadline = at(2030, 1, 1, 14, 0, 0);
    let w = candidate_windows(now, deadline, H).unwrap();
    assert_eq!(w.len(), 4);
    assert_eq!(w[0].start, now);
    assert_eq!(w[3].start, at(2030, 1, 1, 13, 0, 0));
    assert_eq!(w[3].end().unwrap(), deadline);
}

#[test]
fn unaligned_now_starts_at_next_whole_hour() {
    let now = at(2030, 1, 1, 10, 15, 30);
    let deadline = at(2030, 1, 1, 14, 0, 0);
    let w = candidate_windows(now, deadline, H).unwrap();
    assert_eq!(
        w.iter().map(|c| c.start).collect::<Vec<_>>(),
        vec![at(2030, 1, 1, 11, 0, 0), at(2030, 1, 1, 12, 0, 0), at(2030, 1, 1, 13, 0, 0)]
    );
}

#[test]
fn sub_second_now_still_aligns_forward() {
    let now = at(2030, 1, 1, 10, 0, 0) + 500_000_000;
    let deadline = at(2030, 1, 1, 12, 0, 0);
    let w = candidate_windows(now, deadline, H).unwrap();
    assert_eq!(w.len(), 1);
    assert_eq!(w[0].start, at(2030, 1, 1, 11, 0, 0));
}

#[test]
fn exact_fit_yields_single_window() {
    let now = at(2030, 1, 1, 10, 0, 0);
    let deadline = at(2030, 1, 1, 12, 0, 0);
    let w = candidate_windows(now, deadline, 2 * H).unwrap();
    assert_eq!(w.len(), 1);
    assert_eq!(w[0].start, now);
    assert_eq!(w[0].end().unwrap(), deadline);
}

#[test]
fn job_too_long_for_deadline_yields_nothing() {
    let now = at(2030, 1, 1, 10, 0, 0);
    let deadline = at(2030, 1, 1, 11, 0, 0);
    assert!(candidate_windows(now, deadline, 2 * H).unwrap().is_empty());
}

#[test]
fn sub_hour_duration_still_hour_aligned_starts() {
    let now = at(2030, 1, 1, 10, 0, 0);
    let deadline = at(2030, 1, 1, 12, 0, 0);
    let w = candidate_windows(now, deadline, H / 2).unwrap();
    assert_eq!(
        w.iter().map(|c| c.start).collect::<Vec<_>>(),
        vec![at(2030, 1, 1, 10, 0, 0), at(2030, 1, 1, 11, 0, 0)]
    );
}

#[test]
fn zero_or_negative_duration_yields_nothing() {
    let now = at(2030, 1, 1, 10, 0, 0);
    let deadline = at(2030, 1, 1, 14, 0, 0);
    assert!(candidate_windows(now, deadline, 0).unwrap().is_empty());
    assert!(candidate_windows(now, deadline, -H).unwrap().is_empty());
}

#[test]
fn deadline_before_now_yields_nothing() {
    let now = at(2030, 1, 1, 10, 0, 0);
    let deadline = at(2030, 1, 1, 9, 0, 0);
    assert!(candidate_windows(now, deadline, H).unwrap().is_empty());
}
