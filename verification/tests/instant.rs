use nami::instant::{checked_add, MAX_INSTANT, MIN_INSTANT};

const H: i128 = 3_600_000_000_000;

#[test]
fn calendar_bounds_are_the_time_crates() {
    let first = time::OffsetDateTime::from_unix_timestamp_nanos(MIN_INSTANT).unwrap();
    assert_eq!((first.year(), u8::from(first.month()), first.day()), (-9999, 1, 1));
    assert!(time::OffsetDateTime::from_unix_timestamp_nanos(MIN_INSTANT - 1).is_err());
    let last = time::OffsetDateTime::from_unix_timestamp_nanos(MAX_INSTANT).unwrap();
    assert_eq!((last.year(), u8::from(last.month()), last.day()), (9999, 12, 31));
    assert!(time::OffsetDateTime::from_unix_timestamp_nanos(MAX_INSTANT + 1).is_err());
}

#[test]
fn adding_past_the_first_date_is_none() {
    assert_eq!(checked_add(MIN_INSTANT, -H), None);
    assert_eq!(checked_add(MIN_INSTANT + H, -H), Some(MIN_INSTANT));
    assert_eq!(checked_add(MAX_INSTANT, 1), None);
}
