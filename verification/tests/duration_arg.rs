use nami::duration_arg::parse_duration;

const S: i128 = 1_000_000_000;

#[test]
fn parse_duration_units() {
    assert_eq!(parse_duration("30s").unwrap(), 30 * S);
    assert_eq!(parse_duration("45m").unwrap(), 45 * 60 * S);
    assert_eq!(parse_duration("2h").unwrap(), 2 * 3600 * S);
    assert_eq!(parse_duration("1d").unwrap(), 86400 * S);
    assert!(parse_duration("2x").is_err());
    assert!(parse_duration("h").is_err());
}

#[test]
fn duration_errors_say_what_was_wrong() {
    assert_eq!(parse_duration("2x").unwrap_err(), "unknown duration unit `x` (use s/m/h/d)");
    assert_eq!(parse_duration("h").unwrap_err(), "could not parse `` as an integer");
    assert_eq!(parse_duration("12").unwrap_err(), "duration must end with s/m/h/d (got `12`)");
    assert_eq!(parse_duration("").unwrap_err(), "duration must end with s/m/h/d (got ``)");
    assert_eq!(parse_duration("-3m").unwrap(), -180 * S);
    assert_eq!(parse_duration("+3s").unwrap(), 3 * S);
}
