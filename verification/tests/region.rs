use std::str::FromStr;

use nami::region::{region_from_respondent, respondent_code, Region, RESPONDENTS};

#[test]
fn round_trip_codes() {
    for region in Region::ALL.iter() {
        assert_eq!(Region::from_str(region.as_code()).unwrap(), *region);
    }
}

#[test]
fn parse_is_case_insensitive() {
    assert_eq!(Region::from_str("ercot").unwrap(), Region::Ercot);
    assert_eq!(Region::from_str("Iso-NE").unwrap(), Region::IsoNe);
}

#[test]
fn rejects_unknown() {
    assert!(Region::from_str("ATLANTIS").is_err());
}

#[test]
fn respondent_round_trip() {
    for (code, region) in RESPONDENTS.iter() {
        assert_eq!(region_from_respondent(code), Some(*region));
        assert_eq!(respondent_code(*region), *code);
    }
    assert_eq!(region_from_respondent("ZZZZ"), None);
}

#[test]
fn unknown_region_error_holds_upper_cased_input() {
    match Region::parse("atlantis") {
        Err(e) => assert_eq!(e.message(), "unknown region: ATLANTIS"),
        Ok(r) => panic!("unexpected {r:?}"),
    }
}
