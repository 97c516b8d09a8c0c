use nami::eia_error::EiaError;
use nami::fuel::FuelType;
use nami::fuel_mix::{parse_eia_period, parse_fuel_type_data, FuelMixHour, RawRow, RowValue};
use nami::region::Region;

fn at(y: i32, mo: u8, d: u8, h: u8) -> i128 {
    let date = time::Date::from_calendar_date(y, time::Month::try_from(mo).unwrap(), d).unwrap();
    let t = time::Time::from_hms(h, 0, 0).unwrap();
    time::OffsetDateTime::new_utc(date, t).unix_timestamp_nanos()
}

fn row(period: &str, respondent: &str, fueltype: &str, value: RowValue) -> RawRow {
    RawRow { period: period.into(), respondent: respondent.into(), fueltype: fueltype.into(), value }
}

fn num(v: f64) -> RowValue {
    RowValue::Number(v.to_bits())
}

/// Fuel and summed MWh, for the fuels with values, in canonical order.
fn generation(m: &FuelMixHour) -> Vec<(FuelType, f64)> {
    let mut out = Vec::new();
    for (i, vals) in m.generation.iter().enumerate() {
        if !vals.is_empty() {
            let mut sum = 0.0;
            for b in vals {
                sum += f64::from_bits(*b);
            }
            out.push((FuelType::ALL[i], sum));
        }
    }
    out
}

#[test]
fn period_parsing() {
    assert_eq!(parse_eia_period("2026-05-12T00").unwrap(), at(2026, 5, 12, 0));
    assert_eq!(parse_eia_period("2026-05-12T23").unwrap(), at(2026, 5, 12, 23));
    assert!(parse_eia_period("2026-05-12").is_err());
    assert!(parse_eia_period("2026-05-12T24").is_err());
    assert!(parse_eia_period("notadate T00").is_err());
}

#[test]
fn period_errors_name_the_failing_part() {
    match parse_eia_period("2026-05-12") {
        Err(EiaError::Malformed(m)) => assert_eq!(m, "EIA period '2026-05-12' missing 'T' hour separator"),
        other => panic!("unexpected {other:?}"),
    }
    match parse_eia_period("2026-05-12T24") {
        Err(EiaError::Malformed(m)) => assert_eq!(m, "EIA period '2026-05-12T24' hour out of range: hour was not in range"),
        other => panic!("unexpected {other:?}"),
    }
    match parse_eia_period("2026-05-12Tx") {
        Err(EiaError::Malformed(m)) => assert_eq!(m, "EIA period '2026-05-12Tx' bad hour: invalid digit found in string"),
        other => panic!("unexpected {other:?}"),
    }
    match parse_eia_period("2026-05-12T999") {
        Err(EiaError::Malformed(m)) => assert!(m.ends_with("bad hour: number too large to fit in target type")),
        other => panic!("unexpected {other:?}"),
    }
}

#[test]
fn aggregates_geo_into_oth_and_excludes_storage() {
    let rows = vec![
        row("2026-05-12T00", "CISO", "OTH", num(-557.0)),
        row("2026-05-12T00", "CISO", "GEO", num(675.0)),
        row("2026-05-12T00", "ERCO", "BAT", num(-55.0)),
        row("2026-05-12T00", "ERCO", "NG", num(26481.0)),
    ];
    let mix = parse_fuel_type_data(&rows).unwrap();
    assert_eq!(mix.len(), 2);
    let ciso = mix.iter().find(|m| m.region == Region::Caiso).unwrap();
    assert_eq!(generation(ciso), vec![(FuelType::Oth, 118.0)]);
    let erco = mix.iter().find(|m| m.region == Region::Ercot).unwrap();
    assert_eq!(generation(erco), vec![(FuelType::Ng, 26481.0)]);
    assert!(erco.notes.is_empty());
}

#[test]
fn unknown_fuel_maps_to_unk_with_note() {
    let rows = vec![row("2026-05-12T00", "PJM", "FUSION", num(42.0))];
    let mix = parse_fuel_type_data(&rows).unwrap();
    assert_eq!(mix.len(), 1);
    assert_eq!(generation(&mix[0]), vec![(FuelType::Unk, 42.0)]);
    assert_eq!(mix[0].notes.len(), 1);
    assert!(mix[0].notes[0].contains("FUSION"));
}

#[test]
fn unexpected_respondent_is_hard_error() {
    let rows = vec![row("2026-05-12T00", "FPL", "NG", num(1.0))];
    assert!(matches!(parse_fuel_type_data(&rows), Err(EiaError::Malformed(_))));
}

#[test]
fn null_value_skipped_unparseable_noted() {
    let rows = vec![
        row("2026-05-12T00", "MISO", "NG", RowValue::Missing),
        row("2026-05-12T00", "MISO", "COL", RowValue::Invalid("unparseable value \"oops\"".into())),
    ];
    let mix = parse_fuel_type_data(&rows).unwrap();
    assert_eq!(mix.len(), 1);
    assert!(generation(&mix[0]).is_empty());
    assert_eq!(mix[0].notes.len(), 1);
    assert!(mix[0].notes[0].contains("COL"));
}

#[test]
fn output_is_ordered_by_hour_then_region_code() {
    let rows = vec![
        row("2026-05-12T01", "MISO", "NG", num(1.0)),
        row("2026-05-12T00", "SWPP", "NG", num(2.0)),
        row("2026-05-12T00", "CISO", "NG", num(3.0)),
    ];
    let mix = parse_fuel_type_data(&rows).unwrap();
    let keys: Vec<(i128, Region)> = mix.iter().map(|m| (m.at, m.region)).collect();
    assert_eq!(keys, vec![(at(2026, 5, 12, 0), Region::Caiso), (at(2026, 5, 12, 0), Region::Spp), (at(2026, 5, 12, 1), Region::Miso)]);
}

#[test]
fn mixes_come_out_once_per_region_hour_in_strict_order() {
    let rows = vec![
        row("2026-05-12T02", "CISO", "NG", num(1.0)),
        row("2026-05-12T01", "ERCO", "NG", num(2.0)),
        row("2026-05-12T01", "CISO", "SUN", num(3.0)),
        row("2026-05-12T02", "CISO", "WND", num(4.0)),
        row("2026-05-12T01", "CISO", "NG", num(5.0)),
    ];
    let mixes = parse_fuel_type_data(&rows).unwrap();
    let keys: Vec<(i128, Region)> = mixes.iter().map(|m| (m.at, m.region)).collect();
    assert_eq!(
        keys,
        vec![
            (at(2026, 5, 12, 1), Region::Caiso),
            (at(2026, 5, 12, 1), Region::Ercot),
            (at(2026, 5, 12, 2), Region::Caiso),
        ]
    );
}
