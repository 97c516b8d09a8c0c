use nami::cache::Intensity;
use nami::egrid::{EgridFactors, EgridFile, FuelEntry, RegionEntry};
use nami::eia_error::EiaError;
use nami::fuel::FuelType;
use nami::region::Region;

fn g_per_kwh(lb_per_mwh: f64) -> f64 {
    lb_per_mwh * 453.592 / 1000.0
}

/// A complete synthetic table: all regions × fuels, distinct values.
fn synthetic() -> EgridFile {
    let mut regions = Vec::new();
    for r in Region::ALL.iter() {
        let mut fuels = Vec::new();
        for (i, f) in FuelType::ALL.iter().enumerate() {
            fuels.push(FuelEntry {
                code: f.as_code().to_string(),
                factor: Ok(Intensity { bits: g_per_kwh(100.0 + i as f64).to_bits() }),
            });
        }
        regions.push(RegionEntry { code: r.as_code().to_string(), fuels });
    }
    EgridFile {
        schema_version: 1,
        egrid_release: "eGRIDtest".into(),
        egrid_data_year: 2023,
        units: "lb_co2_per_mwh".into(),
        methodology: "egrid-test-ba".into(),
        regions,
    }
}

#[test]
fn parses_and_converts_units() {
    let f = EgridFactors::from_file(synthetic()).unwrap();
    assert_eq!(f.release, "eGRIDtest");
    assert_eq!(f.data_year, 2023);
    let col = f64::from_bits(f.factor(Region::Caiso, FuelType::Col).bits);
    assert!((col - 100.0 * 453.592 / 1000.0).abs() < 1e-9);
    let unk = f64::from_bits(f.factor(Region::Spp, FuelType::Unk).bits);
    assert!((unk - 108.0 * 453.592 / 1000.0).abs() < 1e-9);
}

#[test]
fn rejects_bad_schema_version() {
    let mut t = synthetic();
    t.schema_version = 99;
    assert!(matches!(EgridFactors::from_file(t), Err(EiaError::EgridTable(_))));
}

#[test]
fn rejects_wrong_units() {
    let mut t = synthetic();
    t.units = "gco2_per_kwh".into();
    assert!(matches!(EgridFactors::from_file(t), Err(EiaError::EgridTable(_))));
}

#[test]
fn rejects_missing_region() {
    let mut t = synthetic();
    t.regions[6].code = "ZZZ".into();
    match EgridFactors::from_file(t) {
        Err(EiaError::EgridTable(m)) => assert!(m.contains("SPP")),
        _ => panic!("expected an EgridTable error"),
    }
}

#[test]
fn rejects_missing_fuel() {
    let mut t = synthetic();
    for r in t.regions.iter_mut() {
        r.fuels.retain(|f| f.code != "NG");
    }
    assert!(matches!(EgridFactors::from_file(t), Err(EiaError::EgridTable(_))));
}

#[test]
fn rejects_negative_factor() {
    let mut t = synthetic();
    t.regions[0].fuels[0].factor = Err("negative factor -5".into());
    assert!(matches!(EgridFactors::from_file(t), Err(EiaError::EgridTable(_))));
}

fn refusal(t: EgridFile) -> String {
    match EgridFactors::from_file(t) {
        Err(EiaError::EgridTable(m)) => m,
        other => panic!("unexpected {other:?}"),
    }
}

#[test]
fn refusals_name_the_first_problem() {
    let mut t = synthetic();
    t.schema_version = 99;
    assert_eq!(refusal(t), "schema version mismatch: found v99, expected v1");

    let mut t = synthetic();
    t.units = "gco2_per_kwh".into();
    assert_eq!(refusal(t), "unexpected units 'gco2_per_kwh', expected 'lb_co2_per_mwh'");

    let mut t = synthetic();
    t.regions.retain(|r| r.code != "ERCOT" && r.code != "SPP");
    assert_eq!(refusal(t), "missing region 'ERCOT'");

    let mut t = synthetic();
    t.regions[2].fuels.retain(|f| f.code != "NG");
    assert_eq!(refusal(t), "region 'MISO' missing fuel 'NG'");

    let mut t = synthetic();
    t.regions[3].fuels[0].factor = Err("invalid value -1: negative".into());
    t.regions[4].fuels.clear();
    assert_eq!(refusal(t), "region 'PJM' fuel 'COL' invalid value -1: negative");
}
