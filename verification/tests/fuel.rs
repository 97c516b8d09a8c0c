use nami::fuel::{classify_fuel, FuelClass, FuelType};

#[test]
fn classify_storage_and_unknown() {
    assert!(matches!(classify_fuel("BAT"), FuelClass::Storage));
    assert!(matches!(classify_fuel("ps"), FuelClass::Storage));
    assert!(matches!(classify_fuel("NG"), FuelClass::Generation(FuelType::Ng)));
    assert!(matches!(classify_fuel("GEO"), FuelClass::Generation(FuelType::Oth)));
    assert!(matches!(classify_fuel("XYZ"), FuelClass::Unknown));
}
