use nami::confidence::{ConfidenceLevel, DataGranularity};
use nami::region::Region;
use nami::static_table::StaticTableProvider;

#[test]
fn supports_all_known_regions() {
    let p = StaticTableProvider::new();
    for r in Region::ALL.iter() {
        assert!(p.supports(*r), "should support {r:?}");
        let g = p.baseline(*r).unwrap();
        assert!(g > 0);
    }
    assert_eq!(p.baseline(Region::Spp).unwrap(), 480);
}

#[test]
fn declares_zero_capabilities() {
    let p = StaticTableProvider::new();
    let info = p.info();
    assert!(info.capabilities.is_empty());
    assert_eq!(info.granularity, DataGranularity::Annual);
    assert_eq!(info.expected_lag, None);
    assert_eq!(p.name(), "static-fallback");
}

#[test]
fn baseline_confidence_is_very_low() {
    let c = StaticTableProvider::baseline_confidence();
    assert_eq!(c.level, ConfidenceLevel::VeryLow);
    assert_eq!(c.sample_count, 0);
    assert!(!c.notes.is_empty());
}
