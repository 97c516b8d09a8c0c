use nami::init::{init_action, next_steps, render_config, InitAction};
use nami::region::Region;

#[test]
fn render_includes_region_and_example_profile() {
    let s = render_config(Region::Miso);
    assert!(s.contains("region = \"MISO\""));
    assert!(s.contains("# [profiles.nightly]"));
    assert!(s.contains("CAISO, ERCOT, MISO, PJM, NYISO, ISONE, SPP"));
}

#[test]
fn init_writes_only_when_allowed() {
    assert_eq!(init_action(true, true, false), InitAction::Print);
    assert_eq!(init_action(false, true, false), InitAction::RefuseExisting);
    assert_eq!(init_action(false, true, true), InitAction::Write);
    assert_eq!(init_action(false, false, false), InitAction::Write);
}

#[test]
fn next_steps_name_the_missing_pieces() {
    let s = next_steps(Region::Spp, false, true, false, "data/egrid-factors.toml");
    assert!(s.contains("  todo  eGRID factor table missing at data/egrid-factors.toml"));
    assert!(s.contains("  ok    EIA_API_KEY set\n"));
    assert!(s.contains("nami refresh --region SPP\n"));
    assert!(s.ends_with("Run `nami status` any time for a full diagnostic.\n"));
}

#[test]
fn refuses_to_overwrite_without_force() {
    assert_eq!(init_action(false, true, false), InitAction::RefuseExisting);
}

#[test]
fn force_overwrites_existing_file() {
    assert_eq!(init_action(false, true, true), InitAction::Write);
    assert!(render_config(Region::Ercot).contains("region = \"ERCOT\""));
}

#[test]
fn dry_run_does_not_write() {
    assert_eq!(init_action(true, false, false), InitAction::Print);
}
