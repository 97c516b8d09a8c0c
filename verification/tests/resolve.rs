use nami::region::Region;
use nami::resolve::{config_path, refusal_text, resolve, ConfigRegion, RegionError, RegionSource};

/// The `region` entry of a config text, read with toml's table parser.
fn entry(text: &str) -> ConfigRegion {
    match text.parse::<toml::Table>() {
        Err(e) => ConfigRegion::Malformed(e.to_string()),
        Ok(t) => match t.get("region") {
            None => ConfigRegion::Absent,
            Some(toml::Value::String(s)) => ConfigRegion::Text(s.clone()),
            Some(v) => ConfigRegion::Malformed(format!("invalid type: {v}, expected a string")),
        },
    }
}

fn cfg(text: &str) -> Option<(ConfigRegion, String)> {
    Some((entry(text), "/tmp/nami/config.toml".to_string()))
}

#[test]
fn flag_wins_over_everything() {
    let r = resolve(Some(Region::Caiso), Some("ERCOT"), cfg("region = \"MISO\"")).unwrap();
    assert_eq!(r.region, Region::Caiso);
    assert_eq!(r.source, RegionSource::Flag);
}

#[test]
fn env_used_when_no_flag_and_beats_config() {
    let r = resolve(None, Some("ercot"), cfg("region = \"MISO\"")).unwrap();
    assert_eq!(r.region, Region::Ercot);
    assert_eq!(r.source, RegionSource::Env);
}

#[test]
fn blank_env_falls_through_to_config() {
    let r = resolve(None, Some("   "), cfg("region = \"PJM\"")).unwrap();
    assert_eq!(r.region, Region::Pjm);
    assert!(matches!(r.source, RegionSource::Config(_)));
}

#[test]
fn config_used_when_no_flag_or_env() {
    let r = resolve(None, None, cfg("region = \"ISONE\"")).unwrap();
    assert_eq!(r.region, Region::IsoNe);
}

#[test]
fn config_without_region_key_is_unresolved() {
    let e = resolve(None, None, cfg("other = 1")).unwrap_err();
    assert!(matches!(e, RegionError::Unresolved));
}

#[test]
fn nothing_anywhere_is_unresolved() {
    assert!(matches!(resolve(None, None, None).unwrap_err(), RegionError::Unresolved));
}

#[test]
fn invalid_env_value_is_rejected_not_ignored() {
    match resolve(None, Some("ATLANTIS"), None).unwrap_err() {
        RegionError::InvalidRegion { value, from } => {
            assert_eq!(value, "ATLANTIS");
            assert!(from.contains("NAMI_REGION"));
        }
        other => panic!("expected InvalidRegion, got {other:?}"),
    }
}

#[test]
fn invalid_config_value_is_rejected() {
    let e = resolve(None, None, cfg("region = \"nope\"")).unwrap_err();
    assert!(matches!(e, RegionError::InvalidRegion { .. }));
}

#[test]
fn malformed_config_is_a_config_error() {
    let e = resolve(None, None, cfg("region = ")).unwrap_err();
    assert!(matches!(e, RegionError::Config { .. }));
}

#[test]
fn region_codes_are_case_insensitive() {
    assert_eq!(resolve(None, Some("CaIsO"), None).unwrap().region, Region::Caiso);
}

#[test]
fn render_is_valid_toml_and_resolves_via_region_crate() {
    let s = nami::init::render_config(Region::Pjm);
    let r = resolve(None, None, Some((entry(s.as_str()), "/tmp/test.toml".to_string()))).unwrap();
    assert_eq!(r.region, Region::Pjm);
    assert!(matches!(r.source, RegionSource::Config(_)));
}

#[test]
fn config_path_precedence() {
    assert_eq!(config_path(Some("/x/c.toml"), Some("/xdg"), Some("/home/u")), Some("/x/c.toml".to_string()));
    assert_eq!(config_path(Some(""), Some("/xdg"), Some("/home/u")), Some("/xdg/nami/config.toml".to_string()));
    assert_eq!(config_path(None, Some("/xdg/"), None), Some("/xdg/nami/config.toml".to_string()));
    assert_eq!(config_path(None, Some(""), Some("/home/u")), Some("/home/u/.config/nami/config.toml".to_string()));
    assert_eq!(config_path(None, None, None), None);
}

#[test]
fn resolution_is_announced_unless_flagged() {
    let r = resolve(Some(Region::Caiso), None, None).unwrap();
    assert_eq!(r.note(), None);
    let r = resolve(None, Some("ercot"), None).unwrap();
    assert_eq!(r.note().unwrap(), "nami: region ERCOT resolved from NAMI_REGION (no --region given)");
    let r = resolve(None, None, cfg("region = \"MISO\"")).unwrap();
    assert_eq!(r.note().unwrap(), "nami: region MISO resolved from config /tmp/nami/config.toml (no --region given)");
}

#[test]
fn refusal_lists_supported_regions() {
    let e = resolve(None, None, None).unwrap_err();
    assert_eq!(
        refusal_text(&e),
        "no region: pass --region, set NAMI_REGION, or add `region = \"<BA>\"` to the nami config file\nsupported regions: CAISO, ERCOT, MISO, PJM, NYISO, ISONE, SPP"
    );
}

#[test]
fn config_parse_error_is_reported_with_the_parsers_message() {
    let e = resolve(None, None, Some((ConfigRegion::Malformed("invalid type: integer `5`, expected a string".into()), "/c.toml".into())))
        .unwrap_err();
    match e {
        RegionError::Config { path, msg } => {
            assert_eq!(path, "/c.toml");
            assert_eq!(msg, "invalid type: integer `5`, expected a string");
        }
        other => panic!("expected Config, got {other:?}"),
    }
}
