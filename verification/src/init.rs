//! First-run setup: the config file written by `nami init`, the decision
//! whether to write it, and the "next steps" snapshot printed afterwards.

use vstd::prelude::*;

use crate::region::{region_code, Region};
use crate::text::push_str;
use vstd::string::StringExecFns;

verus! {

/// Everything before the default region.
pub open spec fn config_head() -> Seq<char> {
    "# nami configuration.\n#\n# This file holds your default region and any named profiles.\n# `nami preview` and `nami run` read it when --region or\n# --duration/--deadline aren't given on the CLI.\n#\n# Region resolution order:\n#   --region flag > --profile's region > NAMI_REGION env > this file's `region`.\n# Anything passed on the CLI overrides a profile's value.\n#\n# Supported regions: CAISO, ERCOT, MISO, PJM, NYISO, ISONE, SPP.\n\nregion = \""@
}

/// Between the default region and the example profile's region.
pub open spec fn config_middle() -> Seq<char> {
    "\"\n\n# Example profile (uncomment to use):\n#\n# [profiles.nightly]\n# region   = \""@
}

/// Everything after the example profile's region.
pub open spec fn config_tail() -> Seq<char> {
    "\"          # optional: override the default above\n# duration = \"2h\"            # expected job duration\n# within   = \"8h\"            # deadline = now + 8h at invocation\n# command  = [\"cargo\", \"test\", \"--workspace\"]\n#\n# Or with an absolute deadline (alt. to `within`):\n# deadline = \"2026-05-20T13:00:00Z\"\n"@
}

/// The config file for a default region: a commented header, the
/// `region` key, and a commented-out example profile.
pub open spec fn config_text(region: Region) -> Seq<char> {
    config_head() + region_code(region) + config_middle() + region_code(region) + config_tail()
}

/// Render the config file content for `region`.
pub fn render_config(region: Region) -> (s: String)
    ensures
        s@ == config_text(region),
{
    let mut s = String::from_str(
        "# nami configuration.\n#\n# This file holds your default region and any named profiles.\n# `nami preview` and `nami run` read it when --region or\n# --duration/--deadline aren't given on the CLI.\n#\n# Region resolution order:\n#   --region flag > --profile's region > NAMI_REGION env > this file's `region`.\n# Anything passed on the CLI overrides a profile's value.\n#\n# Supported regions: CAISO, ERCOT, MISO, PJM, NYISO, ISONE, SPP.\n\nregion = \"",
    );
    push_str(&mut s, region.as_code());
    push_str(
        &mut s,
        "\"\n\n# Example profile (uncomment to use):\n#\n# [profiles.nightly]\n# region   = \"",
    );
    push_str(&mut s, region.as_code());
    push_str(
        &mut s,
        "\"          # optional: override the default above\n# duration = \"2h\"            # expected job duration\n# within   = \"8h\"            # deadline = now + 8h at invocation\n# command  = [\"cargo\", \"test\", \"--workspace\"]\n#\n# Or with an absolute deadline (alt. to `within`):\n# deadline = \"2026-05-20T13:00:00Z\"\n",
    );
    assert(s@ =~= config_text(region));
    s
}

/// What `nami init` does with the rendered config.
#[derive(Debug, Clone, Copy, PartialEq, Eq, Structural)]
pub enum InitAction {
    /// Print the content without writing (`--dry-run`).
    Print,
    /// Refuse: the file exists and `--force` was not given.
    RefuseExisting,
    /// Write the file (atomically).
    Write,
}

/// Dry-run wins; otherwise an existing file is only overwritten with
/// `--force`.
pub fn init_action(dry_run: bool, present: bool, force: bool) -> (a: InitAction)
    ensures
        dry_run ==> a == InitAction::Print,
        !dry_run && present && !force ==> a == InitAction::RefuseExisting,
        !dry_run && (!present || force) ==> a == InitAction::Write,
{
    if dry_run {
        InitAction::Print
    } else if present && !force {
        InitAction::RefuseExisting
    } else {
        InitAction::Write
    }
}

/// The "Next steps" snapshot printed after a successful write.
pub open spec fn next_steps_text(
    region: Region,
    egrid_present: bool,
    key_set: bool,
    cache_has_region: bool,
    egrid_path: Seq<char>,
) -> Seq<char> {
    let code = region_code(region);
    "\nNext steps:\n"@ + (if egrid_present {
        "  ok    eGRID factor table present\n"@
    } else {
        "  todo  eGRID factor table missing at "@ + egrid_path
            + "; rebuild with\n        `cargo run -p nami-carbon-eia --features egrid-refresh --bin refresh-egrid`\n"@
    }) + (if key_set {
        "  ok    EIA_API_KEY set\n"@
    } else {
        "  todo  EIA_API_KEY not set; needed for `nami refresh` (free key:\n        https://www.eia.gov/opendata/register.php)\n"@
    }) + (if cache_has_region {
        "  ok    "@ + code + " history cached\n"@
    } else {
        "  todo  no cached history for "@ + code
            + "; once EIA_API_KEY is set, run:\n        nami refresh --region "@ + code + "\n"@
    }) + "\nRun `nami status` any time for a full diagnostic.\n"@
}

/// Render the post-init snapshot from the three precondition checks.
pub fn next_steps(
    region: Region,
    egrid_present: bool,
    key_set: bool,
    cache_has_region: bool,
    egrid_path: &str,
) -> (s: String)
    ensures
        s@ == next_steps_text(region, egrid_present, key_set, cache_has_region, egrid_path@),
{
    let code = region.as_code();
    let mut s = String::from_str("\nNext steps:\n");
    if egrid_present {
        push_str(&mut s, "  ok    eGRID factor table present\n");
    } else {
        push_str(&mut s, "  todo  eGRID factor table missing at ");
        push_str(&mut s, egrid_path);
        push_str(
            &mut s,
            "; rebuild with\n        `cargo run -p nami-carbon-eia --features egrid-refresh --bin refresh-egrid`\n",
        );
    }
    if key_set {
        push_str(&mut s, "  ok    EIA_API_KEY set\n");
    } else {
        push_str(
            &mut s,
            "  todo  EIA_API_KEY not set; needed for `nami refresh` (free key:\n        https://www.eia.gov/opendata/register.php)\n",
        );
    }
    if cache_has_region {
        push_str(&mut s, "  ok    ");
        push_str(&mut s, code);
        push_str(&mut s, " history cached\n");
    } else {
        push_str(&mut s, "  todo  no cached history for ");
        push_str(&mut s, code);
        push_str(&mut s, "; once EIA_API_KEY is set, run:\n        nami refresh --region ");
        push_str(&mut s, code);
        push_str(&mut s, "\n");
    }
    push_str(&mut s, "\nRun `nami status` any time for a full diagnostic.\n");
    assert(s@ =~= next_steps_text(region, egrid_present, key_set, cache_has_region, egrid_path@));
    s
}

} // verus!
