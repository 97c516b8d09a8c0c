//! Deterministic region resolution: `--region` flag, then the
//! `NAMI_REGION` environment value, then the config file's `region` key.
//! Nothing is guessed: when none of them names a region, resolution is
//! refused.

use vstd::prelude::*;

use crate::program::{join_path, joined_path};
use crate::region::{parse_region_chars, parse_region_spec, region_code, Region};
use vstd::string::StrSliceExecFns;
use vstd::string::StringExecFns;
use crate::text::{chars_of, push_str, skip_ws_end, skip_ws_start, string_of, trim_seq};

verus! {

/// Which source supplied the resolved region.
#[derive(Debug, Clone, PartialEq, Eq)]
pub enum RegionSource {
    /// The explicit `--region` flag.
    Flag,
    /// The `NAMI_REGION` environment variable.
    Env,
    /// The config file at this path.
    Config(String),
}

/// A resolved region together with where it came from.
#[derive(Debug, Clone, PartialEq, Eq)]
pub struct Resolved {
    /// The resolved balancing authority.
    pub region: Region,
    /// The source the value came from.
    pub source: RegionSource,
}

/// A region-resolution error.
#[derive(Debug)]
pub enum RegionError {
    /// A region string from the environment or config file was not a
    /// supported balancing authority.
    InvalidRegion {
        /// The offending (trimmed) value.
        value: String,
        /// Where it came from.
        from: &'static str,
    },
    /// The config file could not be read as TOML with a string `region`.
    Config {
        /// Config file path.
        path: String,
        /// Parser message.
        msg: String,
    },
    /// Filesystem error reading the config file.
    Io(String),
    /// No region from the flag, the environment, or the config file.
    Unresolved,
}

/// The config file's `region` key, as the config file's TOML parse gave
/// it.
pub enum ConfigRegion {
    /// The document parsed and has no `region` key.
    Absent,
    /// `region` is a string.
    Text(String),
    /// The document could not be read as TOML with an optional string
    /// `region`; the parser's message.
    Malformed(String),
}

impl View for ConfigRegion {
    /// `Ok(None)`: absent; `Ok(Some(t))`: text; `Err(m)`: the parser's
    /// message `m`.
    type V = Result<Option<Seq<char>>, Seq<char>>;

    open spec fn view(&self) -> Result<Option<Seq<char>>, Seq<char>> {
        match self {
            ConfigRegion::Absent => Ok(None),
            ConfigRegion::Text(t) => Ok(Some(t@)),
            ConfigRegion::Malformed(m) => Err(m@),
        }
    }
}

/// Source label used when the environment value is not a region.
pub open spec fn env_label() -> Seq<char> {
    "NAMI_REGION environment variable"@
}

/// Source label used when the config value is not a region.
pub open spec fn config_label() -> Seq<char> {
    "config file `region`"@
}

/// The characters of an optional string slice.
pub open spec fn opt_str_view(o: Option<&str>) -> Option<Seq<char>> {
    match o {
        Some(s) => Some(s@),
        None => None,
    }
}

/// `true` when an environment value is present and not blank.
pub open spec fn env_applies(env: Option<Seq<char>>) -> bool {
    env matches Some(e) && trim_seq(e).len() > 0
}

/// The outcome of parsing a region value (already known to be non-blank)
/// that came from `from`.
pub open spec fn parsed_as(
    r: Result<Region, RegionError>,
    raw: Seq<char>,
    from: Seq<char>,
) -> bool {
    match parse_region_spec(trim_seq(raw)) {
        Some(x) => r matches Ok(y) && y == x,
        None => r matches Err(RegionError::InvalidRegion { value, from: f }) && value@ == trim_seq(
            raw,
        ) && f@ == from,
    }
}

/// Trim `value` and parse it as a region; a failure names `from`.
pub fn parse(value: &str, from: &'static str) -> (r: Result<Region, RegionError>)
    ensures
        parsed_as(r, value@, from@),
{
    let v = chars_of(value);
    let a = skip_ws_start(&v, 0, v.len());
    let b = skip_ws_end(&v, a, v.len());
    assert(v@.subrange(a as int, b as int) == trim_seq(value@));
    match parse_region_chars(&v, a, b) {
        Some(reg) => Ok(reg),
        None => Err(RegionError::InvalidRegion { value: string_of(&v, a, b), from }),
    }
}

/// Whether `s` is empty after trimming.
fn is_blank(s: &str) -> (r: bool)
    ensures
        r == (trim_seq(s@).len() == 0),
{
    let v = chars_of(s);
    let a = skip_ws_start(&v, 0, v.len());
    let b = skip_ws_end(&v, a, v.len());
    a == b
}

/// Apply the precedence chain flag > environment > config file > refuse.
///
/// `config` is the config file's `region` entry, as its TOML parse gave
/// it, paired with the file's path (for error and provenance messages);
/// `None` when there is no readable config file.
/// A blank environment or config value falls through to the next source.
pub fn resolve(
    flag: Option<Region>,
    env_region: Option<&str>,
    config: Option<(ConfigRegion, String)>,
) -> (r: Result<Resolved, RegionError>)
    ensures
        flag matches Some(f) ==> r == Ok::<Resolved, RegionError>(
            Resolved { region: f, source: RegionSource::Flag },
        ),
        flag is None && env_applies(opt_str_view(env_region)) ==> ({
            let e = env_region.unwrap()@;
            match parse_region_spec(trim_seq(e)) {
                Some(x) => r == Ok::<Resolved, RegionError>(
                    Resolved { region: x, source: RegionSource::Env },
                ),
                None => r matches Err(RegionError::InvalidRegion { value, from }) && value@
                    == trim_seq(e) && from@ == env_label(),
            }
        }),
        flag is None && !env_applies(opt_str_view(env_region)) && config is None ==> r
            matches Err(RegionError::Unresolved),
        flag is None && !env_applies(opt_str_view(env_region)) && config is Some ==> ({
            let (entry, path) = config.unwrap();
            match entry@ {
                Err(m) => r matches Err(RegionError::Config { path: p, msg }) && p == path
                    && msg@ == m,
                Ok(None) => r matches Err(RegionError::Unresolved),
                Ok(Some(v)) => if trim_seq(v).len() == 0 {
                    r matches Err(RegionError::Unresolved)
                } else {
                    match parse_region_spec(trim_seq(v)) {
                        Some(x) => r == Ok::<Resolved, RegionError>(
                            Resolved { region: x, source: RegionSource::Config(path) },
                        ),
                        None => r matches Err(RegionError::InvalidRegion { value, from })
                            && value@ == trim_seq(v) && from@ == config_label(),
                    }
                },
            }
        }),
{
    if let Some(region) = flag {
        return Ok(Resolved { region, source: RegionSource::Flag });
    }
    if let Some(raw) = env_region {
        if !is_blank(raw) {
            return match parse(raw, "NAMI_REGION environment variable") {
                Ok(region) => Ok(Resolved { region, source: RegionSource::Env }),
                Err(e) => Err(e),
            };
        }
    }
    if let Some((entry, path)) = config {
        match entry {
            ConfigRegion::Malformed(msg) => {
                return Err(RegionError::Config { path, msg });
            },
            ConfigRegion::Absent => {},
            ConfigRegion::Text(raw) => {
                if !is_blank(raw.as_str()) {
                    return match parse(raw.as_str(), "config file `region`") {
                        Ok(region) => Ok(Resolved { region, source: RegionSource::Config(path) }),
                        Err(e) => Err(e),
                    };
                }
            },
        }
    }
    Err(RegionError::Unresolved)
}

} // verus!

verus! {

/// `str`'s `Debug` rendering: the text in double quotes with escapes.
pub uninterp spec fn debug_text(s: Seq<char>) -> Seq<char>;

/// Renders a string slice with `<str as Debug>::fmt` (quoted, escaped).
/// The result depends only on the text; the escaping is std's.
#[verifier::external_body]
pub(crate) fn debug_quoted(s: &str) -> (r: String)
    ensures
        r@ == debug_text(s@),
{
    format!("{s:?}")
}

/// The message of a region-resolution error.
pub open spec fn region_error_message(e: RegionError) -> Seq<char> {
    match e {
        RegionError::InvalidRegion { value, from } => from@ + " value "@ + debug_text(value@)
            + " is not a supported region"@,
        RegionError::Config { path, msg } => "config file "@ + path@ + ": "@ + msg@,
        RegionError::Io(m) => "io reading config: "@ + m@,
        RegionError::Unresolved => unresolved_message(),
    }
}

/// The refusal message when no source names a region.
pub open spec fn unresolved_message() -> Seq<char> {
    "no region: pass --region, set NAMI_REGION, or add `region = \"<BA>\"` to the nami config file"@
}

impl RegionError {
    /// The human-readable message of this error.
    pub fn message(&self) -> (s: String)
        ensures
            s@ == region_error_message(*self),
    {
        let mut s = String::new();
        match self {
            RegionError::InvalidRegion { value, from } => {
                crate::text::push_str(&mut s, from);
                crate::text::push_str(&mut s, " value ");
                let q = debug_quoted(value.as_str());
                crate::text::push_str(&mut s, q.as_str());
                crate::text::push_str(&mut s, " is not a supported region");
            },
            RegionError::Config { path, msg } => {
                crate::text::push_str(&mut s, "config file ");
                crate::text::push_str(&mut s, path.as_str());
                crate::text::push_str(&mut s, ": ");
                crate::text::push_str(&mut s, msg.as_str());
            },
            RegionError::Io(m) => {
                crate::text::push_str(&mut s, "io reading config: ");
                crate::text::push_str(&mut s, m.as_str());
            },
            RegionError::Unresolved => {
                crate::text::push_str(
                    &mut s,
                    "no region: pass --region, set NAMI_REGION, or add `region = \"<BA>\"` to the nami config file",
                );
            },
        }
        assert(s@ =~= region_error_message(*self));
        s
    }
}

/// A set, non-empty value.
pub open spec fn given(v: Option<Seq<char>>) -> bool {
    v matches Some(x) && x.len() > 0
}

/// The optional text of an optional string slice.
pub open spec fn text_of(v: Option<&str>) -> Option<Seq<char>> {
    match v {
        Some(x) => Some(x@),
        None => None,
    }
}

/// Where the nami config file is: `$NAMI_CONFIG` when set and non-empty,
/// else `nami/config.toml` under `$XDG_CONFIG_HOME` (when non-empty), else
/// under `$HOME/.config`; nowhere without any of them.
pub open spec fn config_location(
    nami_config: Option<Seq<char>>,
    xdg_config_home: Option<Seq<char>>,
    home: Option<Seq<char>>,
) -> Option<Seq<char>> {
    if given(nami_config) {
        nami_config
    } else {
        let base = if given(xdg_config_home) {
            xdg_config_home
        } else {
            match home {
                Some(h) => Some(joined_path(h, ".config"@)),
                None => None,
            }
        };
        match base {
            Some(b) => Some(joined_path(joined_path(b, "nami"@), "config.toml"@)),
            None => None,
        }
    }
}

fn is_given(v: Option<&str>) -> (r: bool)
    ensures
        r == given(text_of(v)),
{
    match v {
        Some(x) => x.unicode_len() > 0,
        None => false,
    }
}

/// The config file path from the values of `NAMI_CONFIG`,
/// `XDG_CONFIG_HOME` and `HOME`.
pub fn config_path(nami_config: Option<&str>, xdg_config_home: Option<&str>, home: Option<&str>) -> (r: Option<
    String,
>)
    ensures
        match r {
            Some(p) => config_location(text_of(nami_config), text_of(xdg_config_home), text_of(home))
                == Some(p@),
            None => config_location(text_of(nami_config), text_of(xdg_config_home), text_of(home))
                is None,
        },
{
    if is_given(nami_config) {
        return Some(String::from_str(nami_config.unwrap()));
    }
    let base = if is_given(xdg_config_home) {
        String::from_str(xdg_config_home.unwrap())
    } else {
        match home {
            Some(h) => join_path(h, ".config"),
            None => {
                return None;
            },
        }
    };
    let d = join_path(base.as_str(), "nami");
    Some(join_path(d.as_str(), "config.toml"))
}

/// The stderr line announcing where a region that the flag did not give
/// came from.
pub open spec fn resolution_note(r: Resolved) -> Option<Seq<char>> {
    match r.source {
        RegionSource::Flag => None,
        RegionSource::Env => Some(
            "nami: region "@ + region_code(r.region) + " resolved from NAMI_REGION (no --region given)"@,
        ),
        RegionSource::Config(p) => Some(
            "nami: region "@ + region_code(r.region) + " resolved from config "@ + p@
                + " (no --region given)"@,
        ),
    }
}

impl Resolved {
    /// The line announcing where the region came from; none for the flag,
    /// so a resolution is never silent.
    pub fn note(&self) -> (r: Option<String>)
        ensures
            match r {
                Some(n) => resolution_note(*self) == Some(n@),
                None => resolution_note(*self) is None,
            },
    {
        match &self.source {
            RegionSource::Flag => None,
            RegionSource::Env => {
                let mut n = String::from_str("nami: region ");
                push_str(&mut n, self.region.as_code());
                push_str(&mut n, " resolved from NAMI_REGION (no --region given)");
                Some(n)
            },
            RegionSource::Config(p) => {
                let mut n = String::from_str("nami: region ");
                push_str(&mut n, self.region.as_code());
                push_str(&mut n, " resolved from config ");
                push_str(&mut n, p.as_str());
                push_str(&mut n, " (no --region given)");
                Some(n)
            },
        }
    }
}

/// A failed resolution as the user sees it: the reason, then the
/// supported regions.
pub fn refusal_text(e: &RegionError) -> (s: String)
    ensures
        s@ == region_error_message(*e) + "\nsupported regions: CAISO, ERCOT, MISO, PJM, NYISO, ISONE, SPP"@,
{
    let mut s = e.message();
    push_str(&mut s, "\nsupported regions: CAISO, ERCOT, MISO, PJM, NYISO, ISONE, SPP");
    s
}

} // verus!
