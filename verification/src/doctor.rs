//! Preflight checks with pass / warn / fail tagging and a suggested fix
//! for each failing check, and their rendering.

use vstd::prelude::*;

use crate::cache::{region_obs, HistoricalCache, DEFAULT_MAX_CACHE_AGE};
use crate::egrid::EgridFactors;
use crate::eia_error::{eia_message, EiaError};
use crate::instant::{valid_instant, NANOS_PER_HOUR};
use crate::region::{region_code, Region};
use crate::resolve::{region_error_message, RegionError, RegionSource, Resolved};
use crate::text::{decimal, push_decimal, push_signed, push_str, signed_decimal};
use crate::timefmt::{instant_rfc3339, rfc3339};
use vstd::string::StringExecFns;

verus! {

/// Outcome of one check.
#[derive(Debug, Clone, Copy, PartialEq, Eq, Structural)]
pub enum CheckStatus {
    /// The precondition holds.
    Pass,
    /// Degraded but usable.
    Warn,
    /// The precondition fails.
    Fail,
}

/// One precondition check.
#[derive(Debug)]
pub struct Check {
    /// Outcome.
    pub status: CheckStatus,
    /// Short title.
    pub title: String,
    /// What was found.
    pub detail: String,
    /// Suggested fix, if any.
    pub fix: Option<String>,
}

/// A check as plain values: status, title, detail, fix.
pub type CheckView = (CheckStatus, Seq<char>, Seq<char>, Option<Seq<char>>);

/// The plain-value form of a check.
pub open spec fn check_view(c: Check) -> CheckView {
    (c.status, c.title@, c.detail@, match c.fix {
        Some(f) => Some(f@),
        None => None,
    })
}

/// The tag a status renders as (four characters wide).
pub open spec fn tag_of(s: CheckStatus) -> Seq<char> {
    match s {
        CheckStatus::Pass => "ok  "@,
        CheckStatus::Warn => "warn"@,
        CheckStatus::Fail => "fail"@,
    }
}

/// The lines one check renders to.
pub open spec fn check_text(c: CheckView) -> Seq<char> {
    let head = "  "@ + tag_of(c.0) + "  "@ + c.1 + " — "@ + c.2 + "\n"@;
    match c.3 {
        Some(f) => head + "        → "@ + f + "\n"@,
        None => head,
    }
}

/// The rendered lines of a sequence of checks, in order.
pub open spec fn checks_text(cs: Seq<CheckView>) -> Seq<char>
    decreases cs.len(),
{
    if cs.len() == 0 {
        Seq::empty()
    } else {
        checks_text(cs.drop_last()) + check_text(cs.last())
    }
}

/// How many checks have status `s`.
pub open spec fn count_status(cs: Seq<CheckView>, s: CheckStatus) -> nat
    decreases cs.len(),
{
    if cs.len() == 0 {
        0
    } else {
        count_status(cs.drop_last(), s) + if cs.last().0 == s {
            1nat
        } else {
            0nat
        }
    }
}

/// The full report: header, one block per check, summary line.
pub open spec fn report_text(cs: Seq<CheckView>) -> Seq<char> {
    "nami doctor\n"@ + checks_text(cs) + "Summary: "@ + decimal(count_status(cs, CheckStatus::Pass))
        + " ok, "@ + decimal(count_status(cs, CheckStatus::Warn)) + " warn, "@ + decimal(
        count_status(cs, CheckStatus::Fail),
    ) + " fail\n"@
}

/// Render the checks and count each status: `(text, ok, warn, fail)`.
pub fn render(checks: &Vec<Check>) -> (r: (String, usize, usize, usize))
    ensures
        r.0@ == report_text(checks@.map_values(|c: Check| check_view(c))),
        r.1 == count_status(checks@.map_values(|c: Check| check_view(c)), CheckStatus::Pass),
        r.2 == count_status(checks@.map_values(|c: Check| check_view(c)), CheckStatus::Warn),
        r.3 == count_status(checks@.map_values(|c: Check| check_view(c)), CheckStatus::Fail),
{
    let ghost views = checks@.map_values(|c: Check| check_view(c));
    let mut out = String::from_str("nami doctor\n");
    let mut ok: usize = 0;
    let mut warn: usize = 0;
    let mut fail: usize = 0;
    let mut i: usize = 0;
    while i < checks.len()
        invariant
            i <= checks@.len(),
            views == checks@.map_values(|c: Check| check_view(c)),
            out@ == "nami doctor\n"@ + checks_text(views.subrange(0, i as int)),
            ok == count_status(views.subrange(0, i as int), CheckStatus::Pass),
            warn == count_status(views.subrange(0, i as int), CheckStatus::Warn),
            fail == count_status(views.subrange(0, i as int), CheckStatus::Fail),
            ok + warn + fail == i,
        decreases checks@.len() - i,
    {
        let c = &checks[i];
        let ghost prev = out@;
        let tag = match c.status {
            CheckStatus::Pass => "ok  ",
            CheckStatus::Warn => "warn",
            CheckStatus::Fail => "fail",
        };
        push_str(&mut out, "  ");
        push_str(&mut out, tag);
        push_str(&mut out, "  ");
        push_str(&mut out, c.title.as_str());
        push_str(&mut out, " — ");
        push_str(&mut out, c.detail.as_str());
        push_str(&mut out, "\n");
        if let Some(fix) = &c.fix {
            push_str(&mut out, "        → ");
            push_str(&mut out, fix.as_str());
            push_str(&mut out, "\n");
        }
        match c.status {
            CheckStatus::Pass => {
                ok = ok + 1;
            },
            CheckStatus::Warn => {
                warn = warn + 1;
            },
            CheckStatus::Fail => {
                fail = fail + 1;
            },
        }
        proof {
            let sub = views.subrange(0, i + 1);
            assert(sub.drop_last() =~= views.subrange(0, i as int));
            assert(sub.last() == check_view(*c));
            assert(out@ =~= prev + check_text(check_view(*c)));
        }
        i = i + 1;
    }
    proof {
        assert(views.subrange(0, i as int) =~= views);
    }
    push_str(&mut out, "Summary: ");
    push_decimal(&mut out, ok as u128);
    push_str(&mut out, " ok, ");
    push_decimal(&mut out, warn as u128);
    push_str(&mut out, " warn, ");
    push_decimal(&mut out, fail as u128);
    push_str(&mut out, " fail\n");
    assert(out@ =~= report_text(views));
    (out, ok, warn, fail)
}

/// Whole hours in a signed duration, truncated toward zero.
pub open spec fn whole_hours(d: int) -> int {
    if d >= 0 {
        d / (NANOS_PER_HOUR as int)
    } else {
        -((-d) / (NANOS_PER_HOUR as int))
    }
}

/// Provenance phrase for a resolved region.
pub open spec fn source_phrase(s: RegionSource) -> Seq<char> {
    match s {
        RegionSource::Flag => "from --region"@,
        RegionSource::Env => "from NAMI_REGION"@,
        RegionSource::Config(p) => "from config "@ + p@,
    }
}

/// The region check.
pub open spec fn region_check(r: Result<Resolved, RegionError>) -> CheckView {
    match r {
        Ok(res) => (
            CheckStatus::Pass,
            "region"@,
            region_code(res.region) + " ("@ + source_phrase(res.source) + ")"@,
            None,
        ),
        Err(e) => (
            CheckStatus::Fail,
            "region"@,
            region_error_message(e),
            Some("nami init --region <BA>"@),
        ),
    }
}

/// The eGRID factor-table check.
pub open spec fn egrid_check(r: Result<EgridFactors, EiaError>, path: Seq<char>) -> CheckView {
    match r {
        Ok(f) => (
            CheckStatus::Pass,
            "eGRID factor table"@,
            f.release@ + " (data year "@ + signed_decimal(f.data_year as int) + ") ["@ + path
                + "]"@,
            None,
        ),
        Err(e) => (
            CheckStatus::Fail,
            "eGRID factor table"@,
            eia_message(e),
            Some("cargo run -p nami-carbon-eia --features egrid-refresh --bin refresh-egrid"@),
        ),
    }
}

/// The API-key check (a warning only: just `refresh` needs the key).
pub open spec fn key_check(key_set: bool) -> CheckView {
    if key_set {
        (CheckStatus::Pass, "EIA_API_KEY"@, "set"@, None)
    } else {
        (
            CheckStatus::Warn,
            "EIA_API_KEY"@,
            "not set (only needed for `nami refresh`)"@,
            Some("free key: https://www.eia.gov/opendata/register.php"@),
        )
    }
}

/// `nami refresh --region {r}`
pub open spec fn refresh_fix(r: Region) -> Seq<char> {
    "nami refresh --region "@ + region_code(r)
}

/// The historical-cache check for the resolved region (if any).
pub open spec fn cache_check(
    c: Result<HistoricalCache, EiaError>,
    region: Option<Region>,
    path: Seq<char>,
    now: int,
) -> CheckView {
    match c {
        Err(EiaError::CacheMissing(_)) => (
            CheckStatus::Fail,
            "historical cache"@,
            "missing at "@ + path,
            Some(
                match region {
                    Some(r) => refresh_fix(r),
                    None => "set a region (above), then: nami refresh --region <BA>"@,
                },
            ),
        ),
        Err(e) => (
            CheckStatus::Fail,
            "historical cache"@,
            "unusable: "@ + eia_message(e),
            Some("inspect "@ + path + " and refresh or remove"@),
        ),
        Ok(cache) => match region {
            None => (
                CheckStatus::Warn,
                "historical cache"@,
                decimal(cache.regions@.len()) + " region(s) cached; no configured region to evaluate freshness against"@,
                Some("nami init --region <BA>"@),
            ),
            Some(r) => {
                let obs = region_obs(cache.regions@, r);
                let title = region_code(r) + " cache"@;
                if obs.len() == 0 {
                    (CheckStatus::Fail, title, "no observations for this region"@, Some(refresh_fix(r)))
                } else {
                    let ns = obs.last().at;
                    let age = now - ns;
                    let head = decimal(obs.len()) + " obs, newest "@ + instant_rfc3339(ns)
                        + " (age "@ + signed_decimal(whole_hours(age)) + "h"@;
                    if age > DEFAULT_MAX_CACHE_AGE {
                        (CheckStatus::Warn, title, head + ", > 24h)"@, Some(refresh_fix(r)))
                    } else {
                        (CheckStatus::Pass, title, head + ")"@, None)
                    }
                }
            },
        },
    }
}

/// Every observation time in the cache is a representable instant.
pub open spec fn cache_times_valid(c: HistoricalCache) -> bool {
    forall|i: int, k: int|
        0 <= i < c.regions@.len() && 0 <= k < c.regions@[i].observations@.len() ==> valid_instant(
            #[trigger] c.regions@[i].observations@[k].at as int,
        )
}

fn some_str(s: &str) -> (r: Option<String>)
    ensures
        r matches Some(x) && x@ == s@,
{
    Some(String::from_str(s))
}

/// Assemble the four checks, in order, from what the caller gathered:
/// the region resolution, the eGRID table load, whether `EIA_API_KEY` is
/// set, and the historical-cache load (judged for the resolved region).
pub fn gather_checks(
    region: Result<Resolved, RegionError>,
    egrid: Result<EgridFactors, EiaError>,
    egrid_path: &str,
    key_set: bool,
    cache: Result<HistoricalCache, EiaError>,
    cache_path: &str,
    now: i128,
) -> (r: Vec<Check>)
    requires
        valid_instant(now as int),
        cache matches Ok(c) ==> cache_times_valid(c),
    ensures
        r@.map_values(|c: Check| check_view(c)) == seq![
            region_check(region),
            egrid_check(egrid, egrid_path@),
            key_check(key_set),
            cache_check(
                cache,
                match region {
                    Ok(res) => Some(res.region),
                    Err(_) => None,
                },
                cache_path@,
                now as int,
            ),
        ],
        r@.len() == 4,
        check_view(r@[0]) == region_check(region),
        check_view(r@[1]) == egrid_check(egrid, egrid_path@),
        check_view(r@[2]) == key_check(key_set),
        check_view(r@[3]) == cache_check(
            cache,
            match region {
                Ok(res) => Some(res.region),
                Err(_) => None,
            },
            cache_path@,
            now as int,
        ),
{
    let ghost region0 = region;
    let ghost egrid0 = egrid;
    let ghost cache0 = cache;
    let mut checks: Vec<Check> = Vec::new();
    let resolved: Option<Region> = match &region {
        Ok(res) => Some(res.region),
        Err(_) => None,
    };
    let c1 = match region {
        Ok(res) => {
            let mut d = String::from_str(res.region.as_code());
            push_str(&mut d, " (");
            match &res.source {
                RegionSource::Flag => push_str(&mut d, "from --region"),
                RegionSource::Env => push_str(&mut d, "from NAMI_REGION"),
                RegionSource::Config(p) => {
                    push_str(&mut d, "from config ");
                    push_str(&mut d, p.as_str());
                },
            }
            push_str(&mut d, ")");
            Check { status: CheckStatus::Pass, title: String::from_str("region"), detail: d, fix: None }
        },
        Err(e) => Check {
            status: CheckStatus::Fail,
            title: String::from_str("region"),
            detail: e.message(),
            fix: some_str("nami init --region <BA>"),
        },
    };
    assert(check_view(c1) =~= region_check(region0));
    checks.push(c1);
    let c2 = match egrid {
        Ok(f) => {
            let mut d = f.release.clone();
            assert(d == f.release);
            push_str(&mut d, " (data year ");
            push_signed(&mut d, f.data_year as i128);
            push_str(&mut d, ") [");
            push_str(&mut d, egrid_path);
            push_str(&mut d, "]");
            Check {
                status: CheckStatus::Pass,
                title: String::from_str("eGRID factor table"),
                detail: d,
                fix: None,
            }
        },
        Err(e) => Check {
            status: CheckStatus::Fail,
            title: String::from_str("eGRID factor table"),
            detail: e.message(),
            fix: some_str("cargo run -p nami-carbon-eia --features egrid-refresh --bin refresh-egrid"),
        },
    };
    assert(check_view(c2) =~= egrid_check(egrid0, egrid_path@));
    checks.push(c2);
    let c3 = if key_set {
        Check {
            status: CheckStatus::Pass,
            title: String::from_str("EIA_API_KEY"),
            detail: String::from_str("set"),
            fix: None,
        }
    } else {
        Check {
            status: CheckStatus::Warn,
            title: String::from_str("EIA_API_KEY"),
            detail: String::from_str("not set (only needed for `nami refresh`)"),
            fix: some_str("free key: https://www.eia.gov/opendata/register.php"),
        }
    };
    assert(check_view(c3) =~= key_check(key_set));
    checks.push(c3);
    let c4 = cache_check_exec(cache, resolved, cache_path, now);
    checks.push(c4);
    proof {
        let vs = checks@.map_values(|c: Check| check_view(c));
        assert(vs =~= seq![
            region_check(region0),
            egrid_check(egrid0, egrid_path@),
            key_check(key_set),
            cache_check(cache0, resolved, cache_path@, now as int),
        ]);
        assert(vs[0] == check_view(checks@[0]));
        assert(vs[1] == check_view(checks@[1]));
        assert(vs[2] == check_view(checks@[2]));
        assert(vs[3] == check_view(checks@[3]));
    }
    checks
}

fn refresh_fix_exec(r: Region) -> (s: String)
    ensures
        s@ == refresh_fix(r),
{
    let mut s = String::from_str("nami refresh --region ");
    push_str(&mut s, r.as_code());
    s
}

pub(crate) fn whole_hours_exec(d: i128) -> (h: i128)
    requires
        -1_000_000_000_000_000_000_000i128 <= d <= 1_000_000_000_000_000_000_000i128,
    ensures
        h == whole_hours(d as int),
        h > i128::MIN,
{
    if d >= 0 {
        d / NANOS_PER_HOUR
    } else {
        -((-d) / NANOS_PER_HOUR)
    }
}

fn cache_check_exec(
    cache: Result<HistoricalCache, EiaError>,
    region: Option<Region>,
    path: &str,
    now: i128,
) -> (c: Check)
    requires
        valid_instant(now as int),
        cache matches Ok(c) ==> cache_times_valid(c),
    ensures
        check_view(c) == cache_check(cache, region, path@, now as int),
{
    let ghost cache0 = cache;
    match cache {
        Err(EiaError::CacheMissing(_)) => {
            let fix = match region {
                Some(r) => refresh_fix_exec(r),
                None => String::from_str("set a region (above), then: nami refresh --region <BA>"),
            };
            let mut d = String::from_str("missing at ");
            push_str(&mut d, path);
            let c = Check {
                status: CheckStatus::Fail,
                title: String::from_str("historical cache"),
                detail: d,
                fix: Some(fix),
            };
            assert(check_view(c) =~= cache_check(cache0, region, path@, now as int));
            c
        },
        Err(e) => {
            let mut d = String::from_str("unusable: ");
            let m = e.message();
            push_str(&mut d, m.as_str());
            let mut fix = String::from_str("inspect ");
            push_str(&mut fix, path);
            push_str(&mut fix, " and refresh or remove");
            let c = Check {
                status: CheckStatus::Fail,
                title: String::from_str("historical cache"),
                detail: d,
                fix: Some(fix),
            };
            assert(check_view(c) =~= cache_check(cache0, region, path@, now as int));
            c
        },
        Ok(cache) => match region {
            None => {
                let mut d = String::new();
                push_decimal(&mut d, cache.region_count() as u128);
                push_str(
                    &mut d,
                    " region(s) cached; no configured region to evaluate freshness against",
                );
                let c = Check {
                    status: CheckStatus::Warn,
                    title: String::from_str("historical cache"),
                    detail: d,
                    fix: some_str("nami init --region <BA>"),
                };
                assert(check_view(c) =~= cache_check(cache0, region, path@, now as int));
                c
            },
            Some(r) => {
                let mut title = String::from_str(r.as_code());
                push_str(&mut title, " cache");
                match cache.newest_sample(r) {
                    None => {
                        let c = Check {
                            status: CheckStatus::Fail,
                            title,
                            detail: String::from_str("no observations for this region"),
                            fix: Some(refresh_fix_exec(r)),
                        };
                        assert(check_view(c) =~= cache_check(cache0, region, path@, now as int));
                        c
                    },
                    Some(ns) => {
                        let n = cache.observations(r).len();
                        proof {
                            crate::cache::lemma_region_obs_member(cache.regions@, r);
                        }
                        let age = now - ns;
                        let mut d = String::new();
                        push_decimal(&mut d, n as u128);
                        push_str(&mut d, " obs, newest ");
                        let t = rfc3339(ns);
                        push_str(&mut d, t.as_str());
                        push_str(&mut d, " (age ");
                        push_signed(&mut d, whole_hours_exec(age));
                        push_str(&mut d, "h");
                        if age > DEFAULT_MAX_CACHE_AGE {
                            push_str(&mut d, ", > 24h)");
                            let c = Check {
                                status: CheckStatus::Warn,
                                title,
                                detail: d,
                                fix: Some(refresh_fix_exec(r)),
                            };
                            assert(check_view(c) =~= cache_check(
                                cache0,
                                region,
                                path@,
                                now as int,
                            ));
                            c
                        } else {
                            push_str(&mut d, ")");
                            let c = Check { status: CheckStatus::Pass, title, detail: d, fix: None };
                            assert(check_view(c) =~= cache_check(
                                cache0,
                                region,
                                path@,
                                now as int,
                            ));
                            c
                        }
                    },
                }
            },
        },
    }
}

} // verus!
