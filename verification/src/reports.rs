//! Where a run report is written: a pinned file, an auto-named file in a
//! date-partitioned archive, or standard output when no archive
//! directory can be determined.

use vstd::prelude::*;

use crate::forecast::{hour_of, hour_of_exec};
use crate::instant::{valid_instant, NANOS_PER_DAY, NANOS_PER_HOUR, NANOS_PER_SECOND};
use crate::program::{join_path, joined_path};
use crate::refresh::year_text;
use crate::region::{region_code, Region};
use crate::text::{padded, push_char, push_padded, push_str};
use crate::timefmt::{utc_date, utc_date_of};
use vstd::string::StrSliceExecFns;
use vstd::string::StringExecFns;

verus! {

/// Where a report goes.
#[derive(Debug, Clone, PartialEq, Eq)]
pub enum Target {
    /// The exact file the user pinned with `--report`.
    Pinned(String),
    /// `<dir>/<UTC-date>/<HH-MM-SS-nanos>-<BA>.json`.
    Archived(String),
    /// No flag and no default directory: print the JSON instead.
    Stdout,
}

/// A sink writing each report as JSON to one file.
#[derive(Debug, Clone, PartialEq, Eq)]
pub struct JsonFileSink(pub String);

/// `YYYY-MM-DD` (UTC) of an instant.
pub open spec fn date_dir_text(t: int) -> Seq<char> {
    let d = utc_date_of((t / (NANOS_PER_SECOND as int)) as i64);
    year_text(d.0 as int) + seq!['-'] + padded(d.1 as nat, 2) + seq!['-'] + padded(d.2 as nat, 2)
}

/// The date-partitioned subdirectory for an instant.
pub fn utc_date_dir(t: i128) -> (s: String)
    requires
        valid_instant(t as int),
    ensures
        s@ == date_dir_text(t as int),
{
    let secs = t.checked_div_euclid(NANOS_PER_SECOND).unwrap();
    assert(-377_705_116_800 <= secs <= 253_402_300_799) by (nonlinear_arith)
        requires
            secs == (t as int) / 1_000_000_000int,
            -377_705_116_800_000_000_000int <= t <= 253_402_300_799_999_999_999int,
    ;
    let (y, m, d) = utc_date(secs as i64);
    let mut s = String::new();
    if y < 0 {
        push_char(&mut s, '-');
        push_padded(&mut s, (-y) as u128, 3);
    } else {
        push_padded(&mut s, y as u128, 4);
    }
    push_char(&mut s, '-');
    push_padded(&mut s, m as u128, 2);
    push_char(&mut s, '-');
    push_padded(&mut s, d as u128, 2);
    assert(s@ =~= date_dir_text(t as int));
    s
}

/// `HH-MM-SS-nnnnnnnnn-<BA>.json` for an instant and region.
pub open spec fn auto_name_text(t: int, r: Region) -> Seq<char> {
    let in_day = t % (NANOS_PER_DAY as int);
    let in_hour = in_day % (NANOS_PER_HOUR as int);
    padded(hour_of(t) as nat, 2) + seq!['-'] + padded((in_hour / 60_000_000_000) as nat, 2)
        + seq!['-'] + padded(((in_hour % 60_000_000_000) / 1_000_000_000) as nat, 2) + seq!['-']
        + padded((t % (NANOS_PER_SECOND as int)) as nat, 9) + seq!['-'] + region_code(r)
        + ".json"@
}

/// The auto-generated report file name: sortable by time within a day,
/// with nanoseconds to keep same-second names apart.
pub fn auto_filename(t: i128, region: Region) -> (s: String)
    requires
        valid_instant(t as int),
    ensures
        s@ == auto_name_text(t as int, region),
{
    let h = hour_of_exec(t);
    let in_day = t.checked_rem_euclid(NANOS_PER_DAY).unwrap();
    let in_hour = in_day % NANOS_PER_HOUR;
    let minute = in_hour / 60_000_000_000;
    let second = (in_hour % 60_000_000_000) / 1_000_000_000;
    let nanos = t.checked_rem_euclid(NANOS_PER_SECOND).unwrap();
    assert(0 <= h < 24) by (nonlinear_arith)
        requires
            h == (t as int % 86_400_000_000_000int) / 3_600_000_000_000int,
    ;
    let mut s = String::new();
    push_padded(&mut s, h as u128, 2);
    push_char(&mut s, '-');
    push_padded(&mut s, minute as u128, 2);
    push_char(&mut s, '-');
    push_padded(&mut s, second as u128, 2);
    push_char(&mut s, '-');
    push_padded(&mut s, nanos as u128, 9);
    push_char(&mut s, '-');
    push_str(&mut s, region.as_code());
    push_str(&mut s, ".json");
    assert(s@ =~= auto_name_text(t as int, region));
    s
}

/// The archive path of a report under `base`.
pub open spec fn archive_path(base: Seq<char>, t: int, r: Region) -> Seq<char> {
    joined_path(joined_path(base, date_dir_text(t)), auto_name_text(t, r))
}

/// The precedence chain: a pinned `--report` file, else an auto-named
/// file under `--report-dir`, else under the default state directory,
/// else standard output.
pub open spec fn target_spec(
    report: Option<Seq<char>>,
    report_dir: Option<Seq<char>>,
    region: Region,
    now: int,
    default_dir: Option<Seq<char>>,
) -> (int, Seq<char>) {
    match report {
        Some(p) => (0, p),
        None => match report_dir {
            Some(d) => (1, archive_path(d, now, region)),
            None => match default_dir {
                Some(b) => (1, archive_path(b, now, region)),
                None => (2, Seq::empty()),
            },
        },
    }
}

/// The kind and path of a target.
pub open spec fn target_view(t: Target) -> (int, Seq<char>) {
    match t {
        Target::Pinned(p) => (0, p@),
        Target::Archived(p) => (1, p@),
        Target::Stdout => (2, Seq::empty()),
    }
}

/// Apply the precedence chain for where a report goes.
pub fn resolve_target(
    report: Option<&str>,
    report_dir: Option<&str>,
    region: Region,
    now: i128,
    default_state_dir: Option<&str>,
) -> (t: Target)
    requires
        valid_instant(now as int),
    ensures
        target_view(t) == target_spec(
            match report {
                Some(p) => Some(p@),
                None => None,
            },
            match report_dir {
                Some(p) => Some(p@),
                None => None,
            },
            region,
            now as int,
            match default_state_dir {
                Some(p) => Some(p@),
                None => None,
            },
        ),
{
    if let Some(p) = report {
        return Target::Pinned(String::from_str(p));
    }
    let name = auto_filename(now, region);
    let date = utc_date_dir(now);
    if let Some(dir) = report_dir {
        let d = join_path(dir, date.as_str());
        return Target::Archived(join_path(d.as_str(), name.as_str()));
    }
    match default_state_dir {
        Some(base) => {
            let d = join_path(base, date.as_str());
            Target::Archived(join_path(d.as_str(), name.as_str()))
        },
        None => Target::Stdout,
    }
}

/// The default reports directory: `nami/reports` under
/// `$XDG_STATE_HOME` (when set and non-empty), else under
/// `$HOME/.local/state`; none without either.
pub open spec fn state_dir_location(xdg_state_home: Option<Seq<char>>, home: Option<Seq<char>>) -> Option<Seq<char>> {
    if xdg_state_home matches Some(x) && x.len() > 0 {
        Some(joined_path(joined_path(xdg_state_home->0, "nami"@), "reports"@))
    } else {
        match home {
            Some(h) => Some(
                joined_path(joined_path(joined_path(joined_path(h, ".local"@), "state"@), "nami"@), "reports"@),
            ),
            None => None,
        }
    }
}

/// The default reports directory from the values of `XDG_STATE_HOME` and
/// `HOME`.
pub fn default_state_dir(xdg_state_home: Option<&str>, home: Option<&str>) -> (r: Option<String>)
    ensures
        match r {
            Some(p) => state_dir_location(
                match xdg_state_home {
                    Some(x) => Some(x@),
                    None => None,
                },
                match home {
                    Some(h) => Some(h@),
                    None => None,
                },
            ) == Some(p@),
            None => state_dir_location(
                match xdg_state_home {
                    Some(x) => Some(x@),
                    None => None,
                },
                match home {
                    Some(h) => Some(h@),
                    None => None,
                },
            ) is None,
        },
{
    if let Some(x) = xdg_state_home {
        if x.unicode_len() > 0 {
            let d = join_path(x, "nami");
            return Some(join_path(d.as_str(), "reports"));
        }
    }
    match home {
        Some(h) => {
            let a = join_path(h, ".local");
            let b = join_path(a.as_str(), "state");
            let c = join_path(b.as_str(), "nami");
            Some(join_path(c.as_str(), "reports"))
        },
        None => None,
    }
}

} // verus!
