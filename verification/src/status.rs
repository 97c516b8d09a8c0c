//! Text of `nami status`: the per-region cache freshness lines and the
//! one-screen summary of a persisted run report.

use vstd::prelude::*;

use crate::cache::{region_obs, HistoricalCache};
use crate::confidence::{freshness_label, freshness_name, level_label, level_name};
use crate::decision::SchedulingDecision;
use crate::doctor::{whole_hours, whole_hours_exec};
use crate::instant::valid_instant;
use crate::region::{region_code, Region};
use crate::run_report::{
    fig, joined, push_fig, push_joined, refuse_label, refuse_reason_name, report_times_valid,
    start_reason_name, start_reason_str, ReportFigures, RunReport,
};
use crate::text::{decimal, push_char, push_decimal, push_signed, push_str, signed_decimal};
use crate::timefmt::{instant_rfc3339, rfc3339, rfc3339_zoned, zoned_rfc3339};
use vstd::string::StrSliceExecFns;
use vstd::string::StringExecFns;

verus! {

/// `k` spaces.
pub open spec fn spaces(k: nat) -> Seq<char> {
    Seq::new(k, |i: int| ' ')
}

/// `s` left-aligned in a field of `w` characters (`{:<w}`).
pub open spec fn pad_right(s: Seq<char>, w: nat) -> Seq<char> {
    if s.len() < w {
        s + spaces((w - s.len()) as nat)
    } else {
        s
    }
}

/// `s` right-aligned in a field of `w` characters (`{:>w}`).
pub open spec fn pad_left(s: Seq<char>, w: nat) -> Seq<char> {
    if s.len() < w {
        spaces((w - s.len()) as nat) + s
    } else {
        s
    }
}

/// Appends `k` spaces.
pub fn push_spaces(out: &mut String, k: usize)
    ensures
        final(out)@ == old(out)@ + spaces(k as nat),
{
    let ghost start = out@;
    let mut i: usize = 0;
    while i < k
        invariant
            i <= k,
            out@ == start + spaces(i as nat),
        decreases k - i,
    {
        push_char(out, ' ');
        i = i + 1;
        assert(out@ =~= start + spaces(i as nat));
    }
}

/// Appends `s` left-aligned in a field of `w` characters.
pub fn push_pad_right(out: &mut String, s: &str, w: usize)
    ensures
        final(out)@ == old(out)@ + pad_right(s@, w as nat),
{
    let n = s.unicode_len();
    push_str(out, s);
    if n < w {
        push_spaces(out, w - n);
    }
    assert(final(out)@ =~= old(out)@ + pad_right(s@, w as nat));
}

/// Appends `s` right-aligned in a field of `w` characters.
pub fn push_pad_left(out: &mut String, s: &str, w: usize)
    ensures
        final(out)@ == old(out)@ + pad_left(s@, w as nat),
{
    let n = s.unicode_len();
    if n < w {
        push_spaces(out, w - n);
    }
    push_str(out, s);
    assert(final(out)@ =~= old(out)@ + pad_left(s@, w as nat));
}

/// One region's line of the cache listing: its observation count, newest
/// sample and age in whole hours, flagged when older than `max_age`.
pub open spec fn region_line_text(c: HistoricalCache, r: Region, now: int, max_age: int) -> Seq<char> {
    let obs = region_obs(c.regions@, r);
    if obs.len() == 0 {
        "  "@ + pad_right(region_code(r), 6) + "     no data\n"@
    } else {
        let ns = obs.last().at;
        "  "@ + pad_right(region_code(r), 6) + " "@ + pad_left(decimal(obs.len()), 5)
            + " obs, newest "@ + instant_rfc3339(ns) + " (age "@ + signed_decimal(
            whole_hours(now - ns),
        ) + "h)"@ + (if now - ns > max_age {
            "  STALE (> "@ + signed_decimal(whole_hours(max_age)) + "h)"@
        } else {
            Seq::empty()
        }) + "\n"@
    }
}

/// Render one region's line of the cache listing.
pub fn region_line(c: &HistoricalCache, r: Region, now: i128, max_age: i128) -> (s: String)
    requires
        valid_instant(now as int),
        0 <= max_age <= 1_000_000_000_000_000_000_000,
        forall|k: int|
            0 <= k < region_obs(c.regions@, r).len() ==> valid_instant(
                #[trigger] region_obs(c.regions@, r)[k].at as int,
            ),
    ensures
        s@ == region_line_text(*c, r, now as int, max_age as int),
{
    let obs = c.observations(r);
    let mut s = String::from_str("  ");
    push_pad_right(&mut s, r.as_code(), 6);
    if obs.len() == 0 {
        push_str(&mut s, "     no data\n");
        return s;
    }
    let ns = obs[obs.len() - 1].at;
    proof {
        assert(valid_instant(region_obs(c.regions@, r)[obs@.len() - 1].at as int));
    }
    let count = crate::text::decimal_string(obs.len() as u128);
    let suffix = if now - ns > max_age {
        let mut t = String::from_str("  STALE (> ");
        push_signed(&mut t, whole_hours_exec(max_age));
        push_str(&mut t, "h)");
        t
    } else {
        String::new()
    };
    push_str(&mut s, " ");
    push_pad_left(&mut s, count.as_str(), 5);
    push_str(&mut s, " obs, newest ");
    push_str(&mut s, rfc3339(ns).as_str());
    push_str(&mut s, " (age ");
    push_signed(&mut s, whole_hours_exec(now - ns));
    push_str(&mut s, "h)");
    push_str(&mut s, suffix.as_str());
    push_str(&mut s, "\n");
    s
}

/// The decision line of the report summary.
pub open spec fn decision_line_text(d: SchedulingDecision) -> Seq<char> {
    match d {
        SchedulingDecision::StartAt { start_time, reason, confidence } => "  decision: start at "@
            + instant_rfc3339(start_time) + " ("@ + start_reason_name(reason) + "), confidence "@
            + level_name(confidence.level) + "\n"@,
        SchedulingDecision::StartImmediately { reason, confidence } => "  decision: start immediately ("@
            + start_reason_name(reason) + "), confidence "@ + level_name(confidence.level) + "\n"@,
        SchedulingDecision::Refuse { reason } => "  decision: refused ("@ + refuse_reason_name(reason)
            + ")\n"@,
    }
}

fn decision_line(d: &SchedulingDecision) -> (s: String)
    requires
        d matches SchedulingDecision::StartAt { start_time, .. } ==> valid_instant(start_time as int),
    ensures
        s@ == decision_line_text(*d),
{
    match d {
        SchedulingDecision::StartAt { start_time, reason, confidence } => {
            let mut s = String::from_str("  decision: start at ");
            push_str(&mut s, rfc3339(*start_time).as_str());
            push_str(&mut s, " (");
            push_str(&mut s, start_reason_str(*reason));
            push_str(&mut s, "), confidence ");
            push_str(&mut s, level_label(confidence.level));
            push_str(&mut s, "\n");
            s
        },
        SchedulingDecision::StartImmediately { reason, confidence } => {
            let mut s = String::from_str("  decision: start immediately (");
            push_str(&mut s, start_reason_str(*reason));
            push_str(&mut s, "), confidence ");
            push_str(&mut s, level_label(confidence.level));
            push_str(&mut s, "\n");
            s
        },
        SchedulingDecision::Refuse { reason } => {
            let mut s = String::from_str("  decision: refused (");
            push_str(&mut s, refuse_label(*reason));
            push_str(&mut s, ")\n");
            s
        },
    }
}

/// The one-screen summary of a persisted report; `f` holds its numbers
/// as text.
pub open spec fn report_summary_text(r: RunReport, f: ReportFigures) -> Seq<char> {
    "  command: "@ + r.command@ + " "@ + joined(r.args@.map_values(|s: String| s@)) + "\n"@
        + "  region "@ + region_code(r.region) + " — deadline "@ + zoned_rfc3339(r.deadline, r.deadline_offset)
        + "\n"@ + decision_line_text(r.decision) + (if r.estimated_improvement_pct is Some {
        "  estimated improvement: "@ + fig(f.improvement) + "% (materiality threshold "@
            + f.threshold@ + "%)\n"@
    } else {
        Seq::empty()
    }) + "  provider: "@ + r.provider.name@ + " — freshness "@ + freshness_name(r.data_freshness)
        + "\n"@ + "  methodology: "@ + r.methodology_version@ + "\n"@ + (match r.exit_code {
        Some(c) => "  child exit code: "@ + signed_decimal(c as int) + "\n"@,
        None => Seq::empty(),
    }) + (if r.warnings@.len() > 0 {
        "  warnings: "@ + decimal(r.warnings@.len()) + "\n"@
    } else {
        Seq::empty()
    })
}

/// Render the one-screen summary of a persisted report.
pub fn summarize_report(r: &RunReport, f: &ReportFigures) -> (s: String)
    requires
        report_times_valid(*r),
    ensures
        s@ == report_summary_text(*r, *f),
{
    let improvement = if r.estimated_improvement_pct.is_some() {
        let mut t = String::from_str("  estimated improvement: ");
        push_fig(&mut t, &f.improvement);
        push_str(&mut t, "% (materiality threshold ");
        push_str(&mut t, f.threshold.as_str());
        push_str(&mut t, "%)\n");
        t
    } else {
        String::new()
    };
    let exit = match r.exit_code {
        Some(c) => {
            let mut t = String::from_str("  child exit code: ");
            push_signed(&mut t, c as i128);
            push_str(&mut t, "\n");
            t
        },
        None => String::new(),
    };
    let warnings = if r.warnings.len() > 0 {
        let mut t = String::from_str("  warnings: ");
        push_decimal(&mut t, r.warnings.len() as u128);
        push_str(&mut t, "\n");
        t
    } else {
        String::new()
    };
    let mut s = String::from_str("  command: ");
    push_str(&mut s, r.command.as_str());
    push_str(&mut s, " ");
    push_joined(&mut s, &r.args);
    push_str(&mut s, "\n");
    push_str(&mut s, "  region ");
    push_str(&mut s, r.region.as_code());
    push_str(&mut s, " — deadline ");
    push_str(&mut s, rfc3339_zoned(r.deadline, r.deadline_offset).as_str());
    push_str(&mut s, "\n");
    push_str(&mut s, decision_line(&r.decision).as_str());
    push_str(&mut s, improvement.as_str());
    push_str(&mut s, "  provider: ");
    push_str(&mut s, r.provider.name.as_str());
    push_str(&mut s, " — freshness ");
    push_str(&mut s, freshness_label(&r.data_freshness));
    push_str(&mut s, "\n");
    push_str(&mut s, "  methodology: ");
    push_str(&mut s, r.methodology_version.as_str());
    push_str(&mut s, "\n");
    push_str(&mut s, exit.as_str());
    push_str(&mut s, warnings.as_str());
    s
}

} // verus!
