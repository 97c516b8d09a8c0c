//! Narrative explanation of a persisted run report: why nami deferred,
//! ran now, or refused, followed by provenance and job context.

use vstd::prelude::*;

use crate::confidence::{freshness_label, freshness_name, level_label, level_name, Confidence};
use crate::decision::{RefuseReason, SchedulingDecision, StartReason};
use crate::region::region_code;
use crate::run_report::{
    dur_text, fig, granularity_debug, joined, lines, push_dur, push_fig, push_granularity,
    push_joined, push_lines, refuse_reason_name, report_times_valid, start_reason_name,
    start_reason_str, ReportFigures, RunReport, refuse_label,
};
use crate::text::{decimal, push_decimal, push_signed, push_str, signed_decimal};
use crate::timefmt::{instant_rfc3339, rfc3339, rfc3339_zoned, zoned_rfc3339};
use vstd::string::StringExecFns;

verus! {

/// Why running now was chosen, in one sentence.
pub open spec fn start_now_text(r: StartReason) -> Seq<char> {
    match r {
        StartReason::RunNowAlreadyCleanest => "no deferred window beat run-now by the materiality threshold — running now is at least as clean as anything between now and the deadline."@,
        StartReason::DeadlineTooSoon => "the deadline left no room to defer to a later hour-aligned start."@,
        StartReason::FallbackPolicyRunImmediately => "the model could not produce a real forecast (static fallback or missing data) and defaulted to running now rather than guessing."@,
        StartReason::LowestEstimatedIntensity => "running now is the lowest-intensity option among the considered windows."@,
        StartReason::UserForced => "you explicitly forced an immediate start."@,
    }
}

/// Why running now was chosen, in one sentence.
pub fn start_now_sentence(r: StartReason) -> (s: &'static str)
    ensures
        s@ == start_now_text(r),
{
    match r {
        StartReason::RunNowAlreadyCleanest => "no deferred window beat run-now by the materiality threshold — running now is at least as clean as anything between now and the deadline.",
        StartReason::DeadlineTooSoon => "the deadline left no room to defer to a later hour-aligned start.",
        StartReason::FallbackPolicyRunImmediately => "the model could not produce a real forecast (static fallback or missing data) and defaulted to running now rather than guessing.",
        StartReason::LowestEstimatedIntensity => "running now is the lowest-intensity option among the considered windows.",
        StartReason::UserForced => "you explicitly forced an immediate start.",
    }
}

/// Why nami refused, in one sentence; `threshold` is the materiality
/// threshold's text.
pub open spec fn refuse_sentence_text(r: RefuseReason, threshold: Seq<char>) -> Seq<char> {
    match r {
        RefuseReason::NoWindowBeforeDeadline => "no hour-aligned window of the requested duration fits before the deadline — the job simply cannot finish in time."@,
        RefuseReason::ForecastTooUncertain => "the forecast did not cover the run-now hour, so there is no baseline to measure a candidate window against (refuse-to-estimate)."@,
        RefuseReason::CandidateWindowsBelowMaterialityThreshold => "no candidate window beat run-now by the "@
            + threshold
            + "% materiality threshold — the available improvements are inside the forecast's noise floor."@,
        RefuseReason::UnsupportedRegion => "the requested region is not supported by any configured provider."@,
        RefuseReason::MissingHistoricalData => "required historical data was missing from the cache."@,
        RefuseReason::StaleHistoricalCache => "the historical cache was older than the staleness bound — refusing rather than basing a decision on stale data."@,
        RefuseReason::InsufficientSamples => "too few historical samples backed the forecast for a defensible estimate."@,
        RefuseReason::ProviderUnavailable => "the data provider was unavailable; no defensible estimate exists without it."@,
    }
}

/// Appends the refusal sentence.
pub fn push_refuse_sentence(out: &mut String, r: RefuseReason, threshold: &str)
    ensures
        final(out)@ == old(out)@ + refuse_sentence_text(r, threshold@),
{
    match r {
        RefuseReason::NoWindowBeforeDeadline => push_str(out, "no hour-aligned window of the requested duration fits before the deadline — the job simply cannot finish in time."),
        RefuseReason::ForecastTooUncertain => push_str(out, "the forecast did not cover the run-now hour, so there is no baseline to measure a candidate window against (refuse-to-estimate)."),
        RefuseReason::CandidateWindowsBelowMaterialityThreshold => {
            push_str(out, "no candidate window beat run-now by the ");
            push_str(out, threshold);
            push_str(out, "% materiality threshold — the available improvements are inside the forecast's noise floor.");
        },
        RefuseReason::UnsupportedRegion => push_str(out, "the requested region is not supported by any configured provider."),
        RefuseReason::MissingHistoricalData => push_str(out, "required historical data was missing from the cache."),
        RefuseReason::StaleHistoricalCache => push_str(out, "the historical cache was older than the staleness bound — refusing rather than basing a decision on stale data."),
        RefuseReason::InsufficientSamples => push_str(out, "too few historical samples backed the forecast for a defensible estimate."),
        RefuseReason::ProviderUnavailable => push_str(out, "the data provider was unavailable; no defensible estimate exists without it."),
    }
    assert(final(out)@ =~= old(out)@ + refuse_sentence_text(r, threshold@));
}

/// The notes behind a confidence level, under a heading; nothing when
/// there are none.
pub open spec fn notes_text(c: Confidence) -> Seq<char> {
    if c.notes@.len() == 0 {
        Seq::empty()
    } else {
        "  Why this confidence level:\n"@ + lines("    - "@, c.notes@.map_values(|s: String| s@))
    }
}

/// Appends the notes behind a confidence level.
pub fn push_confidence_notes(out: &mut String, c: &Confidence)
    ensures
        final(out)@ == old(out)@ + notes_text(*c),
{
    if c.notes.len() == 0 {
        assert(old(out)@ + notes_text(*c) =~= old(out)@);
        return;
    }
    push_str(out, "  Why this confidence level:\n");
    push_lines(out, "    - ", &c.notes);
    assert(final(out)@ =~= old(out)@ + notes_text(*c));
}

/// The deferral part: where to, why, the comparison when all three
/// numbers exist, and the confidence behind it.
pub open spec fn defer_text(
    r: RunReport,
    f: ReportFigures,
    start_time: i128,
    reason: StartReason,
    confidence: Confidence,
) -> Seq<char> {
    "Decision: defer to "@ + instant_rfc3339(start_time) + " (reason: "@ + start_reason_name(reason)
        + ").\n"@ + compare_text(r, f) + "\nConfidence: "@ + level_name(confidence.level) + " ("@ + decimal(
        confidence.sample_count as nat,
    ) + " sample(s) backed the selected window).\n"@ + notes_text(confidence)
}

/// The run-now part: why, the run-now estimate when there is one, and
/// the confidence behind it.
pub open spec fn run_now_text(
    r: RunReport,
    f: ReportFigures,
    reason: StartReason,
    confidence: Confidence,
) -> Seq<char> {
    "Decision: run immediately (reason: "@ + start_reason_name(reason) + ").\n"@ + "  "@
        + start_now_text(reason) + "\n"@ + run_now_estimate_text(r, f) + "\nConfidence: "@ + level_name(confidence.level) + " ("@ + decimal(
        confidence.sample_count as nat,
    ) + " sample(s)).\n"@ + notes_text(confidence)
}

/// The refusal part.
pub open spec fn refused_text(reason: RefuseReason, threshold: Seq<char>) -> Seq<char> {
    "Decision: refused (reason: "@ + refuse_reason_name(reason) + ").\n"@ + "  "@
        + refuse_sentence_text(reason, threshold) + "\n"@
        + "\nNo run-now estimate, no selected window — nami declined to produce a number it could not defend.\n"@
}

/// The decision-specific part of the explanation.
pub open spec fn decision_text(r: RunReport, f: ReportFigures) -> Seq<char> {
    match r.decision {
        SchedulingDecision::StartAt { start_time, reason, confidence } => defer_text(
            r,
            f,
            start_time,
            reason,
            confidence,
        ),
        SchedulingDecision::StartImmediately { reason, confidence } => run_now_text(
            r,
            f,
            reason,
            confidence,
        ),
        SchedulingDecision::Refuse { reason } => refused_text(reason, f.threshold@),
    }
}

/// The comparison sentence of a deferral, when all three numbers exist.
pub open spec fn compare_text(r: RunReport, f: ReportFigures) -> Seq<char> {
    if r.run_now_estimate is Some && r.selected_window_estimate is Some
        && r.estimated_improvement_pct is Some {
        "  Estimated average intensity in the selected window is "@ + fig(f.selected_intensity)
            + " gCO2/kWh, versus "@ + fig(f.run_now_intensity) + " gCO2/kWh if you ran now — a "@
            + fig(f.improvement) + "% improvement, against the materiality threshold of "@
            + f.threshold@ + "%.\n"@
    } else {
        Seq::empty()
    }
}

fn compare_part(r: &RunReport, f: &ReportFigures) -> (s: String)
    ensures
        s@ == compare_text(*r, *f),
{
    if r.run_now_estimate.is_some() && r.selected_window_estimate.is_some()
        && r.estimated_improvement_pct.is_some() {
        let mut s = String::from_str("  Estimated average intensity in the selected window is ");
        push_fig(&mut s, &f.selected_intensity);
        push_str(&mut s, " gCO2/kWh, versus ");
        push_fig(&mut s, &f.run_now_intensity);
        push_str(&mut s, " gCO2/kWh if you ran now — a ");
        push_fig(&mut s, &f.improvement);
        push_str(&mut s, "% improvement, against the materiality threshold of ");
        push_str(&mut s, f.threshold.as_str());
        push_str(&mut s, "%.\n");
        s
    } else {
        String::new()
    }
}

/// The run-now estimate sentence of an immediate start, when there is
/// a run-now estimate.
pub open spec fn run_now_estimate_text(r: RunReport, f: ReportFigures) -> Seq<char> {
    if r.run_now_estimate is Some {
        if r.estimated_improvement_pct is Some {
            "  Run-now estimate: "@ + fig(f.run_now_intensity)
                + " gCO2/kWh. The best deferred candidate beat that by only "@ + fig(f.improvement)
                + "%, against the "@ + f.threshold@ + "% materiality threshold.\n"@
        } else {
            "  Run-now estimate: "@ + fig(f.run_now_intensity)
                + " gCO2/kWh. No deferred candidate was scorable, or none beat the "@
                + f.threshold@ + "% materiality threshold.\n"@
        }
    } else {
        Seq::empty()
    }
}

fn run_now_estimate_part(r: &RunReport, f: &ReportFigures) -> (s: String)
    ensures
        s@ == run_now_estimate_text(*r, *f),
{
    if r.run_now_estimate.is_some() {
        let mut s = String::from_str("  Run-now estimate: ");
        push_fig(&mut s, &f.run_now_intensity);
        if r.estimated_improvement_pct.is_some() {
            push_str(&mut s, " gCO2/kWh. The best deferred candidate beat that by only ");
            push_fig(&mut s, &f.improvement);
            push_str(&mut s, "%, against the ");
            push_str(&mut s, f.threshold.as_str());
            push_str(&mut s, "% materiality threshold.\n");
        } else {
            push_str(&mut s, " gCO2/kWh. No deferred candidate was scorable, or none beat the ");
            push_str(&mut s, f.threshold.as_str());
            push_str(&mut s, "% materiality threshold.\n");
        }
        s
    } else {
        String::new()
    }
}

fn defer_part(
    r: &RunReport,
    f: &ReportFigures,
    start_time: i128,
    reason: StartReason,
    confidence: &Confidence,
) -> (s: String)
    requires
        crate::instant::valid_instant(start_time as int),
    ensures
        s@ == defer_text(*r, *f, start_time, reason, *confidence),
{
    let mut s = String::from_str("Decision: defer to ");
    push_str(&mut s, rfc3339(start_time).as_str());
    push_str(&mut s, " (reason: ");
    push_str(&mut s, start_reason_str(reason));
    push_str(&mut s, ").\n");
    push_str(&mut s, compare_part(r, f).as_str());
    push_str(&mut s, "\nConfidence: ");
    push_str(&mut s, level_label(confidence.level));
    push_str(&mut s, " (");
    push_decimal(&mut s, confidence.sample_count as u128);
    push_str(&mut s, " sample(s) backed the selected window).\n");
    push_confidence_notes(&mut s, confidence);
    s
}

fn run_now_part(r: &RunReport, f: &ReportFigures, reason: StartReason, confidence: &Confidence) -> (s: String)
    ensures
        s@ == run_now_text(*r, *f, reason, *confidence),
{
    let mut s = String::from_str("Decision: run immediately (reason: ");
    push_str(&mut s, start_reason_str(reason));
    push_str(&mut s, ").\n");
    push_str(&mut s, "  ");
    push_str(&mut s, start_now_sentence(reason));
    push_str(&mut s, "\n");
    push_str(&mut s, run_now_estimate_part(r, f).as_str());
    push_str(&mut s, "\nConfidence: ");
    push_str(&mut s, level_label(confidence.level));
    push_str(&mut s, " (");
    push_decimal(&mut s, confidence.sample_count as u128);
    push_str(&mut s, " sample(s)).\n");
    push_confidence_notes(&mut s, confidence);
    s
}

fn decision_part(r: &RunReport, f: &ReportFigures) -> (s: String)
    requires
        report_times_valid(*r),
    ensures
        s@ == decision_text(*r, *f),
{
    match &r.decision {
        SchedulingDecision::StartAt { start_time, reason, confidence } => {
            defer_part(r, f, *start_time, *reason, confidence)
        },
        SchedulingDecision::StartImmediately { reason, confidence } => {
            run_now_part(r, f, *reason, confidence)
        },
        SchedulingDecision::Refuse { reason } => {
            let mut s = String::from_str("Decision: refused (reason: ");
            push_str(&mut s, refuse_label(*reason));
            push_str(&mut s, ").\n");
            push_str(&mut s, "  ");
            push_refuse_sentence(&mut s, *reason, f.threshold.as_str());
            push_str(&mut s, "\n");
            push_str(&mut s, "\nNo run-now estimate, no selected window — nami declined to produce a number it could not defend.\n");
            s
        },
    }
}

/// Provider, methodology and freshness.
pub open spec fn provenance_text(r: RunReport) -> Seq<char> {
    "\nProvider: "@ + r.provider.name@ + " ("@ + granularity_debug(r.provider.granularity)
        + " granularity).\n"@ + "Methodology: "@ + r.methodology_version@ + ".\n"@
        + "Data freshness: "@ + freshness_name(r.data_freshness) + ".\n"@
}

/// The exit code's text, or a dash when there is none.
pub open spec fn exit_text(c: Option<i32>) -> Seq<char> {
    match c {
        Some(x) => signed_decimal(x as int),
        None => "—"@,
    }
}

/// The command, region, deadline, duration and (after a run) its timing.
pub open spec fn job_text(r: RunReport) -> Seq<char> {
    "\nJob: "@ + r.command@ + " "@ + joined(r.args@.map_values(|s: String| s@)) + "\n"@
        + "Region: "@ + region_code(r.region) + " — deadline "@ + zoned_rfc3339(r.deadline, r.deadline_offset)
        + " — estimated duration "@ + dur_text(r.estimated_duration as int) + "\n"@
        + timing_text(r)
}

/// The timing line of a finished run.
pub open spec fn timing_text(r: RunReport) -> Seq<char> {
    if r.started_at is Some && r.finished_at is Some {
        "Started: "@ + instant_rfc3339(r.started_at->0) + " — finished: "@ + instant_rfc3339(
            r.finished_at->0,
        ) + " — exit code: "@ + exit_text(r.exit_code) + "\n"@
    } else {
        Seq::empty()
    }
}

fn timing_part(r: &RunReport) -> (s: String)
    requires
        report_times_valid(*r),
    ensures
        s@ == timing_text(*r),
{
    match (r.started_at, r.finished_at) {
        (Some(start), Some(end)) => {
            let mut s = String::from_str("Started: ");
            push_str(&mut s, rfc3339(start).as_str());
            push_str(&mut s, " — finished: ");
            push_str(&mut s, rfc3339(end).as_str());
            push_str(&mut s, " — exit code: ");
            match r.exit_code {
                Some(c) => push_signed(&mut s, c as i128),
                None => push_str(&mut s, "—"),
            }
            push_str(&mut s, "\n");
            s
        },
        _ => String::new(),
    }
}

fn job_part(r: &RunReport) -> (s: String)
    requires
        report_times_valid(*r),
    ensures
        s@ == job_text(*r),
{
    let mut s = String::from_str("\nJob: ");
    push_str(&mut s, r.command.as_str());
    push_str(&mut s, " ");
    push_joined(&mut s, &r.args);
    push_str(&mut s, "\n");
    push_str(&mut s, "Region: ");
    push_str(&mut s, r.region.as_code());
    push_str(&mut s, " — deadline ");
    push_str(&mut s, rfc3339_zoned(r.deadline, r.deadline_offset).as_str());
    push_str(&mut s, " — estimated duration ");
    push_dur(&mut s, r.estimated_duration);
    push_str(&mut s, "\n");
    push_str(&mut s, timing_part(r).as_str());
    s
}

/// The warnings as a bulleted list; nothing when there are none.
pub open spec fn warnings_text(r: RunReport) -> Seq<char> {
    if r.warnings@.len() == 0 {
        Seq::empty()
    } else {
        "\nWarnings:\n"@ + lines("  - "@, r.warnings@.map_values(|s: String| s@))
    }
}

fn warnings_part(r: &RunReport) -> (s: String)
    ensures
        s@ == warnings_text(*r),
{
    if r.warnings.len() > 0 {
        let mut s = String::from_str("\nWarnings:\n");
        push_lines(&mut s, "  - ", &r.warnings);
        s
    } else {
        String::new()
    }
}

/// The whole explanation of a report.
pub open spec fn explain_text(r: RunReport, f: ReportFigures) -> Seq<char> {
    "nami explain — report submitted "@ + instant_rfc3339(r.submitted_at) + "\n\n"@
        + decision_text(r, f) + provenance_text(r) + job_text(r) + warnings_text(r)
        + "\nReminder: estimates are average carbon intensity, not marginal emissions.\n"@
}

fn provenance_part(r: &RunReport) -> (s: String)
    ensures
        s@ == provenance_text(*r),
{
    let mut s = String::from_str("\nProvider: ");
    push_str(&mut s, r.provider.name.as_str());
    push_str(&mut s, " (");
    push_granularity(&mut s, r.provider.granularity);
    push_str(&mut s, " granularity).\n");
    push_str(&mut s, "Methodology: ");
    push_str(&mut s, r.methodology_version.as_str());
    push_str(&mut s, ".\n");
    push_str(&mut s, "Data freshness: ");
    push_str(&mut s, freshness_label(&r.data_freshness));
    push_str(&mut s, ".\n");
    s
}

/// Render the prose explanation of a report; `f` holds the report's
/// numbers as text.
pub fn explain(r: &RunReport, f: &ReportFigures) -> (s: String)
    requires
        report_times_valid(*r),
    ensures
        s@ == explain_text(*r, *f),
{
    let mut s = String::from_str("nami explain — report submitted ");
    push_str(&mut s, rfc3339(r.submitted_at).as_str());
    push_str(&mut s, "\n\n");
    push_str(&mut s, decision_part(r, f).as_str());
    push_str(&mut s, provenance_part(r).as_str());
    push_str(&mut s, job_part(r).as_str());
    push_str(&mut s, warnings_part(r).as_str());
    push_str(&mut s, "\nReminder: estimates are average carbon intensity, not marginal emissions.\n");
    s
}

} // verus!
