//! The auditable record of one scheduling decision, and the text pieces
//! shared by the renderers that explain it.
//!
//! Intensities and percentages are `f64` values carried by their bit
//! patterns; renderers take their decimal renderings as text
//! ([`ReportFigures`]) from the caller.

use vstd::prelude::*;

use crate::cache::Intensity;
use crate::confidence::{Confidence, ConfidenceLevel, DataFreshness, DataGranularity};
use crate::decision::{RefuseReason, SchedulingDecision, StartReason};
use crate::instant::{valid_duration, valid_instant, valid_zoned, NANOS_PER_SECOND};
use crate::region::Region;
use crate::text::{decimal, push_decimal, push_signed, push_str, signed_decimal};
use vstd::string::StringExecFns;

verus! {

/// An `f64` percentage, carried by its bit pattern.
#[derive(Debug, Clone, Copy, PartialEq, Eq, Structural)]
pub struct Percent {
    /// Bit pattern of the `f64` value.
    pub bits: u64,
}

/// Bit pattern of the `f64` value 5.0: the default materiality threshold,
/// 5 percent, that the best-window policy applies and every report
/// records.
pub const DEFAULT_MATERIALITY_BITS: u64 = 0x4014_0000_0000_0000;

/// The default materiality threshold, 5 percent.
pub fn default_materiality() -> (p: Percent)
    ensures
        p.bits == DEFAULT_MATERIALITY_BITS,
{
    Percent { bits: DEFAULT_MATERIALITY_BITS }
}

/// What a provider can do.
#[derive(Debug, Clone, Copy, PartialEq, Eq, Structural)]
pub enum ProviderCapability {
    /// Hourly historical observations.
    HistoricalHourly,
    /// A provider-issued forecast of average intensity.
    AverageCarbonForecast,
}

/// A provider's declared metadata.
#[derive(Debug)]
pub struct ProviderInfo {
    /// Provider name.
    pub name: String,
    /// What the provider can do.
    pub capabilities: Vec<ProviderCapability>,
    /// Resolution of its data.
    pub granularity: DataGranularity,
    /// Expected publication lag (nanoseconds), when known.
    pub expected_lag: Option<i128>,
}

/// The estimate for one candidate window.
#[derive(Debug)]
pub struct WindowEstimate {
    /// Window start (UTC nanoseconds).
    pub start: i128,
    /// Window length (nanoseconds).
    pub duration: i128,
    /// Estimated mean intensity over the window.
    pub mean_intensity: Intensity,
    /// Confidence in the estimate.
    pub confidence: Confidence,
}

/// A gap in the data behind a run.
#[derive(Debug, Clone, PartialEq, Eq)]
pub enum DataGap {
    /// No forecast was available (the reason).
    ForecastUnavailable(String),
    /// Sampling the current intensity failed (the reason).
    SampleFailed(String),
    /// The region was inferred rather than given.
    RegionInferred(Region),
}

/// The record of one decision and, after a run, its outcome.
#[derive(Debug)]
pub struct RunReport {
    /// Program run.
    pub command: String,
    /// Its arguments.
    pub args: Vec<String>,
    /// Region the job ran in.
    pub region: Region,
    /// Deadline (UTC nanoseconds).
    pub deadline: i128,
    /// UTC offset, in seconds, the deadline was given at and is shown at.
    pub deadline_offset: i32,
    /// Estimated duration (nanoseconds).
    pub estimated_duration: i128,
    /// The scheduler's decision.
    pub decision: SchedulingDecision,
    /// Estimate for running immediately, when scorable.
    pub run_now_estimate: Option<WindowEstimate>,
    /// Estimate for the chosen window, when deferred.
    pub selected_window_estimate: Option<WindowEstimate>,
    /// Estimated improvement of the chosen window over run-now, percent.
    pub estimated_improvement_pct: Option<Percent>,
    /// Materiality threshold in force, percent.
    pub materiality_threshold_pct: Percent,
    /// Provider of the data.
    pub provider: ProviderInfo,
    /// Freshness of the data.
    pub data_freshness: DataFreshness,
    /// Methodology label.
    pub methodology_version: String,
    /// Warnings surfaced to the user.
    pub warnings: Vec<String>,
    /// When the job was submitted (UTC nanoseconds).
    pub submitted_at: i128,
    /// When the command started.
    pub started_at: Option<i128>,
    /// When the command finished.
    pub finished_at: Option<i128>,
    /// Wall-clock run time (nanoseconds).
    pub wall_duration: Option<i128>,
    /// The command's exit code.
    pub exit_code: Option<i32>,
}

/// The report's numbers as decimal text, rendered by the caller from the
/// bit patterns; `None` where the report has no such number.
#[derive(Debug)]
pub struct ReportFigures {
    /// Run-now mean intensity, no decimals.
    pub run_now_intensity: Option<String>,
    /// Selected-window mean intensity, no decimals.
    pub selected_intensity: Option<String>,
    /// Estimated improvement, one decimal.
    pub improvement: Option<String>,
    /// Materiality threshold, one decimal.
    pub threshold: String,
}

/// The text of an optional figure (empty when absent).
pub open spec fn fig(t: Option<String>) -> Seq<char> {
    match t {
        Some(s) => s@,
        None => Seq::empty(),
    }
}

/// All instants and durations of a report are representable.
pub open spec fn report_times_valid(r: RunReport) -> bool {
    &&& valid_zoned(r.deadline as int, r.deadline_offset as int)
    &&& valid_instant(r.submitted_at as int)
    &&& valid_duration(r.estimated_duration as int)
    &&& (r.started_at matches Some(t) ==> valid_instant(t as int))
    &&& (r.finished_at matches Some(t) ==> valid_instant(t as int))
    &&& (r.decision matches SchedulingDecision::StartAt { start_time, .. } ==> valid_instant(
        start_time as int,
    ))
}

/// The `{:?}` name of a start reason.
pub open spec fn start_reason_name(r: StartReason) -> Seq<char> {
    match r {
        StartReason::LowestEstimatedIntensity => "LowestEstimatedIntensity"@,
        StartReason::RunNowAlreadyCleanest => "RunNowAlreadyCleanest"@,
        StartReason::DeadlineTooSoon => "DeadlineTooSoon"@,
        StartReason::FallbackPolicyRunImmediately => "FallbackPolicyRunImmediately"@,
        StartReason::UserForced => "UserForced"@,
    }
}

/// The `{:?}` name of a start reason.
pub fn start_reason_str(r: StartReason) -> (s: &'static str)
    ensures
        s@ == start_reason_name(r),
{
    match r {
        StartReason::LowestEstimatedIntensity => "LowestEstimatedIntensity",
        StartReason::RunNowAlreadyCleanest => "RunNowAlreadyCleanest",
        StartReason::DeadlineTooSoon => "DeadlineTooSoon",
        StartReason::FallbackPolicyRunImmediately => "FallbackPolicyRunImmediately",
        StartReason::UserForced => "UserForced",
    }
}

/// The `{:?}` name (and summary label) of a refusal reason.
pub open spec fn refuse_reason_name(r: RefuseReason) -> Seq<char> {
    match r {
        RefuseReason::UnsupportedRegion => "UnsupportedRegion"@,
        RefuseReason::MissingHistoricalData => "MissingHistoricalData"@,
        RefuseReason::StaleHistoricalCache => "StaleHistoricalCache"@,
        RefuseReason::InsufficientSamples => "InsufficientSamples"@,
        RefuseReason::ProviderUnavailable => "ProviderUnavailable"@,
        RefuseReason::NoWindowBeforeDeadline => "NoWindowBeforeDeadline"@,
        RefuseReason::CandidateWindowsBelowMaterialityThreshold => "CandidateWindowsBelowMaterialityThreshold"@,
        RefuseReason::ForecastTooUncertain => "ForecastTooUncertain"@,
    }
}

/// The label of a refusal reason, as counted in summaries.
pub fn refuse_label(r: RefuseReason) -> (s: &'static str)
    ensures
        s@ == refuse_reason_name(r),
{
    match r {
        RefuseReason::UnsupportedRegion => "UnsupportedRegion",
        RefuseReason::MissingHistoricalData => "MissingHistoricalData",
        RefuseReason::StaleHistoricalCache => "StaleHistoricalCache",
        RefuseReason::InsufficientSamples => "InsufficientSamples",
        RefuseReason::ProviderUnavailable => "ProviderUnavailable",
        RefuseReason::NoWindowBeforeDeadline => "NoWindowBeforeDeadline",
        RefuseReason::CandidateWindowsBelowMaterialityThreshold => "CandidateWindowsBelowMaterialityThreshold",
        RefuseReason::ForecastTooUncertain => "ForecastTooUncertain",
    }
}

/// The `{:?}` rendering of a granularity.
pub open spec fn granularity_debug(g: DataGranularity) -> Seq<char> {
    match g {
        DataGranularity::SubHourly { period_seconds } => "SubHourly { period_seconds: "@ + decimal(
            period_seconds as nat,
        ) + " }"@,
        DataGranularity::Hourly => "Hourly"@,
        DataGranularity::Daily => "Daily"@,
        DataGranularity::Annual => "Annual"@,
    }
}

/// Appends the `{:?}` rendering of a granularity.
pub fn push_granularity(s: &mut String, g: DataGranularity)
    ensures
        final(s)@ == old(s)@ + granularity_debug(g),
{
    match g {
        DataGranularity::SubHourly { period_seconds } => {
            push_str(s, "SubHourly { period_seconds: ");
            push_decimal(s, period_seconds as u128);
            push_str(s, " }");
        },
        DataGranularity::Hourly => push_str(s, "Hourly"),
        DataGranularity::Daily => push_str(s, "Daily"),
        DataGranularity::Annual => push_str(s, "Annual"),
    }
    assert(final(s)@ =~= old(s)@ + granularity_debug(g));
}

/// Whole seconds of a duration, truncated toward zero.
pub open spec fn whole_seconds(d: int) -> int {
    if d >= 0 {
        d / (NANOS_PER_SECOND as int)
    } else {
        -((-d) / (NANOS_PER_SECOND as int))
    }
}

/// Compact duration label: whole days, hours or minutes when the
/// duration is a nonzero multiple of one, else seconds (`2d`, `24h`,
/// `90m`, `45s`).
pub open spec fn dur_text(d: int) -> Seq<char> {
    let s = whole_seconds(d);
    if s != 0 && s % 86_400 == 0 {
        signed_decimal(s / 86_400) + "d"@
    } else if s != 0 && s % 3_600 == 0 {
        signed_decimal(s / 3_600) + "h"@
    } else if s != 0 && s % 60 == 0 {
        signed_decimal(s / 60) + "m"@
    } else {
        signed_decimal(s) + "s"@
    }
}

/// `s / unit` for a nonzero multiple `s` of `unit`, with its sign.
fn exact_quotient(s: i128, unit: i128) -> (q: i128)
    requires
        unit > 0,
        s % unit == 0,
        -10_000_000_000_000_000_000 <= s <= 10_000_000_000_000_000_000,
    ensures
        q == s / unit,
        q > i128::MIN,
{
    let a: i128 = if s < 0 { -s } else { s };
    let qa = a / unit;
    if s < 0 {
        assert(-qa == s / unit) by (nonlinear_arith)
            requires
                a == -s,
                qa == a / unit,
                s % unit == 0,
                unit > 0,
                s < 0,
        ;
        -qa
    } else {
        qa
    }
}

/// Appends the compact label of a duration.
pub fn push_dur(out: &mut String, d: i128)
    requires
        valid_duration(d as int),
    ensures
        final(out)@ == old(out)@ + dur_text(d as int),
{
    let s: i128 = if d >= 0 {
        d / NANOS_PER_SECOND
    } else {
        -((-d) / NANOS_PER_SECOND)
    };
    assert(-10_000_000_000_000_000_000 <= s <= 10_000_000_000_000_000_000) by (nonlinear_arith)
        requires
            s == whole_seconds(d as int),
            -9_223_372_036_854_775_807_999_999_999int <= d <= 9_223_372_036_854_775_807_999_999_999int,
    ;
    let a: i128 = if s < 0 { -s } else { s };
    assert((s % 86_400 == 0) == (a % 86_400 == 0)) by (nonlinear_arith)
        requires a == s || a == -s;
    assert((s % 3_600 == 0) == (a % 3_600 == 0)) by (nonlinear_arith)
        requires a == s || a == -s;
    assert((s % 60 == 0) == (a % 60 == 0)) by (nonlinear_arith)
        requires a == s || a == -s;
    if s != 0 && a % 86_400 == 0 {
        push_signed(out, exact_quotient(s, 86_400));
        push_str(out, "d");
    } else if s != 0 && a % 3_600 == 0 {
        push_signed(out, exact_quotient(s, 3_600));
        push_str(out, "h");
    } else if s != 0 && a % 60 == 0 {
        push_signed(out, exact_quotient(s, 60));
        push_str(out, "m");
    } else {
        push_signed(out, s);
        push_str(out, "s");
    }
    assert(final(out)@ =~= old(out)@ + dur_text(d as int));
}

/// The compact label of a duration as a new string.
pub fn fmt_dur(d: i128) -> (s: String)
    requires
        valid_duration(d as int),
    ensures
        s@ == dur_text(d as int),
{
    let mut s = String::new();
    push_dur(&mut s, d);
    assert(s@ =~= dur_text(d as int));
    s
}

/// The strings joined with single spaces.
pub open spec fn joined(v: Seq<Seq<char>>) -> Seq<char>
    decreases v.len(),
{
    if v.len() == 0 {
        Seq::empty()
    } else if v.len() == 1 {
        v[0]
    } else {
        joined(v.drop_last()) + " "@ + v.last()
    }
}

/// Appends the strings joined with single spaces.
pub fn push_joined(out: &mut String, v: &Vec<String>)
    ensures
        final(out)@ == old(out)@ + joined(v@.map_values(|s: String| s@)),
{
    let ghost start = out@;
    let ghost vs = v@.map_values(|s: String| s@);
    let mut i: usize = 0;
    while i < v.len()
        invariant
            i <= v@.len(),
            vs == v@.map_values(|s: String| s@),
            out@ == start + joined(vs.take(i as int)),
        decreases v@.len() - i,
    {
        if i > 0 {
            push_str(out, " ");
        }
        push_str(out, v[i].as_str());
        proof {
            assert(vs.take(i + 1).drop_last() =~= vs.take(i as int));
            if i == 0 {
                assert(vs.take(1) =~= seq![vs[0]]);
            }
        }
        i = i + 1;
        assert(out@ =~= start + joined(vs.take(i as int)));
    }
    assert(vs.take(i as int) =~= vs);
}


/// Each string on a line of its own, after `prefix`.
pub open spec fn lines(prefix: Seq<char>, v: Seq<Seq<char>>) -> Seq<char>
    decreases v.len(),
{
    if v.len() == 0 {
        Seq::empty()
    } else {
        lines(prefix, v.drop_last()) + prefix + v.last() + "\n"@
    }
}

/// Appends each string on a line of its own, after `prefix`.
pub fn push_lines(out: &mut String, prefix: &str, v: &Vec<String>)
    ensures
        final(out)@ == old(out)@ + lines(prefix@, v@.map_values(|s: String| s@)),
{
    let ghost start = out@;
    let ghost vs = v@.map_values(|s: String| s@);
    let mut i: usize = 0;
    while i < v.len()
        invariant
            i <= v@.len(),
            vs == v@.map_values(|s: String| s@),
            out@ == start + lines(prefix@, vs.take(i as int)),
        decreases v@.len() - i,
    {
        push_str(out, prefix);
        push_str(out, v[i].as_str());
        push_str(out, "\n");
        proof {
            assert(vs.take(i + 1).drop_last() =~= vs.take(i as int));
        }
        i = i + 1;
        assert(out@ =~= start + lines(prefix@, vs.take(i as int)));
    }
    assert(vs.take(i as int) =~= vs);
}

/// Appends an optional figure's text (nothing when absent).
pub fn push_fig(out: &mut String, t: &Option<String>)
    ensures
        final(out)@ == old(out)@ + fig(*t),
{
    match t {
        Some(x) => push_str(out, x.as_str()),
        None => {
            assert(old(out)@ + fig(*t) =~= old(out)@);
        },
    }
}
} // verus!
