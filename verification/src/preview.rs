//! The recommendation shown by `nami preview` and `nami run`: the pieces
//! of the report that do not depend on arithmetic on intensities, the
//! static-fallback report, and the terminal summary.

use vstd::prelude::*;

use crate::cache::{region_obs, HistoricalCache, Intensity};
use crate::forecast::{estimable_hours, NANOS_PER_WEEK};
use crate::confidence::{Confidence, ConfidenceLevel, DataFreshness, DataGranularity};
use crate::decision::{static_fallback_decision, RefuseReason, SchedulingDecision, StartReason};
use crate::instant::{valid_duration, valid_instant, valid_zoned};
use crate::region::{region_code, Region};
use crate::run_report::{
    default_materiality, DEFAULT_MATERIALITY_BITS,
    fig, lines, push_fig, push_lines, report_times_valid, Percent, ProviderCapability,
    ProviderInfo, ReportFigures, RunReport, WindowEstimate,
};
use crate::text::{decimal, push_decimal, push_str, views};
use crate::timefmt::{instant_rfc3339, rfc3339, rfc3339_zoned, zoned_rfc3339};
use vstd::string::StringExecFns;

verus! {

/// Default location of the historical cache.
pub const DEFAULT_CACHE_PATH: &'static str = "data/historical-cache.json";

/// Methodology label of the static-fallback path.
pub const STATIC_METHODOLOGY: &'static str = "static-fallback-annual-v1";

/// The confidence label shown in the terminal summary.
pub open spec fn summary_level_text(l: ConfidenceLevel) -> Seq<char> {
    match l {
        ConfidenceLevel::High => "High"@,
        ConfidenceLevel::Medium => "Medium"@,
        ConfidenceLevel::Low => "Low"@,
        ConfidenceLevel::VeryLow => "Very low"@,
    }
}

/// The confidence label shown in the terminal summary.
pub fn level_label(l: ConfidenceLevel) -> (s: &'static str)
    ensures
        s@ == summary_level_text(l),
{
    match l {
        ConfidenceLevel::High => "High",
        ConfidenceLevel::Medium => "Medium",
        ConfidenceLevel::Low => "Low",
        ConfidenceLevel::VeryLow => "Very low",
    }
}

/// Why there is no recommendation, as a clause.
pub open spec fn refuse_clause(r: RefuseReason) -> Seq<char> {
    match r {
        RefuseReason::NoWindowBeforeDeadline => "the job cannot finish before the deadline"@,
        RefuseReason::ForecastTooUncertain => "the historical-pattern forecast does not cover the run-now window, so there is no baseline to compare against"@,
        RefuseReason::UnsupportedRegion => "the region is not supported"@,
        RefuseReason::MissingHistoricalData => "required historical data is missing"@,
        RefuseReason::StaleHistoricalCache => "the historical cache is too stale"@,
        RefuseReason::InsufficientSamples => "there are too few samples for a defensible estimate"@,
        RefuseReason::ProviderUnavailable => "the data provider is unavailable"@,
        RefuseReason::CandidateWindowsBelowMaterialityThreshold => "no candidate window is materially cleaner than running now"@,
    }
}

/// Why there is no recommendation, as a clause.
pub fn refuse_text(r: RefuseReason) -> (s: &'static str)
    ensures
        s@ == refuse_clause(r),
{
    match r {
        RefuseReason::NoWindowBeforeDeadline => "the job cannot finish before the deadline",
        RefuseReason::ForecastTooUncertain => "the historical-pattern forecast does not cover the run-now window, so there is no baseline to compare against",
        RefuseReason::UnsupportedRegion => "the region is not supported",
        RefuseReason::MissingHistoricalData => "required historical data is missing",
        RefuseReason::StaleHistoricalCache => "the historical cache is too stale",
        RefuseReason::InsufficientSamples => "there are too few samples for a defensible estimate",
        RefuseReason::ProviderUnavailable => "the data provider is unavailable",
        RefuseReason::CandidateWindowsBelowMaterialityThreshold => "no candidate window is materially cleaner than running now",
    }
}

/// The historical-pattern provider's metadata: hourly historical data,
/// and deliberately no claim of a provider-issued forecast.
pub fn eia_provider_info() -> (p: ProviderInfo)
    ensures
        p.name@ == "eia-egrid-historical-pattern"@,
        p.capabilities@ == seq![ProviderCapability::HistoricalHourly],
        p.granularity == DataGranularity::Hourly,
        p.expected_lag is None,
{
    let mut capabilities: Vec<ProviderCapability> = Vec::new();
    capabilities.push(ProviderCapability::HistoricalHourly);
    ProviderInfo {
        name: String::from_str("eia-egrid-historical-pattern"),
        capabilities,
        granularity: DataGranularity::Hourly,
        expected_lag: None,
    }
}

/// The static provider's metadata: annual data and no capabilities.
pub fn static_provider_info() -> (p: ProviderInfo)
    ensures
        p.name@ == "static-fallback"@,
        p.capabilities@.len() == 0,
        p.granularity == DataGranularity::Annual,
        p.expected_lag is None,
{
    ProviderInfo {
        name: String::from_str("static-fallback"),
        capabilities: Vec::new(),
        granularity: DataGranularity::Annual,
        expected_lag: None,
    }
}

/// The two disclaimers every preview carries.
pub open spec fn base_warning_texts() -> Seq<Seq<char>> {
    seq![
        "Estimate is average carbon intensity, not marginal emissions."@,
        "Not a guarantee of an actual emissions reduction."@,
    ]
}

/// The two disclaimers every preview carries.
pub fn base_warnings() -> (w: Vec<String>)
    ensures
        views(w@) == base_warning_texts(),
{
    let mut w: Vec<String> = Vec::new();
    w.push(String::from_str("Estimate is average carbon intensity, not marginal emissions."));
    w.push(String::from_str("Not a guarantee of an actual emissions reduction."));
    assert(views(w@) =~= base_warning_texts());
    w
}

/// The last warning of a static-fallback report.
pub open spec fn static_note() -> Seq<char> {
    "Static fallback: a flat annual regional mean, not a time-varying forecast. Confidence is VeryLow."@
}

/// How the historical cache stood when a recommendation was assembled.
#[derive(Debug)]
pub enum CacheState {
    /// Loaded.
    Present(HistoricalCache),
    /// No cache file (a normal state).
    Missing,
    /// Present but unusable; the reason.
    Unusable(String),
}

/// Why the static fallback is used, for a cache that is not present.
pub open spec fn fallback_reason_text(state: CacheState) -> Option<Seq<char>> {
    match state {
        CacheState::Missing => Some(
            "No historical cache at "@ + DEFAULT_CACHE_PATH@
                + "; using the static annual-mean fallback (not a forecast)."@,
        ),
        CacheState::Unusable(m) => Some(
            "Historical cache unusable ("@ + m@
                + "); using the static annual-mean fallback (not a forecast)."@,
        ),
        CacheState::Present(_) => None,
    }
}

/// Why the static fallback is used, for a cache that is not present.
pub fn fallback_reason(state: &CacheState) -> (r: Option<String>)
    ensures
        match fallback_reason_text(*state) {
            Some(t) => r matches Some(s) && s@ == t,
            None => r is None,
        },
{
    match state {
        CacheState::Missing => {
            let mut s = String::from_str("No historical cache at ");
            push_str(&mut s, DEFAULT_CACHE_PATH);
            push_str(&mut s, "; using the static annual-mean fallback (not a forecast).");
            Some(s)
        },
        CacheState::Unusable(m) => {
            let mut s = String::from_str("Historical cache unusable (");
            push_str(&mut s, m.as_str());
            push_str(&mut s, "); using the static annual-mean fallback (not a forecast).");
            Some(s)
        },
        CacheState::Present(_) => None,
    }
}

/// The fallback reason when the cache has no matching samples.
pub open spec fn no_samples_text(region: Region, weeks: nat) -> Seq<char> {
    "Historical cache has no matching samples for "@ + region_code(region) + " in the last "@
        + decimal(weeks) + " weeks; using the static annual-mean fallback (not a forecast)."@
}

/// The fallback reason when the cache has no matching samples.
pub fn no_samples_reason(region: Region, weeks: u32) -> (s: String)
    ensures
        s@ == no_samples_text(region, weeks as nat),
{
    let mut s = String::from_str("Historical cache has no matching samples for ");
    push_str(&mut s, region.as_code());
    push_str(&mut s, " in the last ");
    push_decimal(&mut s, weeks as u128);
    push_str(&mut s, " weeks; using the static annual-mean fallback (not a forecast).");
    s
}

/// The warning added when the region's newest sample is older than the
/// staleness bound.
pub open spec fn stale_text(region: Region, max_hours: nat) -> Seq<char> {
    "STALE DATA: the newest cached sample for "@ + region_code(region) + " is older than "@
        + decimal(max_hours)
        + " hours; this recommendation is based on out-of-date patterns."@
}

/// The warning added when the region's newest sample is older than the
/// staleness bound.
pub fn stale_warning(region: Region, max_hours: u64) -> (s: String)
    ensures
        s@ == stale_text(region, max_hours as nat),
{
    let mut s = String::from_str("STALE DATA: the newest cached sample for ");
    push_str(&mut s, region.as_code());
    push_str(&mut s, " is older than ");
    push_decimal(&mut s, max_hours as u128);
    push_str(&mut s, " hours; this recommendation is based on out-of-date patterns.");
    s
}

/// The warnings of a historical-pattern report: the disclaimers, the
/// staleness warning when stale, then the decision's confidence notes.
pub open spec fn forecast_warning_texts(
    stale: bool,
    region: Region,
    max_hours: nat,
    d: SchedulingDecision,
) -> Seq<Seq<char>> {
    base_warning_texts() + (if stale {
        seq![stale_text(region, max_hours)]
    } else {
        seq![]
    }) + match d {
        SchedulingDecision::StartAt { confidence, .. } => views(confidence.notes@),
        SchedulingDecision::StartImmediately { confidence, .. } => views(confidence.notes@),
        SchedulingDecision::Refuse { .. } => seq![],
    }
}

/// Build the warnings of a historical-pattern report.
pub fn forecast_warnings(stale: bool, region: Region, max_hours: u64, d: &SchedulingDecision) -> (w:
    Vec<String>)
    ensures
        views(w@) == forecast_warning_texts(stale, region, max_hours as nat, *d),
{
    let mut w = base_warnings();
    if stale {
        w.push(stale_warning(region, max_hours));
    }
    let ghost head = views(w@);
    assert(head =~= base_warning_texts() + (if stale {
        seq![stale_text(region, max_hours as nat)]
    } else {
        seq![]
    }));
    let notes: Option<&Vec<String>> = match d {
        SchedulingDecision::StartAt { confidence, .. } => Some(&confidence.notes),
        SchedulingDecision::StartImmediately { confidence, .. } => Some(&confidence.notes),
        SchedulingDecision::Refuse { .. } => None,
    };
    match notes {
        Some(ns) => {
            let mut i: usize = 0;
            while i < ns.len()
                invariant
                    i <= ns@.len(),
                    w@.len() == head.len() + i,
                    forall|k: int| 0 <= k < head.len() ==> (#[trigger] w@[k])@ == head[k],
                    forall|k: int| 0 <= k < i ==> (#[trigger] w@[head.len() + k])@ == ns@[k]@,
                decreases ns@.len() - i,
            {
                w.push(String::from_str(ns[i].as_str()));
                i = i + 1;
            }
            assert forall|k: int| 0 <= k < w@.len() implies views(w@)[k] == (head + views(
                ns@,
            ))[k] by {
                if k < head.len() {
                    assert(w@[k]@ == head[k]);
                } else {
                    let j = k - head.len();
                    assert(w@[head.len() + j]@ == ns@[j]@);
                }
            }
            assert(views(w@) =~= head + views(ns@));
        },
        None => {
            assert(views(w@) =~= head + seq![]);
        },
    }
    w
}

/// The static-fallback report: a flat annual mean for the run-now window,
/// the fallback policy's decision, and the degradation surfaced first
/// among the warnings.
pub open spec fn static_report_ok(
    r: RunReport,
    command: Seq<char>,
    args: Seq<Seq<char>>,
    region: Region,
    deadline: i128,
    deadline_offset: i32,
    duration: i128,
    now: i128,
    warnings: Seq<Seq<char>>,
    fallback_reason: Option<Seq<char>>,
    baseline: Intensity,
    threshold: Percent,
    confidence: Confidence,
) -> bool {
    &&& r.command@ == command
    &&& views(r.args@) == args
    &&& r.region == region
    &&& r.deadline == deadline
    &&& r.deadline_offset == deadline_offset
    &&& r.estimated_duration == duration
    &&& r.decision matches SchedulingDecision::StartImmediately { reason, confidence: c }
        && reason == StartReason::FallbackPolicyRunImmediately && c.level == confidence.level
        && c.sample_count == confidence.sample_count && views(c.notes@) == views(confidence.notes@)
    &&& r.run_now_estimate matches Some(e) && e.start == now && e.duration == duration
        && e.mean_intensity == baseline && e.confidence.level == confidence.level
        && e.confidence.sample_count == confidence.sample_count && views(e.confidence.notes@)
        == views(confidence.notes@)
    &&& r.selected_window_estimate is None
    &&& r.estimated_improvement_pct is None
    &&& r.materiality_threshold_pct == threshold
    &&& r.provider.name@ == "static-fallback"@
    &&& r.provider.capabilities@.len() == 0
    &&& r.provider.granularity == DataGranularity::Annual
    &&& r.provider.expected_lag is None
    &&& r.data_freshness == DataFreshness::StaticFallbackOnly
    &&& r.methodology_version@ == STATIC_METHODOLOGY@
    &&& views(r.warnings@) == (match fallback_reason {
        Some(t) => seq![t],
        None => seq![],
    }) + warnings + seq![static_note()]
    &&& r.submitted_at == now
    &&& r.started_at is None
    &&& r.finished_at is None
    &&& r.wall_duration is None
    &&& r.exit_code is None
}

/// Assemble the static-fallback report for a job; `baseline` is the
/// static table's mean for the region and `confidence` the static
/// provider's (`VeryLow`) confidence.
pub fn static_report(
    command: String,
    args: Vec<String>,
    region: Region,
    deadline: i128,
    deadline_offset: i32,
    duration: i128,
    now: i128,
    warnings: Vec<String>,
    fallback_reason: Option<String>,
    baseline: Intensity,
    threshold: Percent,
    confidence: Confidence,
) -> (r: RunReport)
    ensures
        static_report_ok(
            r,
            command@,
            views(args@),
            region,
            deadline,
            deadline_offset,
            duration,
            now,
            views(warnings@),
            match fallback_reason {
                Some(t) => Some(t@),
                None => None,
            },
            baseline,
            threshold,
            confidence,
        ),
{
    let ghost w0 = views(warnings@);
    let mut all: Vec<String> = Vec::new();
    let ghost lead: Seq<Seq<char>> = if fallback_reason is Some {
        seq![fallback_reason->0@]
    } else {
        seq![]
    };
    match fallback_reason {
        Some(t) => {
            all.push(t);
        },
        None => {},
    }
    assert(views(all@) =~= lead);
    let mut i: usize = 0;
    while i < warnings.len()
        invariant
            i <= warnings@.len(),
            all@.len() == lead.len() + i,
            forall|k: int| 0 <= k < lead.len() ==> (#[trigger] all@[k])@ == lead[k],
            forall|k: int| 0 <= k < i ==> (#[trigger] all@[lead.len() + k])@ == warnings@[k]@,
        decreases warnings@.len() - i,
    {
        all.push(String::from_str(warnings[i].as_str()));
        i = i + 1;
    }
    all.push(String::from_str(
        "Static fallback: a flat annual regional mean, not a time-varying forecast. Confidence is VeryLow.",
    ));
    assert forall|k: int| 0 <= k < all@.len() implies views(all@)[k] == (lead + w0 + seq![
        static_note(),
    ])[k] by {
        if k < lead.len() {
            assert(all@[k]@ == lead[k]);
        } else if k < lead.len() + w0.len() {
            let j = k - lead.len();
            assert(all@[lead.len() + j]@ == warnings@[j]@);
        }
    }
    assert(views(all@) =~= lead + w0 + seq![static_note()]);
    let estimate = WindowEstimate {
        start: now,
        duration,
        mean_intensity: baseline,
        confidence: confidence.duplicate(),
    };
    RunReport {
        command,
        args,
        region,
        deadline,
        deadline_offset,
        estimated_duration: duration,
        decision: static_fallback_decision(confidence),
        run_now_estimate: Some(estimate),
        selected_window_estimate: None,
        estimated_improvement_pct: None,
        materiality_threshold_pct: threshold,
        provider: static_provider_info(),
        data_freshness: DataFreshness::StaticFallbackOnly,
        methodology_version: String::from_str(STATIC_METHODOLOGY),
        warnings: all,
        submitted_at: now,
        started_at: None,
        finished_at: None,
        wall_duration: None,
        exit_code: None,
    }
}

/// The header line of the terminal summary.
pub open spec fn summary_head(r: RunReport, subcommand: Seq<char>) -> Seq<char> {
    "nami "@ + subcommand + " — region "@ + region_code(r.region) + " — deadline "@
        + zoned_rfc3339(r.deadline, r.deadline_offset) + "\n"@
}

/// `Run-now estimate: {n} gCO2/kWh` when there is a run-now estimate.
pub open spec fn run_now_line(r: RunReport, f: ReportFigures) -> Seq<char> {
    if r.run_now_estimate is Some {
        "Run-now estimate: "@ + fig(f.run_now_intensity) + " gCO2/kWh\n"@
    } else {
        Seq::empty()
    }
}

fn run_now_line_part(r: &RunReport, f: &ReportFigures) -> (s: String)
    ensures
        s@ == run_now_line(*r, *f),
{
    if r.run_now_estimate.is_some() {
        let mut s = String::from_str("Run-now estimate: ");
        push_fig(&mut s, &f.run_now_intensity);
        push_str(&mut s, " gCO2/kWh\n");
        s
    } else {
        String::new()
    }
}

/// The recommendation lines of a deferral.
pub open spec fn start_at_lines(
    r: RunReport,
    f: ReportFigures,
    start_time: i128,
    level: ConfidenceLevel,
) -> Seq<char> {
    "Recommended start: "@ + instant_rfc3339(start_time) + "\n"@ + (
    if r.selected_window_estimate is Some {
        "Expected average intensity: "@ + fig(f.selected_intensity) + " gCO2/kWh\n"@
    } else {
        Seq::empty()
    }) + run_now_line(r, f) + (if r.estimated_improvement_pct is Some {
        "Estimated improvement: "@ + fig(f.improvement) + "% (materiality threshold: "@
            + f.threshold@ + "%)\n"@
    } else {
        Seq::empty()
    }) + "Confidence: "@ + summary_level_text(level) + "\n"@
}

fn start_at_part(r: &RunReport, f: &ReportFigures, start_time: i128, level: ConfidenceLevel) -> (s:
    String)
    requires
        valid_instant(start_time as int),
    ensures
        s@ == start_at_lines(*r, *f, start_time, level),
{
    let sel = if r.selected_window_estimate.is_some() {
        let mut t = String::from_str("Expected average intensity: ");
        push_fig(&mut t, &f.selected_intensity);
        push_str(&mut t, " gCO2/kWh\n");
        t
    } else {
        String::new()
    };
    let imp = if r.estimated_improvement_pct.is_some() {
        let mut t = String::from_str("Estimated improvement: ");
        push_fig(&mut t, &f.improvement);
        push_str(&mut t, "% (materiality threshold: ");
        push_str(&mut t, f.threshold.as_str());
        push_str(&mut t, "%)\n");
        t
    } else {
        String::new()
    };
    let mut s = String::from_str("Recommended start: ");
    push_str(&mut s, rfc3339(start_time).as_str());
    push_str(&mut s, "\n");
    push_str(&mut s, sel.as_str());
    push_str(&mut s, run_now_line_part(r, f).as_str());
    push_str(&mut s, imp.as_str());
    push_str(&mut s, "Confidence: ");
    push_str(&mut s, level_label(level));
    push_str(&mut s, "\n");
    s
}

/// The opening of an immediate-start recommendation.
pub open spec fn run_now_opening(reason: StartReason) -> Seq<char> {
    match reason {
        StartReason::RunNowAlreadyCleanest => "No materially cleaner window found before the deadline.\nRecommendation: run immediately.\n"@,
        StartReason::DeadlineTooSoon => "Deadline too soon to defer.\nRecommendation: run immediately.\n"@,
        StartReason::FallbackPolicyRunImmediately => "No live grid data available.\nRecommendation: run immediately.\n"@,
        _ => "Recommendation: run immediately.\n"@,
    }
}

fn run_now_opening_str(reason: StartReason) -> (s: &'static str)
    ensures
        s@ == run_now_opening(reason),
{
    match reason {
        StartReason::RunNowAlreadyCleanest => "No materially cleaner window found before the deadline.\nRecommendation: run immediately.\n",
        StartReason::DeadlineTooSoon => "Deadline too soon to defer.\nRecommendation: run immediately.\n",
        StartReason::FallbackPolicyRunImmediately => "No live grid data available.\nRecommendation: run immediately.\n",
        _ => "Recommendation: run immediately.\n",
    }
}

/// The recommendation lines of the decision.
pub open spec fn decision_lines(r: RunReport, f: ReportFigures) -> Seq<char> {
    match r.decision {
        SchedulingDecision::StartAt { start_time, confidence, .. } => start_at_lines(
            r,
            f,
            start_time,
            confidence.level,
        ),
        SchedulingDecision::StartImmediately { reason, confidence } => run_now_opening(reason)
            + run_now_line(r, f) + "Confidence: "@ + summary_level_text(confidence.level) + "\n"@,
        SchedulingDecision::Refuse { reason } => "No recommendation: "@ + refuse_clause(reason)
            + ".\nThe job is not scheduled; decide how to proceed yourself.\n"@,
    }
}

fn decision_lines_part(r: &RunReport, f: &ReportFigures) -> (s: String)
    requires
        report_times_valid(*r),
    ensures
        s@ == decision_lines(*r, *f),
{
    match &r.decision {
        SchedulingDecision::StartAt { start_time, confidence, .. } => {
            start_at_part(r, f, *start_time, confidence.level)
        },
        SchedulingDecision::StartImmediately { reason, confidence } => {
            let mut s = String::from_str(run_now_opening_str(*reason));
            push_str(&mut s, run_now_line_part(r, f).as_str());
            push_str(&mut s, "Confidence: ");
            push_str(&mut s, level_label(confidence.level));
            push_str(&mut s, "\n");
            s
        },
        SchedulingDecision::Refuse { reason } => {
            let mut s = String::from_str("No recommendation: ");
            push_str(&mut s, refuse_text(*reason));
            push_str(&mut s, ".\nThe job is not scheduled; decide how to proceed yourself.\n");
            s
        },
    }
}

/// The basis line: a static mean is never presented as a forecast.
pub open spec fn basis_line(r: RunReport) -> Seq<char> {
    if r.data_freshness == DataFreshness::StaticFallbackOnly {
        "Basis: static annual regional mean — a degraded fallback, not a forecast ("@
            + r.methodology_version@ + ")\n"@
    } else {
        "Basis: historical-pattern forecast from hourly public data ("@ + r.methodology_version@
            + ")\n"@
    }
}

/// The terminal summary of a report, headed by the invoking subcommand.
pub open spec fn summary_text(r: RunReport, f: ReportFigures, subcommand: Seq<char>) -> Seq<char> {
    summary_head(r, subcommand) + decision_lines(r, f) + basis_line(r) + lines(
        "Warning: "@,
        views(r.warnings@),
    )
}

/// Build the terminal summary; `subcommand` is `preview` or `run`, and
/// `f` holds the report's numbers as text.
pub fn human_summary(r: &RunReport, f: &ReportFigures, subcommand: &str) -> (s: String)
    requires
        report_times_valid(*r),
    ensures
        s@ == summary_text(*r, *f, subcommand@),
{
    let basis = match r.data_freshness {
        DataFreshness::StaticFallbackOnly => {
            let mut t = String::from_str(
                "Basis: static annual regional mean — a degraded fallback, not a forecast (",
            );
            push_str(&mut t, r.methodology_version.as_str());
            push_str(&mut t, ")\n");
            t
        },
        _ => {
            let mut t = String::from_str(
                "Basis: historical-pattern forecast from hourly public data (",
            );
            push_str(&mut t, r.methodology_version.as_str());
            push_str(&mut t, ")\n");
            t
        },
    };
    let mut s = String::from_str("nami ");
    push_str(&mut s, subcommand);
    push_str(&mut s, " — region ");
    push_str(&mut s, r.region.as_code());
    push_str(&mut s, " — deadline ");
    push_str(&mut s, rfc3339_zoned(r.deadline, r.deadline_offset).as_str());
    push_str(&mut s, "\n");
    push_str(&mut s, decision_lines_part(r, f).as_str());
    push_str(&mut s, basis.as_str());
    push_lines(&mut s, "Warning: ", &r.warnings);
    s
}


/// What the historical-pattern path produced for a job, from the
/// forecast and the best-window decision over it.
#[derive(Debug)]
pub struct ForecastPath {
    /// The decision.
    pub decision: SchedulingDecision,
    /// Estimate for running now, when scorable.
    pub run_now_estimate: Option<WindowEstimate>,
    /// Estimate for the chosen window, when deferred and scorable.
    pub selected_window_estimate: Option<WindowEstimate>,
    /// Improvement of the chosen window over running now, percent.
    pub improvement: Option<Percent>,
}

/// A static-fallback report for a job, led by `reason`.
pub open spec fn static_fallback_shape(r: RunReport, reason: Seq<char>, baseline: Intensity, threshold: Percent) -> bool {
    &&& r.data_freshness == DataFreshness::StaticFallbackOnly
    &&& r.decision is StartImmediately
    &&& r.decision->StartImmediately_reason == StartReason::FallbackPolicyRunImmediately
    &&& r.decision->StartImmediately_confidence.level == ConfidenceLevel::VeryLow
    &&& r.run_now_estimate is Some
    &&& r.run_now_estimate->0.mean_intensity == baseline
    &&& r.selected_window_estimate is None
    &&& r.estimated_improvement_pct is None
    &&& r.materiality_threshold_pct == threshold
    &&& r.provider.name@ == "static-fallback"@
    &&& r.methodology_version@ == STATIC_METHODOLOGY@
    &&& views(r.warnings@) == seq![reason] + base_warning_texts() + seq![static_note()]
}

/// The refusal when no region was given.
pub open spec fn no_region_text() -> Seq<char> {
    "no --region given and automatic region detection is not implemented yet; pass one of: CAISO, ERCOT, MISO, PJM, NYISO, ISONE, SPP"@
}

/// Every cached observation time is an instant in the calendar range.
pub open spec fn obs_times_valid(c: &HistoricalCache) -> bool {
    forall|r: Region, j: int|
        0 <= j < region_obs(c.regions@, r).len() ==> valid_instant(
            #[trigger] region_obs(c.regions@, r)[j].at as int,
        )
}

/// The time of the region's newest cached sample, or `now` when it has
/// none: the instant staleness is judged on.
pub open spec fn newest_or(c: &HistoricalCache, r: Region, now: i128) -> i128 {
    let obs = region_obs(c.regions@, r);
    if obs.len() == 0 {
        now
    } else {
        obs.last().at
    }
}

/// The default threshold as a value.
pub open spec fn default_percent() -> Percent {
    Percent { bits: DEFAULT_MATERIALITY_BITS }
}

/// Some hour before the deadline has cached samples to forecast from: the
/// region has history, the look-back start is an instant, and at least one
/// hour in `[floor_hour(now), deadline)` has samples sharing its hour of
/// day, day of week and month (`forecast_basis`).
pub open spec fn has_matching_samples(c: &HistoricalCache, r: Region, now: i128, deadline: i128, weeks: u32) -> bool {
    let obs = region_obs(c.regions@, r);
    let ws = now - weeks * NANOS_PER_WEEK;
    &&& obs.len() > 0
    &&& valid_instant(ws)
    &&& estimable_hours(obs, now as int, deadline as int, ws, now as int).len() > 0
}

/// Hours in the staleness bound.
pub const MAX_AGE_HOURS: u64 = 24;

/// Assemble the recommendation for a job. Refuses without a region or
/// with an invalid job. With no usable cache, or a cache with no matching
/// samples for any hour before the deadline (judged here, on the sample
/// basis of the cache), reports the static fallback, saying why.
/// Otherwise reports the historical-pattern decision that the caller
/// computed from those samples (`forecast`; `None` when no hour gave a
/// usable mean, which also falls back), flagged STALE when the region's
/// newest cached sample is older than the cache age bound, whatever the
/// file's own `generated_at`. Every report records the default 5 percent
/// materiality threshold.
pub fn assemble(
    region: Option<Region>,
    command: Vec<String>,
    duration: i128,
    deadline: i128,
    deadline_offset: i32,
    now: i128,
    cache: CacheState,
    weeks: u32,
    forecast: Option<ForecastPath>,
    baseline: Intensity,
) -> (r: Result<RunReport, String>)
    requires
        valid_instant(now as int),
        valid_zoned(deadline as int, deadline_offset as int),
        cache matches CacheState::Present(c) ==> obs_times_valid(&c),
    ensures
        region is None ==> (r matches Err(e) && e@ == no_region_text()),
        region matches Some(reg) ==> ({
            let job = crate::decision::JobSpec { command, estimated_duration: duration, deadline, region: reg };
            match crate::decision::job_problem(job, now as int) {
                Some(m) => r matches Err(e) && e@ == "invalid job: "@ + "invalid job spec: "@ + m,
                None => r matches Ok(rep) && rep.region == reg && rep.deadline == deadline
                    && rep.deadline_offset == deadline_offset
                    && rep.estimated_duration == duration && rep.submitted_at == now
                    && rep.command@ == command@[0]@ && views(rep.args@) == views(command@.skip(1))
                    && rep.started_at is None && rep.finished_at is None
                    && rep.wall_duration is None && rep.exit_code is None
                    && rep.materiality_threshold_pct.bits == DEFAULT_MATERIALITY_BITS
                    && match cache {
                    CacheState::Present(c) => if !has_matching_samples(&c, reg, now, deadline, weeks) {
                        static_fallback_shape(rep, no_samples_text(reg, weeks as nat), baseline, default_percent())
                    } else {
                        match forecast {
                        None => static_fallback_shape(rep, no_samples_text(reg, weeks as nat), baseline, default_percent()),
                        Some(fp) => {
                            let nw = newest_or(&c, reg, now);
                            &&& rep.data_freshness == (DataFreshness::HistoricalCacheOnly {
                                newest_sample_at: nw,
                            })
                            &&& rep.decision == fp.decision
                            &&& rep.methodology_version@ == crate::forecast::methodology_text(weeks as nat)
                            &&& rep.run_now_estimate == fp.run_now_estimate
                            &&& rep.selected_window_estimate == fp.selected_window_estimate
                            &&& rep.estimated_improvement_pct == fp.improvement
                            &&& rep.provider.name@ == "eia-egrid-historical-pattern"@
                            &&& rep.provider.capabilities@ == seq![ProviderCapability::HistoricalHourly]
                            &&& views(rep.warnings@) == forecast_warning_texts(
                                now - nw > crate::cache::DEFAULT_MAX_CACHE_AGE,
                                reg,
                                MAX_AGE_HOURS as nat,
                                fp.decision,
                            )
                        },
                        }
                    },
                    _ => static_fallback_shape(rep, fallback_reason_text(cache)->0, baseline, default_percent()),
                },
            }
        }),
{
    let reg = match region {
        Some(r) => r,
        None => {
            return Err(String::from_str(
                "no --region given and automatic region detection is not implemented yet; pass one of: CAISO, ERCOT, MISO, PJM, NYISO, ISONE, SPP",
            ));
        },
    };
    let job = crate::decision::JobSpec { command, estimated_duration: duration, deadline, region: reg };
    match job.validate(now) {
        Ok(()) => {},
        Err(e) => {
            let mut m = String::from_str("invalid job: ");
            push_str(&mut m, e.message().as_str());
            return Err(m);
        },
    }
    let mut words = job.command;
    let program = words.remove(0);
    let args = words;
    let ghost argv = views(args@);
    let threshold = default_materiality();
    match cache {
        CacheState::Present(c) => {
            let basis = crate::forecast::forecast_basis(&c, reg, now, deadline - now, now, weeks);
            let samples = match &basis {
                Some(b) => b.hours.len() > 0,
                None => false,
            };
            let path = if samples {
                forecast
            } else {
                None
            };
            match path {
                None => {
                    let reason = no_samples_reason(reg, weeks);
                    let rep = static_report(
                        program,
                        args,
                        reg,
                        deadline,
                        deadline_offset,
                        duration,
                        now,
                        base_warnings(),
                        Some(reason),
                        baseline,
                        threshold,
                        crate::static_table::StaticTableProvider::baseline_confidence(),
                    );
                    Ok(rep)
                },
                Some(fp) => {
                    let newest_at = match c.newest_sample(reg) {
                        Some(t) => t,
                        None => now,
                    };
                    let stale = now - newest_at > crate::cache::DEFAULT_MAX_CACHE_AGE;
                    let warnings = forecast_warnings(stale, reg, MAX_AGE_HOURS, &fp.decision);
                    Ok(
                        RunReport {
                            command: program,
                            args,
                            region: reg,
                            deadline,
                            deadline_offset,
                            estimated_duration: duration,
                            decision: fp.decision,
                            run_now_estimate: fp.run_now_estimate,
                            selected_window_estimate: fp.selected_window_estimate,
                            estimated_improvement_pct: fp.improvement,
                            materiality_threshold_pct: threshold,
                            provider: eia_provider_info(),
                            data_freshness: DataFreshness::HistoricalCacheOnly {
                                newest_sample_at: newest_at,
                            },
                            methodology_version: crate::forecast::methodology_label(weeks),
                            warnings,
                            submitted_at: now,
                            started_at: None,
                            finished_at: None,
                            wall_duration: None,
                            exit_code: None,
                        },
                    )
                },
            }
        },
        _ => {
            let reason = fallback_reason(&cache);
            Ok(
                static_report(
                    program,
                    args,
                    reg,
                    deadline,
                    deadline_offset,
                    duration,
                    now,
                    base_warnings(),
                    reason,
                    baseline,
                    threshold,
                    crate::static_table::StaticTableProvider::baseline_confidence(),
                ),
            )
        },
    }
}
} // verus!
