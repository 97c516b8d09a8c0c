//! Aggregation over archived run reports: how often nami deferred, ran
//! immediately or refused, with the confidence, region and refusal
//! breakdowns, and its terminal rendering.

use vstd::prelude::*;

use crate::confidence::{rank, ConfidenceLevel};
use crate::decision::{RefuseReason, SchedulingDecision};
use crate::fuel_mix::{eia_date_of, parse_eia_date};
use crate::instant::{valid_duration, NANOS_PER_DAY};
use crate::region::{region_code, Region};
use crate::run_report::{dur_text, push_dur, refuse_label, refuse_reason_name, Percent, RunReport};
use crate::text::{decimal, push_decimal, push_str};
use vstd::string::StringExecFns;

verus! {

/// Position of a region's code in alphabetical order (the order in which
/// per-region counts are listed).
pub open spec fn code_rank(r: Region) -> int {
    match r {
        Region::Caiso => 0,
        Region::Ercot => 1,
        Region::IsoNe => 2,
        Region::Miso => 3,
        Region::Nyiso => 4,
        Region::Pjm => 5,
        Region::Spp => 6,
    }
}

/// The region at an alphabetical position.
pub open spec fn region_at_rank(k: int) -> Region {
    if k == 0 {
        Region::Caiso
    } else if k == 1 {
        Region::Ercot
    } else if k == 2 {
        Region::IsoNe
    } else if k == 3 {
        Region::Miso
    } else if k == 4 {
        Region::Nyiso
    } else if k == 5 {
        Region::Pjm
    } else {
        Region::Spp
    }
}

pub(crate) fn code_rank_exec(r: Region) -> (k: usize)
    ensures
        k == code_rank(r),
{
    match r {
        Region::Caiso => 0,
        Region::Ercot => 1,
        Region::IsoNe => 2,
        Region::Miso => 3,
        Region::Nyiso => 4,
        Region::Pjm => 5,
        Region::Spp => 6,
    }
}

/// The region listed at position `k` (alphabetical order of codes).
pub fn region_at_rank_exec(k: usize) -> (r: Region)
    requires
        k < 7,
    ensures
        r == region_at_rank(k as int),
        code_rank(r) == k,
{
    if k == 0 {
        Region::Caiso
    } else if k == 1 {
        Region::Ercot
    } else if k == 2 {
        Region::IsoNe
    } else if k == 3 {
        Region::Miso
    } else if k == 4 {
        Region::Nyiso
    } else if k == 5 {
        Region::Pjm
    } else {
        Region::Spp
    }
}

/// Position of a refusal reason's label in alphabetical order.
pub open spec fn reason_rank(r: RefuseReason) -> int {
    match r {
        RefuseReason::CandidateWindowsBelowMaterialityThreshold => 0,
        RefuseReason::ForecastTooUncertain => 1,
        RefuseReason::InsufficientSamples => 2,
        RefuseReason::MissingHistoricalData => 3,
        RefuseReason::NoWindowBeforeDeadline => 4,
        RefuseReason::ProviderUnavailable => 5,
        RefuseReason::StaleHistoricalCache => 6,
        RefuseReason::UnsupportedRegion => 7,
    }
}

/// The refusal reason at an alphabetical position.
pub open spec fn reason_at_rank(k: int) -> RefuseReason {
    if k == 0 {
        RefuseReason::CandidateWindowsBelowMaterialityThreshold
    } else if k == 1 {
        RefuseReason::ForecastTooUncertain
    } else if k == 2 {
        RefuseReason::InsufficientSamples
    } else if k == 3 {
        RefuseReason::MissingHistoricalData
    } else if k == 4 {
        RefuseReason::NoWindowBeforeDeadline
    } else if k == 5 {
        RefuseReason::ProviderUnavailable
    } else if k == 6 {
        RefuseReason::StaleHistoricalCache
    } else {
        RefuseReason::UnsupportedRegion
    }
}

fn reason_rank_exec(r: RefuseReason) -> (k: usize)
    ensures
        k == reason_rank(r),
{
    match r {
        RefuseReason::CandidateWindowsBelowMaterialityThreshold => 0,
        RefuseReason::ForecastTooUncertain => 1,
        RefuseReason::InsufficientSamples => 2,
        RefuseReason::MissingHistoricalData => 3,
        RefuseReason::NoWindowBeforeDeadline => 4,
        RefuseReason::ProviderUnavailable => 5,
        RefuseReason::StaleHistoricalCache => 6,
        RefuseReason::UnsupportedRegion => 7,
    }
}

/// The refusal reason listed at position `k` (alphabetical order of labels).
pub fn reason_at_rank_exec(k: usize) -> (r: RefuseReason)
    requires
        k < 8,
    ensures
        r == reason_at_rank(k as int),
{
    if k == 0 {
        RefuseReason::CandidateWindowsBelowMaterialityThreshold
    } else if k == 1 {
        RefuseReason::ForecastTooUncertain
    } else if k == 2 {
        RefuseReason::InsufficientSamples
    } else if k == 3 {
        RefuseReason::MissingHistoricalData
    } else if k == 4 {
        RefuseReason::NoWindowBeforeDeadline
    } else if k == 5 {
        RefuseReason::ProviderUnavailable
    } else if k == 6 {
        RefuseReason::StaleHistoricalCache
    } else {
        RefuseReason::UnsupportedRegion
    }
}

/// The UTC midnight that starts the day of `t`.
pub open spec fn day_start(t: int) -> int {
    t - t % (NANOS_PER_DAY as int)
}

proof fn lemma_day_compare(d: int, w: int)
    requires
        d % (NANOS_PER_DAY as int) == 0,
    ensures
        (d >= day_start(w)) <==> (d + NANOS_PER_DAY > w),
{
    let k = NANOS_PER_DAY as int;
    vstd::arithmetic::div_mod::lemma_fundamental_div_mod(d, k);
    vstd::arithmetic::div_mod::lemma_fundamental_div_mod(w, k);
    let qd = d / k;
    let qw = w / k;
    assert(d == k * qd);
    assert(w == k * qw + w % k);
    assert(0 <= w % k < k);
    if qd >= qw {
        assert(k * qd >= k * qw) by (nonlinear_arith)
            requires qd >= qw, k > 0;
    } else {
        assert(k * qd + k <= k * qw) by (nonlinear_arith)
            requires qd < qw, k > 0;
    }
}

/// Whether a reports subdirectory named `name` holds a day on or after
/// the (UTC) day of `window_start`. The name must read as a
/// `[year]-[month]-[day]` date; anything else lies outside the window.
pub fn is_in_window(name: &str, window_start: i128) -> (r: bool)
    ensures
        r == match eia_date_of(name@) {
            Ok(d) => d >= day_start(window_start as int),
            Err(_) => false,
        },
{
    match parse_eia_date(name) {
        Ok(d) => {
            proof {
                lemma_day_compare(d as int, window_start as int);
            }
            d + NANOS_PER_DAY > window_start
        },
        Err(_) => false,
    }
}

/// An `f64` bit pattern holds a finite number (its exponent is not all
/// ones).
pub open spec fn finite_bits(b: u64) -> bool {
    (b / 0x10_0000_0000_0000) % 0x800 != 0x7ff
}

/// Decisions per confidence level, `High` first: all four levels, zero.
pub fn empty_confidence_buckets() -> (b: [usize; 4])
    ensures
        b@ == seq![0usize, 0usize, 0usize, 0usize],
{
    [0, 0, 0, 0]
}

/// Count one more decision at `level`.
pub fn bump_confidence(buckets: &mut [usize; 4], level: ConfidenceLevel)
    requires
        old(buckets)@[rank(level)] < usize::MAX,
    ensures
        final(buckets)@ == old(buckets)@.update(rank(level), (old(buckets)@[rank(level)] + 1) as usize),
{
    let k: usize = match level {
        ConfidenceLevel::High => 0,
        ConfidenceLevel::Medium => 1,
        ConfidenceLevel::Low => 2,
        ConfidenceLevel::VeryLow => 3,
    };
    buckets.set(k, buckets[k] + 1);
}

/// What the aggregation counts.
#[derive(Debug)]
pub struct Summary {
    /// Directory the reports were read from.
    pub reports_dir: String,
    /// Start of the window (UTC nanoseconds, inclusive).
    pub window_start: i128,
    /// End of the window (inclusive).
    pub window_end: i128,
    /// Only this region's reports, when set.
    pub region_filter: Option<Region>,
    /// Reports counted.
    pub total: usize,
    /// Deferred decisions.
    pub deferred: usize,
    /// Immediate starts.
    pub run_immediately: usize,
    /// Refusals.
    pub refused: usize,
    /// Finite improvements of the deferred decisions, in report order.
    pub improvement_pcts: Vec<Percent>,
    /// Non-refused decisions per confidence level, `High` first.
    pub confidence: [usize; 4],
    /// Reports per region, regions in alphabetical order of their codes.
    pub regions: [usize; 7],
    /// Refusals per reason, reasons in alphabetical order of their labels.
    pub refusal_reasons: [usize; 8],
    /// Files that could not be read or parsed.
    pub skipped_files: usize,
}

/// The counts of a summary, as mathematical values.
pub struct Tally {
    pub total: nat,
    pub deferred: nat,
    pub run_immediately: nat,
    pub refused: nat,
    pub improvements: Seq<Percent>,
    pub confidence: Seq<nat>,
    pub regions: Seq<nat>,
    pub reasons: Seq<nat>,
}

/// A report counts: inside the window and, with a filter, in its region.
pub open spec fn counted(r: RunReport, ws: int, we: int, filter: Option<Region>) -> bool {
    ws <= r.submitted_at <= we && (filter matches Some(f) ==> r.region == f)
}

/// All counts zero.
pub open spec fn empty_tally() -> Tally {
    Tally {
        total: 0,
        deferred: 0,
        run_immediately: 0,
        refused: 0,
        improvements: seq![],
        confidence: seq![0nat, 0nat, 0nat, 0nat],
        regions: seq![0nat, 0nat, 0nat, 0nat, 0nat, 0nat, 0nat],
        reasons: seq![0nat, 0nat, 0nat, 0nat, 0nat, 0nat, 0nat, 0nat],
    }
}

/// One more at position `k`.
pub open spec fn bump(s: Seq<nat>, k: int) -> Seq<nat> {
    s.update(k, s[k] + 1)
}

/// Count one report into a tally.
pub open spec fn count_one(t: Tally, r: RunReport) -> Tally {
    let t1 = Tally { total: t.total + 1, regions: bump(t.regions, code_rank(r.region)), ..t };
    match r.decision {
        SchedulingDecision::StartAt { confidence, .. } => Tally {
            deferred: t1.deferred + 1,
            confidence: bump(t1.confidence, rank(confidence.level)),
            improvements: match r.estimated_improvement_pct {
                Some(p) => if finite_bits(p.bits) {
                    t1.improvements.push(p)
                } else {
                    t1.improvements
                },
                None => t1.improvements,
            },
            ..t1
        },
        SchedulingDecision::StartImmediately { confidence, .. } => Tally {
            run_immediately: t1.run_immediately + 1,
            confidence: bump(t1.confidence, rank(confidence.level)),
            ..t1
        },
        SchedulingDecision::Refuse { reason } => Tally {
            refused: t1.refused + 1,
            reasons: bump(t1.reasons, reason_rank(reason)),
            ..t1
        },
    }
}

/// The tally of the counted reports, in order.
pub open spec fn tally(rs: Seq<RunReport>, ws: int, we: int, filter: Option<Region>) -> Tally
    decreases rs.len(),
{
    if rs.len() == 0 {
        empty_tally()
    } else {
        let t = tally(rs.drop_last(), ws, we, filter);
        if counted(rs.last(), ws, we, filter) {
            count_one(t, rs.last())
        } else {
            t
        }
    }
}

/// No count of a tally exceeds the number of reports behind it.
proof fn lemma_tally_bounds(rs: Seq<RunReport>, ws: int, we: int, filter: Option<Region>)
    ensures
        ({
            let t = tally(rs, ws, we, filter);
            &&& t.total <= rs.len()
            &&& t.deferred + t.run_immediately + t.refused == t.total
            &&& t.confidence.len() == 4
            &&& t.regions.len() == 7
            &&& t.reasons.len() == 8
            &&& forall|k: int| 0 <= k < 4 ==> #[trigger] t.confidence[k] <= t.total
            &&& forall|k: int| 0 <= k < 7 ==> #[trigger] t.regions[k] <= t.total
            &&& forall|k: int| 0 <= k < 8 ==> #[trigger] t.reasons[k] <= t.total
            &&& t.improvements.len() <= t.total
        }),
    decreases rs.len(),
{
    if rs.len() > 0 {
        lemma_tally_bounds(rs.drop_last(), ws, we, filter);
    }
}

/// Counts as natural numbers.
pub open spec fn nats(a: Seq<usize>) -> Seq<nat> {
    a.map_values(|x: usize| x as nat)
}

/// The counts of a summary agree with a tally.
pub open spec fn summary_matches(s: Summary, t: Tally) -> bool {
    &&& s.total == t.total
    &&& s.deferred == t.deferred
    &&& s.run_immediately == t.run_immediately
    &&& s.refused == t.refused
    &&& s.improvement_pcts@ == t.improvements
    &&& nats(s.confidence@) == t.confidence
    &&& nats(s.regions@) == t.regions
    &&& nats(s.refusal_reasons@) == t.reasons
}

/// Aggregate the reports submitted in `[window_start, window_end]` (and,
/// with a filter, in that region).
pub fn summarize(
    reports: &Vec<RunReport>,
    window_start: i128,
    window_end: i128,
    region_filter: Option<Region>,
    reports_dir: String,
    skipped_files: usize,
) -> (s: Summary)
    ensures
        summary_matches(s, tally(reports@, window_start as int, window_end as int, region_filter)),
        s.reports_dir == reports_dir,
        s.window_start == window_start,
        s.window_end == window_end,
        s.region_filter == region_filter,
        s.skipped_files == skipped_files,
{
    let ghost ws = window_start as int;
    let ghost we = window_end as int;
    let mut total: usize = 0;
    let mut deferred: usize = 0;
    let mut run_immediately: usize = 0;
    let mut refused: usize = 0;
    let mut improvement_pcts: Vec<Percent> = Vec::new();
    let mut confidence = empty_confidence_buckets();
    let mut regions: [usize; 7] = [0, 0, 0, 0, 0, 0, 0];
    let mut refusal_reasons: [usize; 8] = [0, 0, 0, 0, 0, 0, 0, 0];
    let mut i: usize = 0;
    while i < reports.len()
        invariant
            i <= reports@.len(),
            ws == window_start as int,
            we == window_end as int,
            total == tally(reports@.take(i as int), ws, we, region_filter).total,
            deferred == tally(reports@.take(i as int), ws, we, region_filter).deferred,
            run_immediately == tally(reports@.take(i as int), ws, we, region_filter).run_immediately,
            refused == tally(reports@.take(i as int), ws, we, region_filter).refused,
            improvement_pcts@ == tally(reports@.take(i as int), ws, we, region_filter).improvements,
            tally(reports@.take(i as int), ws, we, region_filter).confidence.len() == 4,
            tally(reports@.take(i as int), ws, we, region_filter).regions.len() == 7,
            tally(reports@.take(i as int), ws, we, region_filter).reasons.len() == 8,
            forall|k: int|
                0 <= k < 4 ==> confidence@[k] == #[trigger] tally(
                    reports@.take(i as int),
                    ws,
                    we,
                    region_filter,
                ).confidence[k],
            forall|k: int|
                0 <= k < 7 ==> regions@[k] == #[trigger] tally(
                    reports@.take(i as int),
                    ws,
                    we,
                    region_filter,
                ).regions[k],
            forall|k: int|
                0 <= k < 8 ==> refusal_reasons@[k] == #[trigger] tally(
                    reports@.take(i as int),
                    ws,
                    we,
                    region_filter,
                ).reasons[k],
        decreases reports@.len() - i,
    {
        let ghost prefix = reports@.take(i as int);
        let ghost t0 = tally(prefix, ws, we, region_filter);
        proof {
            lemma_tally_bounds(prefix, ws, we, region_filter);
            assert(reports@.take(i + 1).drop_last() =~= prefix);
            assert(reports@.take(i + 1).last() == reports@[i as int]);
        }
        let r = &reports[i];
        let inside = window_start <= r.submitted_at && r.submitted_at <= window_end;
        let wanted = match region_filter {
            Some(f) => r.region == f,
            None => true,
        };
        if inside && wanted {
            total = total + 1;
            let k = code_rank_exec(r.region);
            proof {
                assert(t0.regions[k as int] <= t0.total);
            }
            regions.set(k, regions[k] + 1);
            match &r.decision {
                SchedulingDecision::StartAt { confidence: c, .. } => {
                    proof {
                        assert(t0.confidence[rank(c.level)] <= t0.total);
                    }
                    deferred = deferred + 1;
                    bump_confidence(&mut confidence, c.level);
                    match r.estimated_improvement_pct {
                        Some(p) => {
                            if (p.bits / 0x10_0000_0000_0000) % 0x800 != 0x7ff {
                                improvement_pcts.push(p);
                            }
                        },
                        None => {},
                    }
                },
                SchedulingDecision::StartImmediately { confidence: c, .. } => {
                    proof {
                        assert(t0.confidence[rank(c.level)] <= t0.total);
                    }
                    run_immediately = run_immediately + 1;
                    bump_confidence(&mut confidence, c.level);
                },
                SchedulingDecision::Refuse { reason } => {
                    refused = refused + 1;
                    let q = reason_rank_exec(*reason);
                    proof {
                        assert(t0.reasons[q as int] <= t0.total);
                    }
                    refusal_reasons.set(q, refusal_reasons[q] + 1);
                },
            }
        }
        proof {
            let t1 = tally(reports@.take(i + 1), ws, we, region_filter);
            assert(inside && wanted <==> counted(*r, ws, we, region_filter));
            assert(t1 == if counted(*r, ws, we, region_filter) {
                count_one(t0, *r)
            } else {
                t0
            });
        }
        i = i + 1;
    }
    proof {
        assert(reports@.take(i as int) =~= reports@);
        let t = tally(reports@, ws, we, region_filter);
        assert(nats(confidence@) =~= t.confidence);
        assert(nats(regions@) =~= t.regions);
        assert(nats(refusal_reasons@) =~= t.reasons);
    }
    Summary {
        reports_dir,
        window_start,
        window_end,
        region_filter,
        total,
        deferred,
        run_immediately,
        refused,
        improvement_pcts,
        confidence,
        regions,
        refusal_reasons,
        skipped_files,
    }
}


/// The improvement statistics of a summary as text (one decimal each),
/// computed by the caller from `improvement_pcts`.
#[derive(Debug)]
pub struct ImprovementFigures {
    /// Mean improvement.
    pub mean: String,
    /// Median improvement.
    pub median: String,
    /// Smallest improvement.
    pub min: String,
    /// Largest improvement.
    pub max: String,
}

/// `CODE (n)` for each region with reports, ranks below `k`, in order.
pub open spec fn region_items(c: Seq<usize>, k: int) -> Seq<Seq<char>>
    decreases k,
{
    if k <= 0 {
        seq![]
    } else {
        let rest = region_items(c, k - 1);
        if c[k - 1] > 0 {
            rest.push(region_code(region_at_rank(k - 1)) + " ("@ + decimal(c[k - 1] as nat) + ")"@)
        } else {
            rest
        }
    }
}

/// The strings joined with `, `.
pub open spec fn comma_joined(v: Seq<Seq<char>>) -> Seq<char>
    decreases v.len(),
{
    if v.len() == 0 {
        Seq::empty()
    } else if v.len() == 1 {
        v[0]
    } else {
        comma_joined(v.drop_last()) + ", "@ + v.last()
    }
}

/// `  LABEL: n` lines for each refusal reason counted, ranks below `k`.
pub open spec fn reason_lines(c: Seq<usize>, k: int) -> Seq<char>
    decreases k,
{
    if k <= 0 {
        Seq::empty()
    } else {
        reason_lines(c, k - 1) + if c[k - 1] > 0 {
            "  "@ + refuse_reason_name(reason_at_rank(k - 1)) + ": "@ + decimal(c[k - 1] as nat)
                + "\n"@
        } else {
            Seq::empty()
        }
    }
}

/// Some count is nonzero.
pub open spec fn any_nonzero(c: Seq<usize>) -> bool {
    exists|k: int| 0 <= k < c.len() && c[k] > 0
}

/// The terminal rendering of a summary over the last `since`.
pub open spec fn summary_render_text(s: Summary, since: int, f: ImprovementFigures) -> Seq<char> {
    "nami report summary — "@ + decimal(s.total as nat) + " run(s) in the last "@ + dur_text(since)
        + (match s.region_filter {
        Some(r) => " — region "@ + region_code(r),
        None => Seq::empty(),
    }) + "\n"@ + "                     (from "@ + s.reports_dir@ + ")\n\n"@ + "Decisions:\n"@
        + "  start-at (deferred)    : "@ + decimal(s.deferred as nat) + "\n"@
        + "  start-immediately      : "@ + decimal(s.run_immediately as nat) + "\n"@
        + "  refused                : "@ + decimal(s.refused as nat) + "\n\n"@ + (
    if s.improvement_pcts@.len() > 0 {
        "When deferred, estimated improvement:\n"@ + "  mean   : "@ + f.mean@ + "%\n"@
            + "  median : "@ + f.median@ + "%\n"@ + "  range  : "@ + f.min@ + "% — "@ + f.max@
            + "%\n\n"@
    } else {
        Seq::empty()
    }) + "Confidence distribution:\n"@ + "  High     : "@ + decimal(s.confidence@[0] as nat)
        + "\n"@ + "  Medium   : "@ + decimal(s.confidence@[1] as nat) + "\n"@ + "  Low      : "@
        + decimal(s.confidence@[2] as nat) + "\n"@ + "  VeryLow  : "@ + decimal(
        s.confidence@[3] as nat,
    ) + "\n"@ + "\n"@ + (if s.region_filter is None && any_nonzero(s.regions@) {
        "Regions: "@ + comma_joined(region_items(s.regions@, 7)) + "\n"@
    } else {
        Seq::empty()
    }) + (if any_nonzero(s.refusal_reasons@) {
        "\nRefusal reasons ("@ + decimal(s.refused as nat) + "):\n"@ + reason_lines(
            s.refusal_reasons@,
            8,
        )
    } else {
        Seq::empty()
    }) + (if s.skipped_files > 0 {
        "\nSkipped "@ + decimal(s.skipped_files as nat) + " unparseable file(s).\n"@
    } else {
        Seq::empty()
    })
}

fn regions_part(s: &Summary) -> (t: String)
    ensures
        t@ == (if s.region_filter is None && any_nonzero(s.regions@) {
            "Regions: "@ + comma_joined(region_items(s.regions@, 7)) + "\n"@
        } else {
            Seq::empty()
        }),
{
    let mut any = false;
    let mut items = String::new();
    let ghost c = s.regions@;
    let mut k: usize = 0;
    while k < 7
        invariant
            k <= 7,
            c == s.regions@,
            c.len() == 7,
            items@ == comma_joined(region_items(c, k as int)),
            any == (exists|j: int| 0 <= j < k && c[j] > 0),
            any == (region_items(c, k as int).len() > 0),
        decreases 7 - k,
    {
        let n = s.regions[k];
        if n > 0 {
            if any {
                push_str(&mut items, ", ");
            }
            push_str(&mut items, region_at_rank_exec(k).as_code());
            push_str(&mut items, " (");
            push_decimal(&mut items, n as u128);
            push_str(&mut items, ")");
            proof {
                let prev = region_items(c, k as int);
                let item = region_code(region_at_rank(k as int)) + " ("@ + decimal(n as nat) + ")"@;
                assert(region_items(c, k + 1) == prev.push(item));
                assert(prev.push(item).drop_last() =~= prev);
                if prev.len() == 0 {
                    assert(prev.push(item) =~= seq![item]);
                }
                assert(items@ =~= comma_joined(prev.push(item)));
            }
            any = true;
        }
        k = k + 1;
    }
    if s.region_filter.is_none() && any {
        let mut t = String::from_str("Regions: ");
        push_str(&mut t, items.as_str());
        push_str(&mut t, "\n");
        t
    } else {
        String::new()
    }
}

fn reasons_part(s: &Summary) -> (t: String)
    ensures
        t@ == (if any_nonzero(s.refusal_reasons@) {
            "\nRefusal reasons ("@ + decimal(s.refused as nat) + "):\n"@ + reason_lines(
                s.refusal_reasons@,
                8,
            )
        } else {
            Seq::empty()
        }),
{
    let mut any = false;
    let mut body = String::new();
    let ghost c = s.refusal_reasons@;
    let mut k: usize = 0;
    while k < 8
        invariant
            k <= 8,
            c == s.refusal_reasons@,
            c.len() == 8,
            body@ == reason_lines(c, k as int),
            any == (exists|j: int| 0 <= j < k && c[j] > 0),
        decreases 8 - k,
    {
        let n = s.refusal_reasons[k];
        let ghost prev = body@;
        if n > 0 {
            push_str(&mut body, "  ");
            push_str(&mut body, refuse_label(reason_at_rank_exec(k)));
            push_str(&mut body, ": ");
            push_decimal(&mut body, n as u128);
            push_str(&mut body, "\n");
            any = true;
        }
        assert(body@ =~= reason_lines(c, k + 1));
        k = k + 1;
    }
    if any {
        let mut t = String::from_str("\nRefusal reasons (");
        push_decimal(&mut t, s.refused as u128);
        push_str(&mut t, "):\n");
        push_str(&mut t, body.as_str());
        t
    } else {
        String::new()
    }
}

fn improvement_part(s: &Summary, f: &ImprovementFigures) -> (t: String)
    ensures
        t@ == (if s.improvement_pcts@.len() > 0 {
            "When deferred, estimated improvement:\n"@ + "  mean   : "@ + f.mean@ + "%\n"@
                + "  median : "@ + f.median@ + "%\n"@ + "  range  : "@ + f.min@ + "% — "@ + f.max@
                + "%\n\n"@
        } else {
            Seq::empty()
        }),
{
    if s.improvement_pcts.len() > 0 {
        let mut t = String::from_str("When deferred, estimated improvement:\n");
        push_str(&mut t, "  mean   : ");
        push_str(&mut t, f.mean.as_str());
        push_str(&mut t, "%\n");
        push_str(&mut t, "  median : ");
        push_str(&mut t, f.median.as_str());
        push_str(&mut t, "%\n");
        push_str(&mut t, "  range  : ");
        push_str(&mut t, f.min.as_str());
        push_str(&mut t, "% — ");
        push_str(&mut t, f.max.as_str());
        push_str(&mut t, "%\n\n");
        t
    } else {
        String::new()
    }
}

/// Render a summary over the last `since` (nanoseconds); `f` holds the
/// improvement statistics as text.
pub fn render(s: &Summary, since: i128, f: &ImprovementFigures) -> (out: String)
    requires
        valid_duration(since as int),
    ensures
        out@ == summary_render_text(*s, since as int, *f),
{
    let clause = match s.region_filter {
        Some(r) => {
            let mut t = String::from_str(" — region ");
            push_str(&mut t, r.as_code());
            t
        },
        None => String::new(),
    };
    let mut out = String::from_str("nami report summary — ");
    push_decimal(&mut out, s.total as u128);
    push_str(&mut out, " run(s) in the last ");
    push_dur(&mut out, since);
    push_str(&mut out, clause.as_str());
    push_str(&mut out, "\n");
    push_str(&mut out, "                     (from ");
    push_str(&mut out, s.reports_dir.as_str());
    push_str(&mut out, ")\n\n");
    push_str(&mut out, "Decisions:\n");
    push_str(&mut out, "  start-at (deferred)    : ");
    push_decimal(&mut out, s.deferred as u128);
    push_str(&mut out, "\n");
    push_str(&mut out, "  start-immediately      : ");
    push_decimal(&mut out, s.run_immediately as u128);
    push_str(&mut out, "\n");
    push_str(&mut out, "  refused                : ");
    push_decimal(&mut out, s.refused as u128);
    push_str(&mut out, "\n\n");
    push_str(&mut out, improvement_part(s, f).as_str());
    push_str(&mut out, "Confidence distribution:\n");
    push_str(&mut out, "  High     : ");
    push_decimal(&mut out, s.confidence[0] as u128);
    push_str(&mut out, "\n");
    push_str(&mut out, "  Medium   : ");
    push_decimal(&mut out, s.confidence[1] as u128);
    push_str(&mut out, "\n");
    push_str(&mut out, "  Low      : ");
    push_decimal(&mut out, s.confidence[2] as u128);
    push_str(&mut out, "\n");
    push_str(&mut out, "  VeryLow  : ");
    push_decimal(&mut out, s.confidence[3] as u128);
    push_str(&mut out, "\n");
    push_str(&mut out, "\n");
    push_str(&mut out, regions_part(s).as_str());
    push_str(&mut out, reasons_part(s).as_str());
    if s.skipped_files > 0 {
        push_str(&mut out, "\nSkipped ");
        push_decimal(&mut out, s.skipped_files as u128);
        push_str(&mut out, " unparseable file(s).\n");
    } else {
        assert(out@ + Seq::<char>::empty() =~= out@);
    }
    out
}
} // verus!
