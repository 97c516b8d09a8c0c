//! Confidence levels, data freshness, and the worst-of-axes grading rule.

use vstd::prelude::*;

use crate::text::{views, decimal, push_decimal, push_str};
use vstd::string::StringExecFns;

verus! {

/// Qualitative confidence, from most to least trustworthy.
#[derive(Debug, Clone, Copy, PartialEq, Eq, PartialOrd, Ord, Hash, Structural)]
pub enum ConfidenceLevel {
    /// Plenty of recent samples, low variance, fresh data.
    High,
    /// Adequate samples; some staleness or moderate variance.
    Medium,
    /// Sparse samples, large variance, or far-horizon estimate.
    Low,
    /// Almost no usable data.
    VeryLow,
}

/// Position of a level, `High` = 0 through `VeryLow` = 3; larger is more
/// conservative.
pub open spec fn rank(l: ConfidenceLevel) -> int {
    match l {
        ConfidenceLevel::High => 0,
        ConfidenceLevel::Medium => 1,
        ConfidenceLevel::Low => 2,
        ConfidenceLevel::VeryLow => 3,
    }
}

/// The variant name of a level.
pub open spec fn level_name(l: ConfidenceLevel) -> Seq<char> {
    match l {
        ConfidenceLevel::High => "High"@,
        ConfidenceLevel::Medium => "Medium"@,
        ConfidenceLevel::Low => "Low"@,
        ConfidenceLevel::VeryLow => "VeryLow"@,
    }
}

/// The more conservative of two levels.
pub open spec fn worse(a: ConfidenceLevel, b: ConfidenceLevel) -> ConfidenceLevel {
    if rank(a) >= rank(b) {
        a
    } else {
        b
    }
}

/// The more conservative of two levels.
pub fn most_conservative(a: ConfidenceLevel, b: ConfidenceLevel) -> (r: ConfidenceLevel)
    ensures
        r == worse(a, b),
        rank(r) >= rank(a),
        rank(r) >= rank(b),
{
    let ra: u8 = level_rank(a);
    let rb: u8 = level_rank(b);
    if ra >= rb {
        a
    } else {
        b
    }
}

/// The rank of a level as a number.
pub fn level_rank(l: ConfidenceLevel) -> (r: u8)
    ensures
        r == rank(l),
{
    match l {
        ConfidenceLevel::High => 0,
        ConfidenceLevel::Medium => 1,
        ConfidenceLevel::Low => 2,
        ConfidenceLevel::VeryLow => 3,
    }
}

/// The variant name of a level (`High`, `Medium`, `Low`, `VeryLow`).
pub fn level_label(l: ConfidenceLevel) -> (s: &'static str)
    ensures
        s@ == level_name(l),
{
    match l {
        ConfidenceLevel::High => "High",
        ConfidenceLevel::Medium => "Medium",
        ConfidenceLevel::Low => "Low",
        ConfidenceLevel::VeryLow => "VeryLow",
    }
}

/// Where the data behind a decision came from.
#[derive(Debug, Clone, PartialEq, Eq, Structural)]
pub enum DataFreshness {
    /// Live observed data within expected lag.
    FreshObserved,
    /// Observed data older than expected; the lag in whole seconds.
    StaleObserved { lag_seconds: i64 },
    /// Only the historical cache; its newest sample (UTC nanoseconds).
    HistoricalCacheOnly { newest_sample_at: i128 },
    /// Only the static fallback table.
    StaticFallbackOnly,
    /// No usable data at all.
    NoUsableData,
}

/// Temporal resolution of a provider's data.
#[derive(Debug, Clone, Copy, PartialEq, Eq, Structural)]
pub enum DataGranularity {
    /// Sub-hourly samples with the given period in seconds.
    SubHourly { period_seconds: u32 },
    /// Hourly samples.
    Hourly,
    /// Daily samples.
    Daily,
    /// Annual averages.
    Annual,
}

/// Whether an intensity is marginal or average.
#[derive(Debug, Clone, Copy, PartialEq, Eq, Hash, Structural)]
pub enum IntensityKind {
    /// Emissions per additional kWh of demand.
    Marginal,
    /// Mean emissions per kWh across all generators.
    Average,
}

/// Confidence in one estimate: the level plus the evidence behind it.
#[derive(Debug, Clone, PartialEq)]
pub struct Confidence {
    /// Qualitative level.
    pub level: ConfidenceLevel,
    /// Number of historical samples that contributed.
    pub sample_count: usize,
    /// Notes explaining why this level was assigned.
    pub notes: Vec<String>,
}

/// Sample-count axis: `0 → VeryLow`, `1..=2 → Low`, `3..=5 → Medium`,
/// `>= 6 → High`.
pub open spec fn sample_grade(n: int) -> ConfidenceLevel {
    if n == 0 {
        ConfidenceLevel::VeryLow
    } else if n <= 2 {
        ConfidenceLevel::Low
    } else if n <= 5 {
        ConfidenceLevel::Medium
    } else {
        ConfidenceLevel::High
    }
}

/// The cap implied by the data freshness state.
pub open spec fn freshness_cap_spec(f: DataFreshness) -> ConfidenceLevel {
    match f {
        DataFreshness::FreshObserved => ConfidenceLevel::High,
        DataFreshness::StaleObserved { .. } => ConfidenceLevel::Medium,
        DataFreshness::HistoricalCacheOnly { .. } => ConfidenceLevel::Low,
        DataFreshness::StaticFallbackOnly => ConfidenceLevel::VeryLow,
        DataFreshness::NoUsableData => ConfidenceLevel::VeryLow,
    }
}

/// The label of a freshness state.
pub open spec fn freshness_name(f: DataFreshness) -> Seq<char> {
    match f {
        DataFreshness::FreshObserved => "fresh-observed"@,
        DataFreshness::StaleObserved { .. } => "stale-observed"@,
        DataFreshness::HistoricalCacheOnly { .. } => "historical-cache-only"@,
        DataFreshness::StaticFallbackOnly => "static-fallback-only"@,
        DataFreshness::NoUsableData => "no-usable-data"@,
    }
}

/// Grade the sample-count axis.
pub fn grade_sample_count(n: usize) -> (l: ConfidenceLevel)
    ensures
        l == sample_grade(n as int),
{
    if n == 0 {
        ConfidenceLevel::VeryLow
    } else if n <= 2 {
        ConfidenceLevel::Low
    } else if n <= 5 {
        ConfidenceLevel::Medium
    } else {
        ConfidenceLevel::High
    }
}

/// The confidence cap implied by the data freshness state, with its label.
pub fn freshness_cap(freshness: &DataFreshness) -> (r: (ConfidenceLevel, &'static str))
    ensures
        r.0 == freshness_cap_spec(*freshness),
        r.1@ == freshness_name(*freshness),
{
    match freshness {
        DataFreshness::FreshObserved => (ConfidenceLevel::High, "fresh-observed"),
        DataFreshness::StaleObserved { .. } => (ConfidenceLevel::Medium, "stale-observed"),
        DataFreshness::HistoricalCacheOnly { .. } => (
            ConfidenceLevel::Low,
            "historical-cache-only",
        ),
        DataFreshness::StaticFallbackOnly => (ConfidenceLevel::VeryLow, "static-fallback-only"),
        DataFreshness::NoUsableData => (ConfidenceLevel::VeryLow, "no-usable-data"),
    }
}

/// The label of a freshness state.
pub fn freshness_label(f: &DataFreshness) -> (s: &'static str)
    ensures
        s@ == freshness_name(*f),
{
    freshness_cap(f).1
}

/// The graded relative-interval-width axis, computed from the sample
/// statistics by the caller, with its explanatory note.
pub struct WidthGrade {
    /// Level the width axis grades to.
    pub level: ConfidenceLevel,
    /// Note explaining the width grade.
    pub note: String,
}

/// The combined level: the most conservative of the three axes.
pub open spec fn assessed_level(
    n: int,
    width: ConfidenceLevel,
    f: DataFreshness,
) -> ConfidenceLevel {
    worse(worse(sample_grade(n), width), freshness_cap_spec(f))
}

/// `sample count {n} → {level}`
pub open spec fn sample_note(n: nat) -> Seq<char> {
    "sample count "@ + decimal(n) + " → "@ + level_name(sample_grade(n as int))
}

/// `freshness cap: {label} → {level}`
pub open spec fn cap_note(f: DataFreshness) -> Seq<char> {
    "freshness cap: "@ + freshness_name(f) + " → "@ + level_name(freshness_cap_spec(f))
}

/// `=> {level} (most conservative of the three)`
pub open spec fn combined_note(l: ConfidenceLevel) -> Seq<char> {
    "=> "@ + level_name(l) + " (most conservative of the three)"@
}

impl Confidence {
    /// A copy with the same level, sample count and notes.
    pub fn duplicate(&self) -> (c: Confidence)
        ensures
            c.level == self.level,
            c.sample_count == self.sample_count,
            views(c.notes@) == views(self.notes@),
    {
        let mut notes: Vec<String> = Vec::new();
        let mut i: usize = 0;
        while i < self.notes.len()
            invariant
                i <= self.notes@.len(),
                notes@.len() == i,
                forall|k: int| 0 <= k < i ==> (#[trigger] notes@[k])@ == self.notes@[k]@,
            decreases self.notes@.len() - i,
        {
            let t = String::from_str(self.notes[i].as_str());
            assert(t@ == self.notes@[i as int]@);
            let ghost before = notes@;
            notes.push(t);
            assert(notes@ == before.push(t));
            i = i + 1;

        }
        assert(views(notes@) =~= views(self.notes@));
        Confidence { level: self.level, sample_count: self.sample_count, notes }
    }

    /// A `VeryLow` confidence with no samples and a single explanatory note.
    pub fn very_low(reason: String) -> (c: Confidence)
        ensures
            c.level == ConfidenceLevel::VeryLow,
            c.sample_count == 0,
            c.notes@.len() == 1,
            c.notes@[0] == reason,
    {
        let mut notes: Vec<String> = Vec::new();
        notes.push(reason);
        Confidence { level: ConfidenceLevel::VeryLow, sample_count: 0, notes }
    }

    /// Combine the three axes (sample count, interval width, freshness
    /// cap); the most conservative level wins. Each axis contributes a
    /// note, followed by the verdict.
    pub fn assess(sample_count: usize, width: WidthGrade, freshness: &DataFreshness) -> (c:
        Confidence)
        ensures
            c.level == assessed_level(sample_count as int, width.level, *freshness),
            c.sample_count == sample_count,
            c.notes@.len() == 4,
            c.notes@[0]@ == sample_note(sample_count as nat),
            c.notes@[1] == width.note,
            c.notes@[2]@ == cap_note(*freshness),
            c.notes@[3]@ == combined_note(c.level),
    {
        let sample_level = grade_sample_count(sample_count);
        let mut n0 = String::from_str("sample count ");
        push_decimal(&mut n0, sample_count as u128);
        push_str(&mut n0, " → ");
        push_str(&mut n0, level_label(sample_level));
        let (cap_level, cap_label) = freshness_cap(freshness);
        let mut n2 = String::from_str("freshness cap: ");
        push_str(&mut n2, cap_label);
        push_str(&mut n2, " → ");
        push_str(&mut n2, level_label(cap_level));
        let level = most_conservative(most_conservative(sample_level, width.level), cap_level);
        let mut n3 = String::from_str("=> ");
        push_str(&mut n3, level_label(level));
        push_str(&mut n3, " (most conservative of the three)");
        let mut notes: Vec<String> = Vec::new();
        notes.push(n0);
        notes.push(width.note);
        notes.push(n2);
        notes.push(n3);
        proof {
            assert(notes@[0]@ =~= sample_note(sample_count as nat));
            assert(notes@[2]@ =~= cap_note(*freshness));
            assert(notes@[3]@ =~= combined_note(level));
        }
        Confidence { level, sample_count, notes }
    }
}

/// The assessed level is never better than any single axis; in particular
/// the freshness cap bounds it, so a cache-only basis is at best `Low`
/// and a static-fallback basis is always `VeryLow`.
pub proof fn lemma_most_conservative_wins(n: int, width: ConfidenceLevel, f: DataFreshness)
    ensures
        rank(assessed_level(n, width, f)) >= rank(sample_grade(n)),
        rank(assessed_level(n, width, f)) >= rank(width),
        rank(assessed_level(n, width, f)) >= rank(freshness_cap_spec(f)),
        assessed_level(n, width, f) == sample_grade(n) || assessed_level(n, width, f) == width
            || assessed_level(n, width, f) == freshness_cap_spec(f),
        f is HistoricalCacheOnly ==> rank(assessed_level(n, width, f)) >= rank(
            ConfidenceLevel::Low,
        ),
        (f is StaticFallbackOnly || f is NoUsableData) ==> assessed_level(n, width, f)
            == ConfidenceLevel::VeryLow,
{
}

} // verus!
