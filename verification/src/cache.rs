//! The historical cache: per-region hourly observations, strictly ascending
//! by timestamp, with a versioned schema.

use vstd::prelude::*;

use crate::eia_error::EiaError;
use vstd::multiset::Multiset;
use crate::instant::valid_instant;
use crate::region::{region_code, Region};
use crate::text::push_str;
use crate::timefmt::{display_instant, instant_display};
use vstd::string::StringExecFns;

verus! {

broadcast use vstd::seq_lib::group_to_multiset_ensures, vstd::seq_lib::to_multiset_insert;

/// Schema version written into and required when reading the cache.
pub const CACHE_SCHEMA_VERSION: u32 = 1;

/// Default maximum age (24 hours, in nanoseconds) before data is stale.
pub const DEFAULT_MAX_CACHE_AGE: i128 = 86_400_000_000_000;

/// A carbon intensity in gCO₂/kWh, held as the IEEE-754 bit pattern of a
/// non-negative finite `f64`. For such values the bit patterns order
/// exactly as the numbers do, so intensities can be compared and carried
/// without arithmetic on them.
#[derive(Debug, Clone, Copy, PartialEq, Eq, Structural)]
pub struct Intensity {
    /// Bit pattern of the `f64` value.
    pub bits: u64,
}

/// One observed historical hour.
#[derive(Debug, PartialEq)]
pub struct CarbonObservation {
    /// UTC start of the hour (nanoseconds since the epoch).
    pub at: i128,
    /// Estimated average intensity for the hour.
    pub intensity: Intensity,
    /// Methodology label the observation was derived under.
    pub methodology: String,
}

/// One region's cached hourly observations.
#[derive(Debug, PartialEq)]
pub struct RegionHistory {
    /// The region these observations belong to.
    pub region: Region,
    /// Hourly observations, strictly ascending by timestamp.
    pub observations: Vec<CarbonObservation>,
}

/// The full historical cache.
#[derive(Debug, PartialEq)]
pub struct HistoricalCache {
    /// Format version.
    pub schema_version: u32,
    /// When the cache was last (re)written, UTC nanoseconds.
    pub generated_at: i128,
    /// Methodology label of the derivation that produced the observations.
    pub methodology_version: String,
    /// Per-region history.
    pub regions: Vec<RegionHistory>,
}

/// Index of the first history for `r` at or after `i`, or the length.
pub open spec fn find_region(regions: Seq<RegionHistory>, r: Region, i: int) -> int
    decreases regions.len() - i,
{
    if i >= regions.len() {
        regions.len() as int
    } else if regions[i].region == r {
        i
    } else {
        find_region(regions, r, i + 1)
    }
}

/// The observations held for `r` (empty when the region is absent).
pub open spec fn region_obs(regions: Seq<RegionHistory>, r: Region) -> Seq<CarbonObservation> {
    let i = find_region(regions, r, 0);
    if 0 <= i < regions.len() {
        regions[i].observations@
    } else {
        Seq::empty()
    }
}

/// Observations are non-decreasing by timestamp.
pub open spec fn sorted_by_time(s: Seq<CarbonObservation>) -> bool {
    forall|i: int, j: int| 0 <= i <= j < s.len() ==> s[i].at <= s[j].at
}

/// Observations are strictly ascending by timestamp.
pub open spec fn strictly_ascending(s: Seq<CarbonObservation>) -> bool {
    forall|i: int| 0 <= i < s.len() - 1 ==> #[trigger] s[i].at < s[i + 1].at
}

/// No two observations share a timestamp.
pub open spec fn distinct_times(s: Seq<CarbonObservation>) -> bool {
    forall|i: int, j: int| 0 <= i < j < s.len() ==> s[i].at != s[j].at
}

/// Every earlier observation is strictly earlier.
pub open spec fn strictly_sorted(s: Seq<CarbonObservation>) -> bool {
    forall|i: int, j: int| 0 <= i < j < s.len() ==> s[i].at < s[j].at
}

/// Index of the first observation at or after `k` that is not strictly
/// before the next one.
pub open spec fn first_descent(obs: Seq<CarbonObservation>, k: int) -> Option<int>
    decreases obs.len() - k,
{
    if k < 0 || k + 1 >= obs.len() {
        None
    } else if obs[k + 1].at <= obs[k].at {
        Some(k)
    } else {
        first_descent(obs, k + 1)
    }
}

/// What `validate` reports for the `i`-th history, if anything: a region
/// seen earlier, or the first pair out of order.
pub open spec fn history_problem(regions: Seq<RegionHistory>, i: int) -> Option<Seq<char>> {
    let rh = regions[i];
    if exists|j: int| 0 <= j < i && regions[j].region == rh.region {
        Some("duplicate region entry: "@ + region_code(rh.region))
    } else {
        match first_descent(rh.observations@, 0) {
            Some(k) => Some(
                region_code(rh.region) + " observations not strictly ascending by timestamp (at "@
                    + instant_display(rh.observations@[k].at) + " then "@ + instant_display(
                    rh.observations@[k + 1].at,
                ) + ")"@,
            ),
            None => None,
        }
    }
}

/// The first problem `validate` finds from the `i`-th history on.
pub open spec fn problem_from(regions: Seq<RegionHistory>, i: int) -> Option<Seq<char>>
    decreases regions.len() - i,
{
    if i < 0 || i >= regions.len() {
        None
    } else {
        match history_problem(regions, i) {
            Some(m) => Some(m),
            None => problem_from(regions, i + 1),
        }
    }
}

/// No region appears twice.
pub open spec fn distinct_regions(regions: Seq<RegionHistory>) -> bool {
    forall|i: int, j: int| 0 <= i < j < regions.len() ==> regions[i].region != regions[j].region
}

/// The structural invariants `validate` checks.
pub open spec fn cache_valid(c: &HistoricalCache) -> bool {
    &&& c.schema_version == CACHE_SCHEMA_VERSION
    &&& distinct_regions(c.regions@)
    &&& forall|i: int|
        0 <= i < c.regions@.len() ==> strictly_ascending(#[trigger] c.regions@[i].observations@)
}

proof fn lemma_find_region_bounds(regions: Seq<RegionHistory>, r: Region, i: int)
    requires
        0 <= i <= regions.len(),
    ensures
        i <= find_region(regions, r, i) <= regions.len(),
        find_region(regions, r, i) < regions.len() ==> regions[find_region(regions, r, i)].region
            == r,
        forall|k: int| i <= k < find_region(regions, r, i) ==> regions[k].region != r,
    decreases regions.len() - i,
{
    if i < regions.len() && regions[i].region != r {
        lemma_find_region_bounds(regions, r, i + 1);
    }
}

proof fn lemma_find_region_unique(regions: Seq<RegionHistory>, r: Region, k: int)
    requires
        0 <= k < regions.len(),
        regions[k].region == r,
        forall|j: int| 0 <= j < k ==> regions[j].region != r,
    ensures
        find_region(regions, r, 0) == k,
{
    lemma_find_region_bounds(regions, r, 0);
    let f = find_region(regions, r, 0);
    if f < k {
        assert(regions[f].region == r);
    }
}

proof fn lemma_find_region_absent(regions: Seq<RegionHistory>, r: Region)
    requires
        forall|j: int| 0 <= j < regions.len() ==> regions[j].region != r,
    ensures
        find_region(regions, r, 0) == regions.len(),
{
    lemma_find_region_bounds(regions, r, 0);
}

/// The observations stamped `t`, in their order in `s`.
pub open spec fn at_time(s: Seq<CarbonObservation>, t: i128) -> Seq<CarbonObservation> {
    s.filter(|o: CarbonObservation| o.at == t)
}

proof fn lemma_at_time_none(s: Seq<CarbonObservation>, t: i128)
    requires
        forall|i: int| 0 <= i < s.len() ==> s[i].at != t,
    ensures
        at_time(s, t) == Seq::<CarbonObservation>::empty(),
    decreases s.len(),
{
    reveal(Seq::filter);
    if s.len() > 0 {
        lemma_at_time_none(s.drop_last(), t);
    }
}

proof fn lemma_at_time_single(x: CarbonObservation, t: i128)
    ensures
        at_time(seq![x], t) == (if x.at == t {
            seq![x]
        } else {
            Seq::<CarbonObservation>::empty()
        }),
{
    reveal_with_fuel(Seq::filter, 2);
    assert(seq![x].drop_last() =~= Seq::<CarbonObservation>::empty());
    assert(Seq::<CarbonObservation>::empty().push(x) =~= seq![x]);
}

proof fn lemma_at_time_cons(x: CarbonObservation, s: Seq<CarbonObservation>, t: i128)
    ensures
        at_time(seq![x] + s, t) == (if x.at == t {
            seq![x] + at_time(s, t)
        } else {
            at_time(s, t)
        }),
{
    Seq::filter_distributes_over_add(seq![x], s, |o: CarbonObservation| o.at == t);
    lemma_at_time_single(x, t);
    if x.at != t {
        assert(Seq::<CarbonObservation>::empty() + at_time(s, t) =~= at_time(s, t));
    }
}

/// Inserting `x` in front of the first element not earlier than it puts
/// `x` first among the items of its own timestamp.
proof fn lemma_at_time_insert(prev: Seq<CarbonObservation>, p: int, x: CarbonObservation, t: i128)
    requires
        0 <= p <= prev.len(),
        forall|k: int| 0 <= k < p ==> prev[k].at < x.at,
    ensures
        at_time(prev.insert(p, x), t) == (if x.at == t {
            seq![x] + at_time(prev, t)
        } else {
            at_time(prev, t)
        }),
{
    let a = prev.take(p);
    let b = prev.skip(p);
    assert(prev =~= a + b);
    assert(prev.insert(p, x) =~= a + (seq![x] + b));
    Seq::filter_distributes_over_add(a, b, |o: CarbonObservation| o.at == t);
    Seq::filter_distributes_over_add(a, seq![x] + b, |o: CarbonObservation| o.at == t);
    lemma_at_time_cons(x, b, t);
    if x.at == t {
        lemma_at_time_none(a, t);
        assert(Seq::<CarbonObservation>::empty() + (seq![x] + at_time(b, t)) =~= seq![x]
            + at_time(b, t));
        assert(Seq::<CarbonObservation>::empty() + at_time(b, t) =~= at_time(b, t));
    }
}

/// Sort observations ascending by timestamp; the sort is stable: items
/// sharing a timestamp keep their input order.
pub fn sort_by_time(obs: Vec<CarbonObservation>) -> (r: Vec<CarbonObservation>)
    ensures
        sorted_by_time(r@),
        r@.to_multiset() == obs@.to_multiset(),
        distinct_times(obs@) ==> strictly_ascending(r@),
        forall|t: i128| #[trigger] at_time(r@, t) == at_time(obs@, t),
{
    let mut rest = obs;
    let mut out: Vec<CarbonObservation> = Vec::new();
    let ghost orig = rest@;
    assert(orig.take(orig.len() as int) =~= orig);
    proof {
        assert forall|t: i128| #[trigger] at_time(out@, t) == at_time(orig.skip(orig.len() as int), t) by {
            assert(out@ =~= Seq::<CarbonObservation>::empty());
            assert(orig.skip(orig.len() as int) =~= Seq::<CarbonObservation>::empty());
            lemma_at_time_none(out@, t);
        }
    }
    while rest.len() > 0
        invariant
            sorted_by_time(out@),
            out@.to_multiset().add(rest@.to_multiset()) == orig.to_multiset(),
            rest@.len() <= orig.len(),
            rest@ == orig.take(rest@.len() as int),
            distinct_times(orig) ==> strictly_sorted(out@),
            distinct_times(orig) ==> forall|a: int, k: int|
                0 <= a < out@.len() && 0 <= k < rest@.len() ==> out@[a].at != rest@[k].at,
            forall|t: i128| #[trigger] at_time(out@, t) == at_time(orig.skip(rest@.len() as int), t),
        decreases rest@.len(),
    {
        let ghost before = rest@;
        let ghost prev_out = out@;
        let x = rest.pop().unwrap();
        assert(before =~= rest@.push(x));
        assert(rest@ =~= orig.take(rest@.len() as int));
        let mut p: usize = 0;
        while p < out.len() && out[p].at < x.at
            invariant
                p <= out@.len(),
                forall|k: int| 0 <= k < p ==> out@[k].at < x.at,
            decreases out@.len() - p,
        {
            p = p + 1;
        }
        let ghost prev = out@;
        out.insert(p, x);
        proof {
            assert(out@ == prev.insert(p as int, x));
            let m = rest@.len() as int;
            assert(x == orig[m]);
            assert(orig.skip(m) =~= seq![x] + orig.skip(m + 1));
            assert forall|t: i128| #[trigger] at_time(out@, t) == at_time(orig.skip(m), t) by {
                lemma_at_time_insert(prev, p as int, x, t);
                lemma_at_time_cons(x, orig.skip(m + 1), t);
            }
            if distinct_times(orig) {
                let n = rest@.len() as int;
                assert(x == orig[n]);
                assert forall|a: int| 0 <= a < prev.len() implies prev[a].at != x.at by {
                    assert(before[n] == x);
                }
                assert forall|i: int, j: int| 0 <= i < j < out@.len() implies out@[i].at
                    < out@[j].at by {
                    if j < p as int {
                        assert(out@[i] == prev[i]);
                        assert(out@[j] == prev[j]);
                    } else if i < p as int && j == p as int {
                    } else if i < p as int && j > p as int {
                        assert(out@[i] == prev[i]);
                        assert(out@[j] == prev[j - 1]);
                    } else if i == p as int {
                        assert(out@[j] == prev[j - 1]);
                        assert(p < prev.len());
                        assert(prev[p as int].at >= x.at);
                        assert(prev[p as int].at != x.at);
                        if j - 1 > p as int {
                            assert(prev[p as int].at < prev[j - 1].at);
                        }
                    } else {
                        assert(out@[i] == prev[i - 1]);
                        assert(out@[j] == prev[j - 1]);
                    }
                }
                assert forall|a: int, k: int|
                    0 <= a < out@.len() && 0 <= k < rest@.len() implies out@[a].at
                    != rest@[k].at by {
                    assert(rest@[k] == orig[k]);
                    assert(before[k] == rest@[k]);
                    if a < p as int {
                        assert(out@[a] == prev[a]);
                    } else if a == p as int {
                        assert(k < n);
                    } else {
                        assert(out@[a] == prev[a - 1]);
                    }
                }
            }
            assert forall|i: int, j: int| 0 <= i <= j < out@.len() implies out@[i].at
                <= out@[j].at by {
                if i < p as int && j == p as int {
                } else if i < p as int && j > p as int {
                    assert(out@[i] == prev[i]);
                    assert(out@[j] == prev[j - 1]);
                    assert(prev[i].at <= prev[j - 1].at);
                } else if i == p as int && j > p as int {
                    assert(out@[j] == prev[j - 1]);
                    assert(p < prev.len());
                    assert(prev[p as int].at >= x.at);
                    assert(prev[p as int].at <= prev[j - 1].at);
                } else if i > p as int {
                    assert(out@[i] == prev[i - 1]);
                    assert(out@[j] == prev[j - 1]);
                } else if i == p as int && j == p as int {
                } else {
                    assert(out@[i] == prev[i]);
                    assert(out@[j] == prev[j]);
                }
            }
            assert(out@.to_multiset() == prev.to_multiset().insert(x));
            assert(before.to_multiset() == rest@.to_multiset().insert(x));
            broadcast use vstd::multiset::group_multiset_properties;
            assert(out@.to_multiset().add(rest@.to_multiset()) =~= prev.to_multiset().add(
                before.to_multiset(),
            ));
        }
    }
    proof {
        assert(orig.skip(0) =~= orig);
        assert(rest@.to_multiset() =~= Multiset::empty());
        assert(out@.to_multiset().add(Multiset::empty()) =~= out@.to_multiset());
        if distinct_times(orig) {
            assert forall|i: int| 0 <= i < out@.len() - 1 implies #[trigger] out@[i].at
                < out@[i + 1].at by {
            }
        }
    }
    out
}

impl HistoricalCache {
    /// An empty cache stamped `generated_at`, with the current schema version.
    pub fn new(generated_at: i128, methodology_version: String) -> (c: HistoricalCache)
        ensures
            c.schema_version == CACHE_SCHEMA_VERSION,
            c.generated_at == generated_at,
            c.methodology_version == methodology_version,
            c.regions@.len() == 0,
    {
        HistoricalCache {
            schema_version: CACHE_SCHEMA_VERSION,
            generated_at,
            methodology_version,
            regions: Vec::new(),
        }
    }

    /// Insert or replace a region's observations, sorted ascending by
    /// timestamp. Other regions are untouched; duplicate timestamps are
    /// kept (and later refused by `validate`).
    pub fn set_region(&mut self, region: Region, observations: Vec<CarbonObservation>)
        ensures
            final(self).schema_version == old(self).schema_version,
            final(self).generated_at == old(self).generated_at,
            final(self).methodology_version == old(self).methodology_version,
            sorted_by_time(region_obs(final(self).regions@, region)),
            region_obs(final(self).regions@, region).to_multiset()
                == observations@.to_multiset(),
            forall|t: i128|
                #[trigger] at_time(region_obs(final(self).regions@, region), t) == at_time(
                    observations@,
                    t,
                ),
            forall|r: Region|
                r != region ==> region_obs(final(self).regions@, r) == region_obs(
                    old(self).regions@,
                    r,
                ),
            final(self).regions@.len() == old(self).regions@.len() + (if find_region(
                old(self).regions@,
                region,
                0,
            ) < old(self).regions@.len() {
                0int
            } else {
                1int
            }),
            distinct_regions(old(self).regions@) ==> distinct_regions(final(self).regions@),
            cache_valid(&*old(self)) && distinct_times(observations@) ==> cache_valid(&*final(self)),
    {
        let ghost obs0 = observations@;
        let sorted = sort_by_time(observations);
        let entry = RegionHistory { region, observations: sorted };
        let ghost old_regions = self.regions@;
        let mut i: usize = 0;
        while i < self.regions.len() && self.regions[i].region != region
            invariant
                i <= self.regions@.len(),
                self.regions@ == old_regions,
                forall|k: int| 0 <= k < i ==> self.regions@[k].region != region,
            decreases self.regions@.len() - i,
        {
            i = i + 1;
        }
        proof {
            lemma_find_region_bounds(old_regions, region, 0);
        }
        if i < self.regions.len() {
            proof {
                lemma_find_region_unique(old_regions, region, i as int);
            }
            self.regions.set(i, entry);
            proof {
                let nr = self.regions@;
                assert(nr == old_regions.update(i as int, entry));
                lemma_find_region_unique(nr, region, i as int);
                assert forall|r: Region| r != region implies region_obs(nr, r) == region_obs(
                    old_regions,
                    r,
                ) by {
                    lemma_find_region_bounds(old_regions, r, 0);
                    lemma_find_region_bounds(nr, r, 0);
                    let fo = find_region(old_regions, r, 0);
                    let fnn = find_region(nr, r, 0);
                    if fo < old_regions.len() {
                        assert(fo != i);
                        if fo < i {
                            lemma_find_region_unique(nr, r, fo);
                        } else {
                            assert(nr[i as int].region != r);
                            lemma_find_region_unique(nr, r, fo);
                        }
                    } else {
                        assert forall|j: int| 0 <= j < nr.len() implies nr[j].region != r by {
                            if j != i {
                                assert(nr[j] == old_regions[j]);
                            }
                        }
                        lemma_find_region_absent(nr, r);
                    }
                }
                if distinct_regions(old_regions) {
                    assert forall|a: int, b: int| 0 <= a < b < nr.len() implies nr[a].region
                        != nr[b].region by {
                        if a != i && b != i {
                            assert(nr[a] == old_regions[a]);
                            assert(nr[b] == old_regions[b]);
                        } else if a == i {
                            assert(nr[b] == old_regions[b]);
                        } else {
                            assert(nr[a] == old_regions[a]);
                        }
                    }
                }
            }
        } else {
            self.regions.push(entry);
            proof {
                let nr = self.regions@;
                assert(nr == old_regions.push(entry));
                lemma_find_region_unique(nr, region, i as int);
                assert forall|r: Region| r != region implies region_obs(nr, r) == region_obs(
                    old_regions,
                    r,
                ) by {
                    lemma_find_region_bounds(old_regions, r, 0);
                    let fo = find_region(old_regions, r, 0);
                    if fo < old_regions.len() {
                        lemma_find_region_unique(nr, r, fo);
                    } else {
                        assert forall|j: int| 0 <= j < nr.len() implies nr[j].region != r by {
                            if j < old_regions.len() {
                                assert(nr[j] == old_regions[j]);
                            }
                        }
                        lemma_find_region_absent(nr, r);
                    }
                }
                if distinct_regions(old_regions) {
                    assert forall|a: int, b: int| 0 <= a < b < nr.len() implies nr[a].region
                        != nr[b].region by {
                        assert(nr[a] == old_regions[a]);
                        if b < old_regions.len() {
                            assert(nr[b] == old_regions[b]);
                        }
                    }
                }
            }
        }
        proof {
            let nr = self.regions@;
            if cache_valid(&*old(self)) && distinct_times(obs0) {
                assert(old_regions == old(self).regions@);
                assert forall|k: int| 0 <= k < nr.len() implies strictly_ascending(
                    #[trigger] nr[k].observations@,
                ) by {
                    if k < old_regions.len() && nr[k] == old_regions[k] {
                        assert(strictly_ascending(old_regions[k].observations@));
                    } else {
                        assert(nr[k] == entry);
                    }
                }
            }
        }
    }

    /// Index of the history for `region`, if present.
    fn position(&self, region: Region) -> (r: Option<usize>)
        ensures
            r is Some <==> find_region(self.regions@, region, 0) < self.regions@.len(),
            r matches Some(i) ==> i == find_region(self.regions@, region, 0),
    {
        proof {
            lemma_find_region_bounds(self.regions@, region, 0);
        }
        let mut i: usize = 0;
        while i < self.regions.len()
            invariant
                i <= self.regions@.len(),
                forall|k: int| 0 <= k < i ==> self.regions@[k].region != region,
            decreases self.regions@.len() - i,
        {
            if self.regions[i].region == region {
                proof {
                    lemma_find_region_unique(self.regions@, region, i as int);
                }
                return Some(i);
            }
            i = i + 1;
        }
        proof {
            lemma_find_region_absent(self.regions@, region);
        }
        None
    }

    /// All observations for `region` (empty when the region is absent).
    pub fn observations(&self, region: Region) -> (r: &[CarbonObservation])
        ensures
            r@ == region_obs(self.regions@, region),
    {
        match self.position(region) {
            Some(i) => self.regions[i].observations.as_slice(),
            None => &[],
        }
    }

    /// Timestamp of the newest (last) observation for `region`, if any.
    pub fn newest_sample(&self, region: Region) -> (r: Option<i128>)
        ensures
            region_obs(self.regions@, region).len() == 0 ==> r is None,
            region_obs(self.regions@, region).len() > 0 ==> r == Some(
                region_obs(self.regions@, region).last().at,
            ),
    {
        let obs = self.observations(region);
        if obs.len() == 0 {
            None
        } else {
            Some(obs[obs.len() - 1].at)
        }
    }

    /// Number of regions with cached history.
    pub fn region_count(&self) -> (n: usize)
        ensures
            n == self.regions@.len(),
    {
        self.regions.len()
    }

    /// Age of the cache relative to `now` (may be negative under clock skew).
    pub fn age(&self, now: i128) -> (d: i128)
        requires
            valid_instant(now as int),
            valid_instant(self.generated_at as int),
        ensures
            d == now - self.generated_at,
    {
        now - self.generated_at
    }

    /// Whether the cache is older than `max_age` relative to `now`.
    pub fn is_stale(&self, now: i128, max_age: i128) -> (b: bool)
        requires
            valid_instant(now as int),
            valid_instant(self.generated_at as int),
        ensures
            b == (now - self.generated_at > max_age),
    {
        self.age(now) > max_age
    }

    /// Check the structural invariants: supported schema version, unique
    /// regions, and per-region observations strictly ascending.
    pub fn validate(&self) -> (r: Result<(), EiaError>)
        requires
            forall|i: int, k: int|
                0 <= i < self.regions@.len() && 0 <= k < self.regions@[i].observations@.len()
                    ==> valid_instant(#[trigger] self.regions@[i].observations@[k].at as int),
        ensures
            r is Ok <==> cache_valid(self),
            self.schema_version != CACHE_SCHEMA_VERSION ==> (r matches Err(
                EiaError::CacheSchemaMismatch { found, expected },
            ) && found == self.schema_version && expected == CACHE_SCHEMA_VERSION),
            self.schema_version == CACHE_SCHEMA_VERSION ==> match problem_from(self.regions@, 0) {
                Some(m) => r matches Err(EiaError::HistoricalCache(x)) && x@ == m,
                None => r is Ok,
            },
    {
        if self.schema_version != CACHE_SCHEMA_VERSION {
            return Err(
                EiaError::CacheSchemaMismatch {
                    found: self.schema_version,
                    expected: CACHE_SCHEMA_VERSION,
                },
            );
        }
        let n = self.regions.len();
        let mut i: usize = 0;
        while i < n
            invariant
                n == self.regions@.len(),
                i <= n,
                self.schema_version == CACHE_SCHEMA_VERSION,
                problem_from(self.regions@, 0) == problem_from(self.regions@, i as int),
                forall|a: int, b: int| 0 <= a < b < i ==> self.regions@[a].region
                    != self.regions@[b].region,
                forall|a: int| 0 <= a < i ==> strictly_ascending(#[trigger] self.regions@[a].observations@),
                forall|a: int, k: int|
                    0 <= a < self.regions@.len() && 0 <= k < self.regions@[a].observations@.len()
                        ==> valid_instant(#[trigger] self.regions@[a].observations@[k].at as int),
            decreases n - i,
        {
            let rh = &self.regions[i];
            let mut j: usize = 0;
            while j < i
                invariant
                    j <= i < n,
                    n == self.regions@.len(),
                    *rh == self.regions@[i as int],
                    self.schema_version == CACHE_SCHEMA_VERSION,
                    forall|a: int| 0 <= a < j ==> self.regions@[a].region != rh.region,
                    problem_from(self.regions@, 0) == problem_from(self.regions@, i as int),
                decreases i - j,
            {
                if self.regions[j].region == rh.region {
                    let mut msg = String::from_str("duplicate region entry: ");
                    push_str(&mut msg, rh.region.as_code());
                    proof {
                        assert(self.regions@[j as int].region == self.regions@[i as int].region);
                        assert(history_problem(self.regions@, i as int) == Some(msg@));
                    }
                    return Err(EiaError::HistoricalCache(msg));
                }
                j = j + 1;
            }
            let m = rh.observations.len();
            let mut k: usize = 0;
            while m > 0 && k < m - 1
                invariant
                    m == rh.observations@.len(),
                    self.schema_version == CACHE_SCHEMA_VERSION,
                    *rh == self.regions@[i as int],
                    k <= m,
                    first_descent(rh.observations@, 0) == first_descent(rh.observations@, k as int),
                    forall|a: int| 0 <= a < i ==> self.regions@[a].region != rh.region,
                    problem_from(self.regions@, 0) == problem_from(self.regions@, i as int),
                    i < n,
                    n == self.regions@.len(),
                    forall|q: int| 0 <= q < k && q < m - 1 ==> #[trigger] rh.observations@[q].at
                        < rh.observations@[q + 1].at,
                    forall|a: int, kk: int|
                        0 <= a < self.regions@.len() && 0 <= kk
                            < self.regions@[a].observations@.len() ==> valid_instant(
                            #[trigger] self.regions@[a].observations@[kk].at as int,
                        ),
                decreases m - k,
            {
                let t0 = rh.observations[k].at;
                let t1 = rh.observations[k + 1].at;
                if t1 <= t0 {
                    proof {
                        assert(valid_instant(self.regions@[i as int].observations@[k as int].at as int));
                        assert(valid_instant(self.regions@[i as int].observations@[k + 1].at as int));
                    }
                    let mut msg = String::from_str(rh.region.as_code());
                    push_str(
                        &mut msg,
                        " observations not strictly ascending by timestamp (at ",
                    );
                    let d0 = display_instant(t0);
                    push_str(&mut msg, d0.as_str());
                    push_str(&mut msg, " then ");
                    let d1 = display_instant(t1);
                    push_str(&mut msg, d1.as_str());
                    push_str(&mut msg, ")");
                    proof {
                        assert(first_descent(rh.observations@, k as int) == Some(k as int));
                        assert(history_problem(self.regions@, i as int) == Some(msg@));
                    }
                    return Err(EiaError::HistoricalCache(msg));
                }
                k = k + 1;
            }
            proof {
                assert(first_descent(rh.observations@, k as int) is None);
                assert(history_problem(self.regions@, i as int) is None);
            }
            i = i + 1;
        }
        Ok(())
    }
}

} // verus!

verus! {

/// Every observation `region_obs` returns is one of the cache's stored
/// observations.
pub proof fn lemma_region_obs_member(regions: Seq<RegionHistory>, r: Region)
    ensures
        region_obs(regions, r).len() > 0 ==> {
            let i = find_region(regions, r, 0);
            &&& 0 <= i < regions.len()
            &&& region_obs(regions, r) == regions[i].observations@
        },
{
    lemma_find_region_bounds(regions, r, 0);
}

} // verus!
