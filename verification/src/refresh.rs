//! The data-shaping half of a cache refresh: the EIA query for one page,
//! the EIA hour format, and folding per-hour derivations into the
//! observations and warnings that are written to the cache.

use vstd::prelude::*;

use crate::cache::{strictly_ascending, CarbonObservation, Intensity};
use crate::eia_error::EiaError;
use crate::forecast::{hour_of, hour_of_exec};
use crate::instant::{valid_instant, NANOS_PER_SECOND};
use crate::region::{region_code, Region};
use crate::text::{
    all_digits, chars_of, digits_value, parse_digits_capped, skip_ws_end, skip_ws_start, trim_seq,
    unsigned_digits, views, decimal, decimal_string, padded, push_char, push_decimal, push_padded, push_str,
};
use crate::timefmt::{utc_date, utc_date_of};
use vstd::string::StrSliceExecFns;
use vstd::string::StringExecFns;

verus! {

/// Most warnings kept before the rest are summarised in one line.
pub const MAX_WARNINGS: usize = 50;

/// Rows per EIA page (the API's cap on one response).
pub const PAGE_LEN: usize = 5000;

/// Most pages fetched before a refresh gives up on reaching the total.
pub const MAX_PAGES: usize = 64;

/// `(+{extra} more warnings suppressed)`
pub open spec fn suppressed_note(extra: nat) -> Seq<char> {
    "(+"@ + decimal(extra) + " more warnings suppressed)"@
}

/// At most the first fifty warnings, then one line counting the rest.
pub open spec fn capped(w: Seq<Seq<char>>) -> Seq<Seq<char>> {
    if w.len() > MAX_WARNINGS {
        w.take(MAX_WARNINGS as int).push(suppressed_note((w.len() - MAX_WARNINGS) as nat))
    } else {
        w
    }
}

/// Keep warning output bounded: beyond fifty, keep the first fifty and
/// append a line saying how many more were dropped.
pub fn cap_warnings(warnings: &mut Vec<String>)
    ensures
        views(final(warnings)@) == capped(views(old(warnings)@)),
{
    let n = warnings.len();
    if n > MAX_WARNINGS {
        let extra = n - MAX_WARNINGS;
        warnings.truncate(MAX_WARNINGS);
        let mut note = String::from_str("(+");
        push_decimal(&mut note, extra as u128);
        push_str(&mut note, " more warnings suppressed)");
        warnings.push(note);
        assert(views(warnings@) =~= capped(views(old(warnings)@)));
    } else {
        assert(views(warnings@) =~= capped(views(old(warnings)@)));
    }
}

/// A year as `{:04}` renders it: zero-padded to four characters, the
/// sign counting toward the width.
pub open spec fn year_text(y: int) -> Seq<char> {
    if y < 0 {
        seq!['-'] + padded((-y) as nat, 3)
    } else {
        padded(y as nat, 4)
    }
}

/// EIA's `YYYY-MM-DDTHH` (UTC) form of an instant.
pub open spec fn eia_period_text(t: int) -> Seq<char> {
    let d = utc_date_of((t / (NANOS_PER_SECOND as int)) as i64);
    year_text(d.0 as int) + seq!['-'] + padded(d.1 as nat, 2) + seq!['-'] + padded(d.2 as nat, 2)
        + seq!['T'] + padded(hour_of(t) as nat, 2)
}

/// Format an instant as EIA's `YYYY-MM-DDTHH` (UTC) period string.
pub fn eia_period(t: i128) -> (s: String)
    requires
        valid_instant(t as int),
    ensures
        s@ == eia_period_text(t as int),
{
    let secs = t.checked_div_euclid(NANOS_PER_SECOND).unwrap();
    assert(-377_705_116_800 <= secs <= 253_402_300_799) by (nonlinear_arith)
        requires
            secs == (t as int) / 1_000_000_000int,
            -377_705_116_800_000_000_000int <= t <= 253_402_300_799_999_999_999int,
    ;
    let (y, m, d) = utc_date(secs as i64);
    let h = hour_of_exec(t);
    assert(0 <= h < 24) by (nonlinear_arith)
        requires
            h == (t as int % 86_400_000_000_000int) / 3_600_000_000_000int,
    ;
    let mut s = String::new();
    if y < 0 {
        push_char(&mut s, '-');
        push_padded(&mut s, (-y) as u128, 3);
    } else {
        push_padded(&mut s, y as u128, 4);
    }
    push_char(&mut s, '-');
    push_padded(&mut s, m as u128, 2);
    push_char(&mut s, '-');
    push_padded(&mut s, d as u128, 2);
    push_char(&mut s, 'T');
    push_padded(&mut s, h as u128, 2);
    assert(s@ =~= eia_period_text(t as int));
    s
}

/// The query parameters of one EIA page, in order; the key goes last.
pub open spec fn query_spec(
    respondent: Seq<char>,
    start: int,
    end: int,
    offset: nat,
    length: nat,
    api_key: Seq<char>,
) -> Seq<(Seq<char>, Seq<char>)> {
    seq![
        ("frequency"@, "hourly"@),
        ("data[0]"@, "value"@),
        ("facets[respondent][]"@, respondent),
        ("start"@, eia_period_text(start)),
        ("end"@, eia_period_text(end)),
        ("sort[0][column]"@, "period"@),
        ("sort[0][direction]"@, "asc"@),
        ("offset"@, decimal(offset)),
        ("length"@, decimal(length)),
        ("api_key"@, api_key),
    ]
}

/// Views of a list of string pairs.
pub open spec fn pair_views(v: Seq<(String, String)>) -> Seq<(Seq<char>, Seq<char>)> {
    v.map_values(|p: (String, String)| (p.0@, p.1@))
}

/// Build the EIA query parameters for one page.
pub fn build_query(
    respondent: &str,
    start: i128,
    end: i128,
    offset: usize,
    length: usize,
    api_key: &str,
) -> (q: Vec<(String, String)>)
    requires
        valid_instant(start as int),
        valid_instant(end as int),
    ensures
        pair_views(q@) == query_spec(
            respondent@,
            start as int,
            end as int,
            offset as nat,
            length as nat,
            api_key@,
        ),
{
    let mut q: Vec<(String, String)> = Vec::new();
    q.push((String::from_str("frequency"), String::from_str("hourly")));
    q.push((String::from_str("data[0]"), String::from_str("value")));
    q.push((String::from_str("facets[respondent][]"), String::from_str(respondent)));
    q.push((String::from_str("start"), eia_period(start)));
    q.push((String::from_str("end"), eia_period(end)));
    q.push((String::from_str("sort[0][column]"), String::from_str("period")));
    q.push((String::from_str("sort[0][direction]"), String::from_str("asc")));
    q.push((String::from_str("offset"), decimal_string(offset as u128)));
    q.push((String::from_str("length"), decimal_string(length as u128)));
    q.push((String::from_str("api_key"), String::from_str(api_key)));
    assert(pair_views(q@) =~= query_spec(
        respondent@,
        start as int,
        end as int,
        offset as nat,
        length as nat,
        api_key@,
    ));
    q
}

/// A reported row total given as text: surrounding whitespace is ignored,
/// then it must read as `usize::from_str` reads a number (an optional `+`
/// and one or more decimal digits whose value fits in a `usize`).
pub open spec fn total_text(s: Seq<char>) -> Option<usize> {
    let d = unsigned_digits(trim_seq(s));
    if d.len() > 0 && all_digits(d) && digits_value(d) <= usize::MAX {
        Some(digits_value(d) as usize)
    } else {
        None
    }
}

/// Read a row total that the API reported as text.
pub fn parse_total_text(s: &str) -> (r: Option<usize>)
    ensures
        r == total_text(s@),
{
    let v = chars_of(s);
    let n = v.len();
    let a = skip_ws_start(&v, 0, n);
    let b = skip_ws_end(&v, a, n);
    let ghost t = v@.subrange(a as int, b as int);
    assert(t =~= trim_seq(s@));
    let from = if a < b && v[a] == '+' {
        a + 1
    } else {
        a
    };
    assert(v@.subrange(from as int, b as int) =~= unsigned_digits(t));
    match parse_digits_capped(&v, from, b, usize::MAX as u64) {
        Some(x) => Some(x as usize),
        None => None,
    }
}

/// Whether paging stops after a page: an empty page, or a reported total
/// that the rows fetched so far have reached.
pub fn page_done(got: usize, fetched: usize, total: Option<usize>) -> (done: bool)
    ensures
        done == (got == 0 || (total matches Some(t) && fetched >= t)),
{
    if got == 0 {
        return true;
    }
    match total {
        Some(t) => fetched >= t,
        None => false,
    }
}

/// Methodology label of observations derived from EIA-930 and eGRID.
pub const DERIVATION_METHODOLOGY: &'static str = "eia-930-v1+egrid-2023-ba";

/// What derivation made of one parsed region-hour.
#[derive(Debug)]
pub struct HourOutcome {
    /// UTC start of the hour.
    pub at: i128,
    /// Region the EIA rows were reported for.
    pub region: Region,
    /// The derived intensity and its warnings, or `None` when the hour had
    /// no positive generation (a gap).
    pub derived: Option<(Intensity, Vec<String>)>,
}

/// The hours are strictly ascending by timestamp.
pub open spec fn hours_ascending(h: Seq<HourOutcome>) -> bool {
    forall|i: int, j: int| 0 <= i < j < h.len() ==> h[i].at < h[j].at
}

/// The derived hours' intensities, in order.
pub open spec fn derived_values(h: Seq<HourOutcome>) -> Seq<Intensity>
    decreases h.len(),
{
    if h.len() == 0 {
        seq![]
    } else {
        let t = derived_values(h.drop_last());
        match h.last().derived {
            Some(d) => t.push(d.0),
            None => t,
        }
    }
}

/// Derived times of ascending hours are strictly ascending, and none is
/// later than the last hour.
proof fn lemma_derived_times_ascending(h: Seq<HourOutcome>)
    requires
        hours_ascending(h),
    ensures
        forall|i: int, j: int| 0 <= i < j < derived_times(h).len() ==> derived_times(h)[i]
            < derived_times(h)[j],
        h.len() > 0 ==> forall|i: int| 0 <= i < derived_times(h).len() ==> derived_times(h)[i]
            <= h.last().at,
    decreases h.len(),
{
    if h.len() > 0 {
        let d = h.drop_last();
        assert(hours_ascending(d)) by {
            assert forall|i: int, j: int| 0 <= i < j < d.len() implies d[i].at < d[j].at by {
                assert(d[i] == h[i] && d[j] == h[j]);
            }
        }
        lemma_derived_times_ascending(d);
        let t = derived_times(d);
        if d.len() > 0 {
            assert(d.last() == h[h.len() - 2]);
            assert(d.last().at < h.last().at);
        } else {
            assert(t.len() == 0);
        }
        assert forall|i: int| 0 <= i < t.len() implies t[i] < h.last().at by {}
        match h.last().derived {
            Some(x) => {
                assert(derived_times(h) == t.push(h.last().at));
            },
            None => {
                assert(derived_times(h) == t);
            },
        }
    }
}

/// Append each of `new` to `acc` unless it is already there.
pub open spec fn merge_unique(acc: Seq<Seq<char>>, new: Seq<Seq<char>>) -> Seq<Seq<char>>
    decreases new.len(),
{
    if new.len() == 0 {
        acc
    } else {
        let a = merge_unique(acc, new.drop_last());
        if a.contains(new.last()) {
            a
        } else {
            a.push(new.last())
        }
    }
}

/// The warnings of the derived hours in order, without repeats.
pub open spec fn derived_warnings(h: Seq<HourOutcome>) -> Seq<Seq<char>>
    decreases h.len(),
{
    if h.len() == 0 {
        seq![]
    } else {
        let w = derived_warnings(h.drop_last());
        match h.last().derived {
            Some(d) => merge_unique(w, views(d.1@)),
            None => w,
        }
    }
}

/// The derived hours' observation times, in order.
pub open spec fn derived_times(h: Seq<HourOutcome>) -> Seq<i128>
    decreases h.len(),
{
    if h.len() == 0 {
        seq![]
    } else {
        let t = derived_times(h.drop_last());
        match h.last().derived {
            Some(d) => t.push(h.last().at),
            None => t,
        }
    }
}

/// How many hours were gaps.
pub open spec fn gap_count(h: Seq<HourOutcome>) -> nat
    decreases h.len(),
{
    if h.len() == 0 {
        0
    } else {
        gap_count(h.drop_last()) + if h.last().derived is None {
            1nat
        } else {
            0nat
        }
    }
}

/// The first hour reported for another region, if any.
pub open spec fn first_foreign(h: Seq<HourOutcome>, region: Region) -> Option<int> {
    if exists|i: int| 0 <= i < h.len() && h[i].region != region {
        Some(choose|i: int| 0 <= i < h.len() && h[i].region != region && forall|j: int| 0 <= j < i ==> h[j].region == region)
    } else {
        None
    }
}

/// `EIA returned {other} data while refreshing {region}`
pub open spec fn foreign_message(other: Region, region: Region) -> Seq<char> {
    "EIA returned "@ + region_code(other) + " data while refreshing "@ + region_code(region)
}

/// `no usable observations derived for {region} in the requested window (parsed {n} hours, {k} had no positive generation)`
pub open spec fn empty_note(region: Region, parsed: nat, skipped: nat) -> Seq<char> {
    "no usable observations derived for "@ + region_code(region)
        + " in the requested window (parsed "@ + decimal(parsed) + " hours, "@ + decimal(skipped)
        + " had no positive generation)"@
}

/// The warnings written with a refresh: the derived hours' warnings
/// without repeats, preceded by a note when nothing was derived, capped.
pub open spec fn refresh_warnings(h: Seq<HourOutcome>, region: Region) -> Seq<Seq<char>> {
    let w = derived_warnings(h);
    if derived_times(h).len() == 0 {
        capped(seq![empty_note(region, h.len(), gap_count(h))] + w)
    } else {
        capped(w)
    }
}

proof fn lemma_gap_count_bound(h: Seq<HourOutcome>)
    ensures
        gap_count(h) <= h.len(),
        gap_count(h) + derived_times(h).len() == h.len(),
    decreases h.len(),
{
    if h.len() > 0 {
        lemma_gap_count_bound(h.drop_last());
    }
}

/// Fold the derived hours of one region's refresh: the observations in
/// order, how many hours were parsed and how many were gaps, and the
/// warnings. An hour reported for another region is refused as malformed.
pub fn collect_derived(hours: Vec<HourOutcome>, region: Region) -> (r: Result<
    (Vec<CarbonObservation>, usize, usize, Vec<String>),
    EiaError,
>)
    ensures
        ({
            let h = hours@;
            match first_foreign(h, region) {
                Some(i) => r matches Err(EiaError::Malformed(m)) && m@ == foreign_message(
                    h[i].region,
                    region,
                ),
                None => r matches Ok(out) && out.0@.map_values(|o: CarbonObservation| o.at)
                    == derived_times(h) && out.0@.map_values(|o: CarbonObservation| o.intensity)
                    == derived_values(h) && out.0@.len() == derived_times(h).len() && (forall|i: int|
                    0 <= i < out.0@.len() ==> (#[trigger] out.0@[i]).at == derived_times(h)[i]
                        && out.0@[i].intensity == derived_values(h)[i]) && (forall|i: int|
                    0 <= i < out.0@.len() ==> (#[trigger] out.0@[i]).methodology@
                        == DERIVATION_METHODOLOGY@) && (hours_ascending(h) ==> strictly_ascending(
                    out.0@,
                )) && out.1 == h.len() && out.2 == gap_count(h) && views(
                    out.3@,
                ) == refresh_warnings(h, region),
            }
        }),
{
    let ghost h = hours@;
    let n = hours.len();
    let mut i: usize = 0;
    while i < n
        invariant
            n == hours@.len(),
            h == hours@,
            i <= n,
            forall|j: int| 0 <= j < i ==> h[j].region == region,
        decreases n - i,
    {
        if hours[i].region != region {
            let other = hours[i].region;
            let mut m = String::from_str("EIA returned ");
            push_str(&mut m, other.as_code());
            push_str(&mut m, " data while refreshing ");
            push_str(&mut m, region.as_code());
            proof {
                assert(exists|k: int| 0 <= k < h.len() && h[k].region != region);
                let c = choose|k: int|
                    0 <= k < h.len() && h[k].region != region && forall|j: int|
                        0 <= j < k ==> h[j].region == region;
                assert(0 <= i < h.len() && h[i as int].region != region && forall|j: int|
                    0 <= j < i ==> h[j].region == region);
                if c < i {
                } else if c > i {
                    assert(h[i as int].region == region);
                }
                assert(c == i);
                assert(m@ =~= foreign_message(h[i as int].region, region));
            }
            return Err(EiaError::Malformed(m));
        }
        i = i + 1;
    }
    proof {
        assert(!(exists|k: int| 0 <= k < h.len() && h[k].region != region));
    }
    let mut observations: Vec<CarbonObservation> = Vec::new();
    let mut warnings: Vec<String> = Vec::new();
    let mut skipped: usize = 0;
    // Reverse once, so that popping takes the hours from the front.
    let mut src = hours;
    let mut rest: Vec<HourOutcome> = Vec::new();
    while src.len() > 0
        invariant
            src@.len() <= n,
            n == h.len(),
            src@ == h.take(src@.len() as int),
            rest@ == h.subrange(src@.len() as int, n as int).reverse(),
        decreases src@.len(),
    {
        let x = src.pop().unwrap();
        rest.push(x);
        assert(src@ =~= h.take(src@.len() as int));
        assert(rest@ =~= h.subrange(src@.len() as int, n as int).reverse());
    }
    let mut k: usize = 0;
    while rest.len() > 0
        invariant
            k + rest@.len() == n,
            n == h.len(),
            rest@ == h.subrange(k as int, n as int).reverse(),
            observations@.map_values(|o: CarbonObservation| o.at) == derived_times(h.take(k as int)),
            observations@.map_values(|o: CarbonObservation| o.intensity) == derived_values(
                h.take(k as int),
            ),
            forall|i: int|
                0 <= i < observations@.len() ==> (#[trigger] observations@[i]).methodology@
                    == DERIVATION_METHODOLOGY@,
            skipped == gap_count(h.take(k as int)),
            views(warnings@) == derived_warnings(h.take(k as int)),
        decreases rest@.len(),
    {
        let ghost before = rest@;
        let hour = rest.pop().unwrap();
        proof {
            assert(hour == h[k as int]);
            assert(h.take(k + 1).drop_last() =~= h.take(k as int));
            lemma_gap_count_bound(h.take(k as int));
            assert(rest@ =~= h.subrange(k + 1, n as int).reverse());
        }
        let at = hour.at;
        match hour.derived {
            Some((intensity, ws)) => {
                let ghost w0 = views(warnings@);
                let mut j: usize = 0;
                while j < ws.len()
                    invariant
                        j <= ws@.len(),
                        views(warnings@) == merge_unique(w0, views(ws@).take(j as int)),
                    decreases ws@.len() - j,
                {
                    let ghost prev = views(warnings@);
                    assert(views(ws@).take(j + 1).drop_last() =~= views(ws@).take(j as int));
                    let mut present = false;
                    let mut q: usize = 0;
                    while q < warnings.len()
                        invariant
                            q <= warnings@.len(),
                            j < ws@.len(),
                            present == exists|p: int| 0 <= p < q && warnings@[p]@ == ws@[j as int]@,
                        decreases warnings@.len() - q,
                    {
                        if string_eq(&warnings[q], &ws[j]) {
                            present = true;
                        }
                        q = q + 1;
                    }
                    proof {
                        if present {
                            let p = choose|p: int| 0 <= p < q && warnings@[p]@ == ws@[j as int]@;
                            assert(views(warnings@)[p] == views(ws@)[j as int]);
                            assert(prev.contains(views(ws@)[j as int]));
                        } else {
                            assert forall|p: int| 0 <= p < prev.len() implies prev[p] != views(ws@)[j as int] by {
                                assert(warnings@[p]@ != ws@[j as int]@);
                            }
                            assert(!prev.contains(views(ws@)[j as int]));
                        }
                    }
                    if !present {
                        warnings.push(copy_string(&ws[j]));
                    }
                    proof {
                        assert(views(warnings@) =~= merge_unique(w0, views(ws@).take(j + 1)));
                    }
                    j = j + 1;
                }
                proof {
                    assert(views(ws@).take(ws@.len() as int) =~= views(ws@));
                }
                let obs = CarbonObservation {
                    at,
                    intensity,
                    methodology: String::from_str(DERIVATION_METHODOLOGY),
                };
                observations.push(obs);
                proof {
                    assert(observations@.map_values(|o: CarbonObservation| o.at) =~= derived_times(
                        h.take(k + 1),
                    ));
                    assert(observations@.map_values(|o: CarbonObservation| o.intensity)
                        =~= derived_values(h.take(k + 1)));
                }
            },
            None => {
                skipped = skipped + 1;
            },
        }
        k = k + 1;
    }
    proof {
        assert(h.take(n as int) =~= h);
        lemma_gap_count_bound(h);
        assert forall|i: int| 0 <= i < observations@.len() implies (#[trigger] observations@[i]).at
            == derived_times(h)[i] && observations@[i].intensity == derived_values(h)[i] by {
            assert(observations@.map_values(|o: CarbonObservation| o.at)[i] == observations@[i].at);
            assert(observations@.map_values(|o: CarbonObservation| o.intensity)[i]
                == observations@[i].intensity);
        }
        if hours_ascending(h) {
            lemma_derived_times_ascending(h);
            assert forall|i: int| 0 <= i < observations@.len() - 1 implies #[trigger] observations@[i].at
                < observations@[i + 1].at by {
                assert(observations@.map_values(|o: CarbonObservation| o.at)[i] == observations@[i].at);
                assert(observations@.map_values(|o: CarbonObservation| o.at)[i + 1] == observations@[i + 1].at);
            }
        }
    }
    if observations.len() == 0 {
        let mut note = String::from_str("no usable observations derived for ");
        push_str(&mut note, region.as_code());
        push_str(&mut note, " in the requested window (parsed ");
        push_decimal(&mut note, n as u128);
        push_str(&mut note, " hours, ");
        push_decimal(&mut note, skipped as u128);
        push_str(&mut note, " had no positive generation)");
        assert(note@ =~= empty_note(region, n as nat, skipped as nat));
        warnings.insert(0, note);
        assert(views(warnings@) =~= seq![empty_note(region, h.len(), gap_count(h))]
            + derived_warnings(h));
    }
    cap_warnings(&mut warnings);
    Ok((observations, n, skipped, warnings))
}

/// Two strings hold the same characters.
pub fn string_eq(a: &String, b: &String) -> (r: bool)
    ensures
        r == (a@ == b@),
{
    let x = a.as_str();
    let y = b.as_str();
    let n = x.unicode_len();
    if n != y.unicode_len() {
        return false;
    }
    let mut i: usize = 0;
    while i < n
        invariant
            x@ == a@,
            y@ == b@,
            n == x@.len(),
            n == y@.len(),
            i <= n,
            forall|j: int| 0 <= j < i ==> x@[j] == y@[j],
        decreases n - i,
    {
        if x.get_char(i) != y.get_char(i) {
            assert(x@[i as int] != y@[i as int]);
            return false;
        }
        i = i + 1;
    }
    assert(x@ =~= y@);
    true
}

/// A new string with the same characters.
pub fn copy_string(a: &String) -> (r: String)
    ensures
        r@ == a@,
{
    String::from_str(a.as_str())
}

} // verus!
