//! Normalising EIA-930 `fuel-type-data` rows into per-region-hour fuel
//! mixes: respondent codes map to regions, periods are UTC hours, storage
//! is excluded, unknown fuels count as `UNK` with a note, and values that
//! are missing or unreadable are skipped (never read as zero).
//!
//! The rows' numeric values are `f64` bit patterns read by the caller;
//! a mix lists, per fuel, the values to be summed in row order.

use vstd::prelude::*;
use vstd::multiset::Multiset;

use crate::eia_error::EiaError;
use crate::fuel::{classify_fuel, classify_spec, FuelClass, FuelType};
use crate::instant::{valid_instant, NANOS_PER_DAY, NANOS_PER_HOUR};
use crate::region::{region_code, region_from_respondent, region_of_respondent, Region};
use crate::summary::code_rank;
use crate::text::{all_digits, chars_of, digits_value, is_digit, push_str, string_of, views};
use vstd::string::StringExecFns;

verus! {

broadcast use vstd::seq_lib::group_to_multiset_ensures, vstd::seq_lib::to_multiset_insert;

/// A row's `value` as the caller read it.
#[derive(Debug, Clone, PartialEq, Eq)]
pub enum RowValue {
    /// `null`, absent or blank: not reported that hour.
    Missing,
    /// A finite number (its `f64` bit pattern).
    Number(u64),
    /// Present but unreadable or non-finite; the reason.
    Invalid(String),
}

/// One row of the EIA response.
#[derive(Debug)]
pub struct RawRow {
    /// `YYYY-MM-DDTHH` (UTC).
    pub period: String,
    /// EIA balancing-authority code.
    pub respondent: String,
    /// EIA fuel code.
    pub fueltype: String,
    /// The generation value.
    pub value: RowValue,
}

/// The generation of one region-hour: per fuel (in `FuelType::ALL`
/// order), the values reported for it, in row order.
#[derive(Debug)]
pub struct FuelMixHour {
    /// UTC start of the hour.
    pub at: i128,
    /// Region of the respondent.
    pub region: Region,
    /// Nine lists, one per fuel; a fuel with no values has none.
    pub generation: Vec<Vec<u64>>,
    /// Notes on unknown fuels and skipped values, without repeats.
    pub notes: Vec<String>,
}

/// A mix as values.
pub struct MixView {
    pub at: int,
    pub region: Region,
    pub generation: Seq<Seq<u64>>,
    pub notes: Seq<Seq<char>>,
}

/// The view of a mix.
pub open spec fn mix_view(m: FuelMixHour) -> MixView {
    MixView {
        at: m.at as int,
        region: m.region,
        generation: m.generation@.map_values(|v: Vec<u64>| v@),
        notes: views(m.notes@),
    }
}

/// Position of a fuel in `FuelType::ALL`.
pub open spec fn fuel_rank(f: FuelType) -> int {
    match f {
        FuelType::Col => 0,
        FuelType::Ng => 1,
        FuelType::Nuc => 2,
        FuelType::Oil => 3,
        FuelType::Oth => 4,
        FuelType::Sun => 5,
        FuelType::Wat => 6,
        FuelType::Wnd => 7,
        FuelType::Unk => 8,
    }
}

fn fuel_rank_exec(f: FuelType) -> (k: usize)
    ensures
        k == fuel_rank(f),
{
    match f {
        FuelType::Col => 0,
        FuelType::Ng => 1,
        FuelType::Nuc => 2,
        FuelType::Oil => 3,
        FuelType::Oth => 4,
        FuelType::Sun => 5,
        FuelType::Wat => 6,
        FuelType::Wnd => 7,
        FuelType::Unk => 8,
    }
}

/// Index of the first non-digit character (or the length).
pub open spec fn first_non_digit(d: Seq<char>) -> int
    decreases d.len(),
{
    if d.len() == 0 {
        0
    } else if !is_digit(d[0]) {
        0
    } else {
        1 + first_non_digit(d.skip(1))
    }
}

/// `u8::from_str`, with `ParseIntError`'s messages.
pub open spec fn u8_text(s: Seq<char>) -> Result<u8, Seq<char>> {
    if s.len() == 0 {
        Err("cannot parse integer from empty string"@)
    } else {
        let d = if s[0] == '+' {
            s.skip(1)
        } else {
            s
        };
        let k = first_non_digit(d);
        if d.len() == 0 {
            Err("invalid digit found in string"@)
        } else if digits_value(d.take(k)) > 255 {
            Err("number too large to fit in target type"@)
        } else if k < d.len() {
            Err("invalid digit found in string"@)
        } else {
            Ok(digits_value(d) as u8)
        }
    }
}

proof fn lemma_first_non_digit(d: Seq<char>)
    ensures
        0 <= first_non_digit(d) <= d.len(),
        forall|j: int| 0 <= j < first_non_digit(d) ==> is_digit(#[trigger] d[j]),
        first_non_digit(d) < d.len() ==> !is_digit(d[first_non_digit(d)]),
    decreases d.len(),
{
    if d.len() > 0 && is_digit(d[0]) {
        lemma_first_non_digit(d.skip(1));
        assert forall|j: int| 0 <= j < first_non_digit(d) implies is_digit(#[trigger] d[j]) by {
            if j > 0 {
                assert(d[j] == d.skip(1)[j - 1]);
            }
        }
    }
}

proof fn lemma_digits_value_grows(s: Seq<char>, i: int, j: int)
    requires
        0 <= i <= j <= s.len(),
        forall|k: int| 0 <= k < j ==> is_digit(s[k]),
    ensures
        digits_value(s.take(i)) <= digits_value(s.take(j)),
    decreases j - i,
{
    if i < j {
        lemma_digits_value_grows(s, i, j - 1);
        assert(s.take(j).drop_last() =~= s.take(j - 1));
    }
}

/// Parse an hour field the way `u8::from_str` does.
fn parse_u8(v: &Vec<char>, from: usize, to: usize) -> (r: Result<u8, String>)
    requires
        from <= to <= v@.len(),
    ensures
        match u8_text(v@.subrange(from as int, to as int)) {
            Ok(x) => r == Ok::<u8, String>(x),
            Err(m) => r matches Err(e) && e@ == m,
        },
{
    let ghost s = v@.subrange(from as int, to as int);
    if from == to {
        return Err(String::from_str("cannot parse integer from empty string"));
    }
    let start: usize = if v[from] == '+' {
        from + 1
    } else {
        from
    };
    let ghost d = v@.subrange(start as int, to as int);
    assert(d =~= if s[0] == '+' {
        s.skip(1)
    } else {
        s
    });
    if start == to {
        return Err(String::from_str("invalid digit found in string"));
    }
    proof {
        lemma_first_non_digit(d);
    }
    let mut acc: u32 = 0;
    let mut i: usize = start;
    while i < to && '0' <= v[i] && v[i] <= '9'
        invariant
            start <= i <= to,
            to <= v@.len(),
            s == v@.subrange(from as int, to as int),
            s.len() > 0,
            d.len() > 0,
            d == (if s[0] == '+' {
                s.skip(1)
            } else {
                s
            }),
            d == v@.subrange(start as int, to as int),
            i - start <= first_non_digit(d),
            forall|j: int| 0 <= j < first_non_digit(d) ==> is_digit(#[trigger] d[j]),
            first_non_digit(d) < d.len() ==> !is_digit(d[first_non_digit(d)]),
            0 <= first_non_digit(d) <= d.len(),
            acc == digits_value(d.take(i - start)),
            acc <= 255,
        decreases to - i,
    {
        assert(d[i - start] == v@[i as int]);
        assert(d.take(i - start + 1).drop_last() =~= d.take(i - start));
        let next: u32 = acc * 10 + ((v[i] as u32) - 48);
        if next > 255 {
            proof {
                assert(is_digit(d[i - start]));
                assert(first_non_digit(d) != i - start);
                lemma_digits_value_grows(d, i - start + 1, first_non_digit(d));
            }
            return Err(String::from_str("number too large to fit in target type"));
        }
        acc = next;
        i = i + 1;
    }
    proof {
        if i < to {
            assert(d[i - start] == v@[i as int]);
            assert(!is_digit(d[i - start]));
        }
        assert(i - start == first_non_digit(d));
    }
    if i < to {
        return Err(String::from_str("invalid digit found in string"));
    }
    assert(d.take(d.len() as int) =~= d);
    Ok(acc as u8)
}

/// What `time` makes of the date half of a period (`[year]-[month]-[day]`):
/// the instant of that day's UTC midnight, or its parse error's message.
pub uninterp spec fn eia_date_of(s: Seq<char>) -> Result<i128, Seq<char>>;

/// Parses a date with `time::Date::parse` and the description
/// `[year]-[month]-[day]`, and takes its UTC midnight. The result depends
/// only on the text; `time`'s dates (years -9999 through 9999) keep every
/// hour of the day representable, and a UTC midnight is a whole number of
/// days from the epoch.
#[verifier::external_body]
pub(crate) fn parse_eia_date(s: &str) -> (r: Result<i128, String>)
    ensures
        match eia_date_of(s@) {
            Ok(t) => r == Ok::<i128, String>(t),
            Err(m) => r matches Err(e) && e@ == m,
        },
        r matches Ok(t) ==> valid_instant(t as int) && valid_instant(t + 23 * NANOS_PER_HOUR),
        r matches Ok(t) ==> t % NANOS_PER_DAY == 0,
{
    let format = time::format_description::parse("[year]-[month]-[day]").unwrap();
    match time::Date::parse(s, &format) {
        Ok(d) => Ok(d.midnight().assume_utc().unix_timestamp_nanos()),
        Err(e) => Err(e.to_string()),
    }
}

/// Checks an hour with `time::Time::from_hms(hour, 0, 0)`: in range for
/// 0 through 23; otherwise its `ComponentRange` error, which displays as
/// `hour was not in range`.
#[verifier::external_body]
fn check_hour(hour: u8) -> (r: Result<(), String>)
    ensures
        r is Ok <==> hour <= 23,
        r matches Err(e) ==> e@ == "hour was not in range"@,
{
    match time::Time::from_hms(hour, 0, 0) {
        Ok(_) => Ok(()),
        Err(e) => Err(e.to_string()),
    }
}

/// Index of the first `T` (or the length).
pub open spec fn first_t(p: Seq<char>) -> int
    decreases p.len(),
{
    if p.len() == 0 {
        0
    } else if p[0] == 'T' {
        0
    } else {
        1 + first_t(p.skip(1))
    }
}

proof fn lemma_first_t(p: Seq<char>)
    ensures
        0 <= first_t(p) <= p.len(),
        forall|j: int| 0 <= j < first_t(p) ==> #[trigger] p[j] != 'T',
        first_t(p) < p.len() ==> p[first_t(p)] == 'T',
    decreases p.len(),
{
    if p.len() > 0 && p[0] != 'T' {
        lemma_first_t(p.skip(1));
        assert forall|j: int| 0 <= j < first_t(p) implies #[trigger] p[j] != 'T' by {
            if j > 0 {
                assert(p[j] == p.skip(1)[j - 1]);
            }
        }
    }
}

/// `EIA period '{p}' ` — the prefix of every period error.
pub open spec fn period_prefix(p: Seq<char>) -> Seq<char> {
    "EIA period '"@ + p + "' "@
}

/// An EIA hourly period (`YYYY-MM-DDTHH`) read as a UTC instant.
pub open spec fn period_spec(p: Seq<char>) -> Result<int, Seq<char>> {
    let k = first_t(p);
    if k == p.len() {
        Err(period_prefix(p) + "missing 'T' hour separator"@)
    } else {
        match eia_date_of(p.take(k)) {
            Err(e) => Err(period_prefix(p) + "bad date: "@ + e),
            Ok(t) => match u8_text(p.skip(k + 1)) {
                Err(e) => Err(period_prefix(p) + "bad hour: "@ + e),
                Ok(h) => if h > 23 {
                    Err(period_prefix(p) + "hour out of range: "@ + "hour was not in range"@)
                } else {
                    Ok(t + h * NANOS_PER_HOUR)
                },
            },
        }
    }
}

/// Parse an EIA hourly period as a UTC instant.
pub fn parse_eia_period(period: &str) -> (r: Result<i128, EiaError>)
    ensures
        match period_spec(period@) {
            Ok(t) => r matches Ok(x) && x == t && valid_instant(t),
            Err(m) => r matches Err(EiaError::Malformed(e)) && e@ == m,
        },
{
    let v = chars_of(period);
    let n = v.len();
    let mut k: usize = 0;
    proof {
        lemma_first_t(period@);
    }
    while k < n && v[k] != 'T'
        invariant
            k <= n,
            n == v@.len(),
            v@ == period@,
            k <= first_t(period@),
            forall|j: int| 0 <= j < first_t(period@) ==> #[trigger] period@[j] != 'T',
            first_t(period@) < period@.len() ==> period@[first_t(period@)] == 'T',
            0 <= first_t(period@) <= period@.len(),
        decreases n - k,
    {
        k = k + 1;
    }
    assert(k == first_t(period@));
    let mut e = String::from_str("EIA period '");
    push_str(&mut e, period);
    push_str(&mut e, "' ");
    if k == n {
        push_str(&mut e, "missing 'T' hour separator");
        return Err(EiaError::Malformed(e));
    }
    assert(v@.subrange(0, k as int) =~= period@.take(k as int));
    assert(v@.subrange(k + 1, n as int) =~= period@.skip(k + 1));
    let midnight = match parse_eia_date(string_of(&v, 0, k).as_str()) {
        Ok(t) => t,
        Err(m) => {
            push_str(&mut e, "bad date: ");
            push_str(&mut e, m.as_str());
            return Err(EiaError::Malformed(e));
        },
    };
    let hour = match parse_u8(&v, k + 1, n) {
        Ok(h) => h,
        Err(m) => {
            push_str(&mut e, "bad hour: ");
            push_str(&mut e, m.as_str());
            return Err(EiaError::Malformed(e));
        },
    };
    match check_hour(hour) {
        Ok(()) => {},
        Err(m) => {
            push_str(&mut e, "hour out of range: ");
            push_str(&mut e, m.as_str());
            return Err(EiaError::Malformed(e));
        },
    }
    Ok(midnight + (hour as i128) * NANOS_PER_HOUR)
}


/// `unexpected EIA respondent code '{code}' (only the seven Phase-0 regions are queried)`
pub open spec fn respondent_message(code: Seq<char>) -> Seq<char> {
    "unexpected EIA respondent code '"@ + code
        + "' (only the seven Phase-0 regions are queried)"@
}

/// `unrecognized EIA fuel code '{code}' mapped to UNK`
pub open spec fn unknown_note(code: Seq<char>) -> Seq<char> {
    "unrecognized EIA fuel code '"@ + code + "' mapped to UNK"@
}

/// `skipped {fuel} value at {period}: {reason}`
pub open spec fn skipped_note(fuel: Seq<char>, period: Seq<char>, reason: Seq<char>) -> Seq<char> {
    "skipped "@ + fuel + " value at "@ + period + ": "@ + reason
}

/// `notes` with `n` appended unless already there.
pub open spec fn add_note(notes: Seq<Seq<char>>, n: Seq<char>) -> Seq<Seq<char>> {
    if notes.contains(n) {
        notes
    } else {
        notes.push(n)
    }
}

/// A new region-hour with nothing reported yet.
pub open spec fn empty_mix(at: int, region: Region) -> MixView {
    MixView { at, region, generation: Seq::new(9, |i: int| Seq::<u64>::empty()), notes: seq![] }
}

/// Index of the region-hour `(at, region)`, or the length when absent.
pub open spec fn find_mix(gs: Seq<MixView>, at: int, region: Region) -> int
    decreases gs.len(),
{
    if gs.len() == 0 {
        0
    } else {
        let k = find_mix(gs.drop_last(), at, region);
        if k < gs.len() - 1 {
            k
        } else if gs.last().at == at && gs.last().region == region {
            gs.len() - 1
        } else {
            gs.len() as int
        }
    }
}

/// Add one row's value to its region-hour.
pub open spec fn apply_row(g: MixView, fuel: int, unknown: bool, row: RawRow) -> MixView {
    match row.value {
        RowValue::Missing => g,
        RowValue::Number(b) => MixView {
            generation: g.generation.update(fuel, g.generation[fuel].push(b)),
            notes: if unknown {
                add_note(g.notes, unknown_note(row.fueltype@))
            } else {
                g.notes
            },
            ..g
        },
        RowValue::Invalid(reason) => MixView {
            notes: add_note(g.notes, skipped_note(row.fueltype@, row.period@, reason@)),
            ..g
        },
    }
}

/// Process one row: refuse an unknown respondent or a bad period; drop
/// storage; otherwise add the row to its region-hour (created on first
/// sight).
pub open spec fn step(gs: Seq<MixView>, row: RawRow) -> Result<Seq<MixView>, Seq<char>> {
    match region_of_respondent(row.respondent@) {
        None => Err(respondent_message(row.respondent@)),
        Some(region) => match period_spec(row.period@) {
            Err(m) => Err(m),
            Ok(at) => match classify_spec(row.fueltype@) {
                FuelClass::Storage => Ok(gs),
                c => {
                    let fuel = match c {
                        FuelClass::Generation(f) => fuel_rank(f),
                        _ => 8,
                    };
                    let unknown = c is Unknown;
                    let k = find_mix(gs, at, region);
                    let gs1 = if k == gs.len() {
                        gs.push(empty_mix(at, region))
                    } else {
                        gs
                    };
                    Ok(gs1.update(k, apply_row(gs1[k], fuel, unknown, row)))
                },
            },
        },
    }
}

/// The region-hours of the rows in order of first sight, or the first
/// row's error.
pub open spec fn accumulate(rows: Seq<RawRow>) -> Result<Seq<MixView>, Seq<char>>
    decreases rows.len(),
{
    if rows.len() == 0 {
        Ok(seq![])
    } else {
        match accumulate(rows.drop_last()) {
            Err(m) => Err(m),
            Ok(gs) => step(gs, rows.last()),
        }
    }
}

/// `a` comes before `b`: earlier hour, then the region's code.
pub open spec fn mix_before(a: MixView, b: MixView) -> bool {
    a.at < b.at || (a.at == b.at && code_rank(a.region) < code_rank(b.region))
}

pub(crate) proof fn lemma_find_mix(gs: Seq<MixView>, at: int, region: Region)
    ensures
        0 <= find_mix(gs, at, region) <= gs.len(),
        find_mix(gs, at, region) < gs.len() ==> gs[find_mix(gs, at, region)].at == at
            && gs[find_mix(gs, at, region)].region == region,
        forall|j: int|
            0 <= j < find_mix(gs, at, region) ==> !(#[trigger] gs[j].at == at && gs[j].region
                == region),
    decreases gs.len(),
{
    if gs.len() > 0 {
        let d = gs.drop_last();
        lemma_find_mix(d, at, region);
        assert forall|j: int| 0 <= j < find_mix(gs, at, region) implies !(#[trigger] gs[j].at == at
            && gs[j].region == region) by {
            if j < d.len() {
                assert(gs[j] == d[j]);
            }
        }
    }
}

/// Nine empty lists.
fn empty_generation() -> (g: Vec<Vec<u64>>)
    ensures
        g@.len() == 9,
        forall|i: int| 0 <= i < 9 ==> (#[trigger] g@[i])@.len() == 0,
{
    let mut g: Vec<Vec<u64>> = Vec::new();
    let mut i: usize = 0;
    while i < 9
        invariant
            i <= 9,
            g@.len() == i,
            forall|j: int| 0 <= j < i ==> (#[trigger] g@[j])@.len() == 0,
        decreases 9 - i,
    {
        g.push(Vec::new());
        i = i + 1;
    }
    g
}

fn contains_text(v: &Vec<String>, t: &String) -> (b: bool)
    ensures
        b == views(v@).contains(t@),
{
    let mut i: usize = 0;
    while i < v.len()
        invariant
            i <= v@.len(),
            forall|j: int| 0 <= j < i ==> v@[j]@ != t@,
        decreases v@.len() - i,
    {
        if crate::refresh::string_eq(&v[i], t) {
            assert(views(v@)[i as int] == t@);
            return true;
        }
        i = i + 1;
    }
    assert forall|j: int| 0 <= j < views(v@).len() implies views(v@)[j] != t@ by {
        assert(v@[j]@ != t@);
    }
    false
}

/// Views of nested lists.
pub open spec fn gen_view(g: Seq<Vec<u64>>) -> Seq<Seq<u64>> {
    g.map_values(|v: Vec<u64>| v@)
}

/// Add one row to a region-hour.
fn apply_row_exec(m: &mut FuelMixHour, fuel: usize, unknown: bool, row: &RawRow)
    requires
        fuel < 9,
        old(m).generation@.len() == 9,
    ensures
        mix_view(*final(m)) == apply_row(mix_view(*old(m)), fuel as int, unknown, *row),
        final(m).generation@.len() == 9,
{
    let ghost g0 = mix_view(*m);
    match &row.value {
        RowValue::Missing => {},
        RowValue::Number(b) => {
            let mut slot = m.generation.remove(fuel);
            slot.push(*b);
            m.generation.insert(fuel, slot);
            assert(gen_view(m.generation@) =~= g0.generation.update(
                fuel as int,
                g0.generation[fuel as int].push(*b),
            ));
            if unknown {
                let mut note = String::from_str("unrecognized EIA fuel code '");
                push_str(&mut note, row.fueltype.as_str());
                push_str(&mut note, "' mapped to UNK");
                if !contains_text(&m.notes, &note) {
                    m.notes.push(note);
                    assert(views(m.notes@) =~= g0.notes.push(unknown_note(row.fueltype@)));
                }
            }
        },
        RowValue::Invalid(reason) => {
            let mut note = String::from_str("skipped ");
            push_str(&mut note, row.fueltype.as_str());
            push_str(&mut note, " value at ");
            push_str(&mut note, row.period.as_str());
            push_str(&mut note, ": ");
            push_str(&mut note, reason.as_str());
            if !contains_text(&m.notes, &note) {
                m.notes.push(note);
                assert(views(m.notes@) =~= g0.notes.push(
                    skipped_note(row.fueltype@, row.period@, reason@),
                ));
            }
        },
    }
}

/// Index of the region-hour `(at, region)`, or the length when absent.
fn find_mix_exec(gs: &Vec<FuelMixHour>, at: i128, region: Region) -> (k: usize)
    ensures
        k == find_mix(mix_views(gs@), at as int, region),
{
    let ghost vs = mix_views(gs@);
    proof {
        lemma_find_mix(vs, at as int, region);
    }
    let mut i: usize = 0;
    while i < gs.len()
        invariant
            i <= gs@.len(),
            vs == mix_views(gs@),
            0 <= find_mix(vs, at as int, region) <= vs.len(),
            find_mix(vs, at as int, region) < vs.len() ==> vs[find_mix(vs, at as int, region)].at
                == at && vs[find_mix(vs, at as int, region)].region == region,
            forall|j: int|
                0 <= j < find_mix(vs, at as int, region) ==> !(#[trigger] vs[j].at == at
                    && vs[j].region == region),
            forall|j: int| 0 <= j < i ==> !(gs@[j].at == at && gs@[j].region == region),
        decreases gs@.len() - i,
    {
        if gs[i].at == at && gs[i].region == region {
            assert(vs[i as int].at == at && vs[i as int].region == region);
            return i;
        }
        assert(!(vs[i as int].at == at && vs[i as int].region == region));
        i = i + 1;
    }
    assert(find_mix(vs, at as int, region) == vs.len()) by {
        if find_mix(vs, at as int, region) < vs.len() {
            let k = find_mix(vs, at as int, region);
            assert(!(gs@[k].at == at && gs@[k].region == region));
        }
    }
    i
}

/// Views of a list of mixes.
pub open spec fn mix_views(gs: Seq<FuelMixHour>) -> Seq<MixView> {
    gs.map_values(|m: FuelMixHour| mix_view(m))
}

proof fn lemma_error_persists(rows: Seq<RawRow>, j: int, m: Seq<char>)
    requires
        0 <= j <= rows.len(),
        accumulate(rows.take(j)) == Err::<Seq<MixView>, Seq<char>>(m),
    ensures
        accumulate(rows) == Err::<Seq<MixView>, Seq<char>>(m),
    decreases rows.len() - j,
{
    if j < rows.len() {
        assert(rows.take(j + 1).drop_last() =~= rows.take(j));
        lemma_error_persists(rows, j + 1, m);
    } else {
        assert(rows.take(j) =~= rows);
    }
}

/// Two mixes are for the same region-hour.
pub open spec fn same_key(a: MixView, b: MixView) -> bool {
    a.at == b.at && a.region == b.region
}

/// No region-hour occurs twice.
pub open spec fn keys_distinct(v: Seq<MixView>) -> bool {
    forall|i: int, j: int| 0 <= i < j < v.len() ==> !same_key(#[trigger] v[i], #[trigger] v[j])
}

/// Strictly ascending by hour, then by region code.
pub open spec fn mixes_strict(v: Seq<MixView>) -> bool {
    forall|i: int, j: int| 0 <= i < j < v.len() ==> mix_before(#[trigger] v[i], #[trigger] v[j])
}

/// The region-hours that `accumulate` collects are distinct: each row is
/// added to the existing mix of its region-hour, or starts a new one.
proof fn lemma_accumulate_keys_distinct(rows: Seq<RawRow>)
    ensures
        accumulate(rows) matches Ok(gs) ==> keys_distinct(gs),
    decreases rows.len(),
{
    if rows.len() > 0 {
        lemma_accumulate_keys_distinct(rows.drop_last());
        match accumulate(rows.drop_last()) {
            Err(_) => {},
            Ok(gs) => {
                let row = rows.last();
                match region_of_respondent(row.respondent@) {
                    None => {},
                    Some(region) => match period_spec(row.period@) {
                        Err(_) => {},
                        Ok(at) => match classify_spec(row.fueltype@) {
                            FuelClass::Storage => {},
                            c => {
                                let fuel = match c {
                                    FuelClass::Generation(f) => fuel_rank(f),
                                    _ => 8,
                                };
                                let unknown = c is Unknown;
                                lemma_find_mix(gs, at, region);
                                let k = find_mix(gs, at, region);
                                let gs1 = if k == gs.len() {
                                    gs.push(empty_mix(at, region))
                                } else {
                                    gs
                                };
                                let out = gs1.update(k, apply_row(gs1[k], fuel, unknown, row));
                                assert(keys_distinct(gs1)) by {
                                    if k == gs.len() {
                                        assert forall|i: int, j: int| 0 <= i < j < gs1.len() implies !same_key(
                                            #[trigger] gs1[i],
                                            #[trigger] gs1[j],
                                        ) by {
                                            if j == gs.len() {
                                                assert(gs1[i] == gs[i]);
                                                assert(!(gs[i].at == at && gs[i].region == region));
                                            } else {
                                                assert(gs1[i] == gs[i] && gs1[j] == gs[j]);
                                            }
                                        }
                                    }
                                }
                                assert(apply_row(gs1[k], fuel, unknown, row).at == gs1[k].at);
                                assert(apply_row(gs1[k], fuel, unknown, row).region == gs1[k].region);
                                assert forall|i: int, j: int| 0 <= i < j < out.len() implies !same_key(
                                    #[trigger] out[i],
                                    #[trigger] out[j],
                                ) by {
                                    assert(same_key(out[i], out[j]) == same_key(gs1[i], gs1[j]));
                                }
                                assert(accumulate(rows) == Ok::<Seq<MixView>, Seq<char>>(out));
                            },
                        },
                    },
                }
            },
        }
    }
}

/// Non-decreasing by hour, then by region code.
pub open spec fn mixes_sorted(v: Seq<MixView>) -> bool {
    forall|i: int, j: int| 0 <= i < j < v.len() ==> !mix_before(#[trigger] v[j], #[trigger] v[i])
}

fn before_exec(a: &FuelMixHour, b: &FuelMixHour) -> (r: bool)
    ensures
        r == mix_before(mix_view(*a), mix_view(*b)),
{
    a.at < b.at || (a.at == b.at && crate::summary::code_rank_exec(a.region)
        < crate::summary::code_rank_exec(b.region))
}

/// Sort mixes by hour, then region code.
fn sort_mixes(v: Vec<FuelMixHour>) -> (r: Vec<FuelMixHour>)
    requires
        forall|i: int| 0 <= i < v@.len() ==> (#[trigger] v@[i]).generation@.len() == 9,
    ensures
        mix_views(r@).to_multiset() == mix_views(v@).to_multiset(),
        mixes_sorted(mix_views(r@)),
        keys_distinct(mix_views(v@)) ==> mixes_strict(mix_views(r@)),
        forall|i: int| 0 <= i < r@.len() ==> (#[trigger] r@[i]).generation@.len() == 9,
{
    let mut out: Vec<FuelMixHour> = Vec::new();
    let mut rest = v;
    let ghost all = rest@;
    proof {
        broadcast use vstd::multiset::group_multiset_properties;
        assert(mix_views(out@) =~= Seq::<MixView>::empty());
        assert(mix_views(out@).to_multiset() =~= Multiset::empty());
        assert(mix_views(out@).to_multiset().add(mix_views(all).to_multiset()) =~= mix_views(
            all,
        ).to_multiset());
    }
    while rest.len() > 0
        invariant
            mix_views(out@).to_multiset().add(mix_views(rest@).to_multiset()) == mix_views(
                all,
            ).to_multiset(),
            mixes_sorted(mix_views(out@)),
            forall|i: int| 0 <= i < out@.len() ==> (#[trigger] out@[i]).generation@.len() == 9,
            forall|i: int| 0 <= i < rest@.len() ==> (#[trigger] rest@[i]).generation@.len() == 9,
            rest@.len() <= all.len(),
            rest@ == all.take(rest@.len() as int),
            keys_distinct(mix_views(all)) ==> keys_distinct(mix_views(out@)),
            keys_distinct(mix_views(all)) ==> forall|a: int, k: int|
                0 <= a < out@.len() && 0 <= k < rest@.len() ==> !same_key(
                    #[trigger] mix_view(out@[a]),
                    #[trigger] mix_view(rest@[k]),
                ),
        decreases rest@.len(),
    {
        let ghost before_rest = rest@;
        let x = rest.pop().unwrap();
        assert(before_rest =~= rest@.push(x));
        assert(x.generation@.len() == 9);
        assert(mix_views(before_rest) =~= mix_views(rest@).push(mix_view(x)));
        assert(before_rest[before_rest.len() - 1] == x);
        assert(rest@ =~= all.take(rest@.len() as int));
        let mut p: usize = 0;
        while p < out.len() && !before_exec(&x, &out[p])
            invariant
                p <= out@.len(),
                forall|k: int| 0 <= k < p ==> !mix_before(mix_view(x), #[trigger] mix_view(out@[k])),
            decreases out@.len() - p,
        {
            p = p + 1;
        }
        let ghost old_out = out@;
        out.insert(p, x);
        proof {
            let ov = mix_views(old_out);
            let n = mix_views(out@);
            assert(n =~= ov.insert(p as int, mix_view(x)));
            assert forall|i: int, j: int| 0 <= i < j < n.len() implies !mix_before(
                #[trigger] n[j],
                #[trigger] n[i],
            ) by {
                if i < p && j == p {
                    assert(!mix_before(mix_view(x), mix_view(old_out[i])));
                } else if i == p && j > p {
                    assert(mix_before(mix_view(x), ov[p as int]));
                    if j - 1 > p {
                        assert(!mix_before(ov[j - 1], ov[p as int]));
                    }
                } else if i < p && j > p {
                    assert(!mix_before(ov[j - 1], ov[i]));
                } else if i > p {
                    assert(!mix_before(ov[j - 1], ov[i - 1]));
                } else {
                    assert(!mix_before(ov[j], ov[i]));
                }
            }
            assert(n.to_multiset() == ov.to_multiset().insert(mix_view(x)));
            assert(mix_views(before_rest).to_multiset() == mix_views(rest@).to_multiset().insert(
                mix_view(x),
            ));
            broadcast use vstd::multiset::group_multiset_properties;
            assert(n.to_multiset().add(mix_views(rest@).to_multiset()) =~= ov.to_multiset().add(
                mix_views(before_rest).to_multiset(),
            ));
            assert forall|i: int| 0 <= i < out@.len() implies (#[trigger] out@[i]).generation@.len()
                == 9 by {
                if i < p {
                    assert(out@[i] == old_out[i]);
                } else if i > p {
                    assert(out@[i] == old_out[i - 1]);
                }
            }
            assert forall|i: int| 0 <= i < rest@.len() implies (#[trigger] rest@[i]).generation@.len()
                == 9 by {
                assert(rest@[i] == before_rest[i]);
            }
            if keys_distinct(mix_views(all)) {
                let m = rest@.len() as int;
                let av = mix_views(all);
                assert(x == all[m]);
                assert forall|a: int| 0 <= a < old_out.len() implies !same_key(
                    #[trigger] mix_view(old_out[a]),
                    mix_view(x),
                ) by {
                    assert(before_rest[m] == x);
                    assert(!same_key(mix_view(old_out[a]), mix_view(before_rest[m])));
                }
                assert forall|i: int, j: int| 0 <= i < j < n.len() implies !same_key(
                    #[trigger] n[i],
                    #[trigger] n[j],
                ) by {
                    if i < p && j == p {
                        assert(n[i] == ov[i]);
                        assert(!same_key(mix_view(old_out[i]), mix_view(x)));
                    } else if i == p && j > p {
                        assert(n[j] == ov[j - 1]);
                        assert(!same_key(mix_view(old_out[j - 1]), mix_view(x)));
                    } else if i < p && j > p {
                        assert(n[i] == ov[i] && n[j] == ov[j - 1]);
                    } else if i > p {
                        assert(n[i] == ov[i - 1] && n[j] == ov[j - 1]);
                    } else {
                        assert(n[i] == ov[i] && n[j] == ov[j]);
                    }
                }
                assert forall|a: int, k: int|
                    0 <= a < out@.len() && 0 <= k < rest@.len() implies !same_key(
                    #[trigger] mix_view(out@[a]),
                    #[trigger] mix_view(rest@[k]),
                ) by {
                    assert(rest@[k] == before_rest[k]);
                    assert(rest@[k] == all[k]);
                    assert(av[k] == mix_view(all[k]));
                    assert(av[m] == mix_view(all[m]));
                    if a < p {
                        assert(out@[a] == old_out[a]);
                    } else if a == p {
                        assert(out@[a] == x);
                        assert(!same_key(av[k], av[m]));
                    } else {
                        assert(out@[a] == old_out[a - 1]);
                    }
                }
            }
        }
    }
    proof {
        assert(mix_views(rest@) =~= Seq::<MixView>::empty());
        assert(mix_views(rest@).to_multiset() =~= Multiset::empty());
        assert(mix_views(out@).to_multiset().add(Multiset::empty()) =~= mix_views(out@).to_multiset());
        if keys_distinct(mix_views(v@)) {
            assert(all == v@);
            let ov = mix_views(out@);
            assert forall|i: int, j: int| 0 <= i < j < ov.len() implies mix_before(
                #[trigger] ov[i],
                #[trigger] ov[j],
            ) by {
                assert(!mix_before(ov[j], ov[i]));
                assert(!same_key(ov[i], ov[j]));
            }
        }
    }
    out
}

/// Normalise EIA `fuel-type-data` rows into per-region-hour fuel mixes,
/// ordered by hour and then region code. The first row with an unknown
/// respondent or a malformed period makes the whole response malformed.
pub fn parse_fuel_type_data(rows: &Vec<RawRow>) -> (r: Result<Vec<FuelMixHour>, EiaError>)
    ensures
        match accumulate(rows@) {
            Err(m) => r matches Err(EiaError::Malformed(e)) && e@ == m,
            Ok(gs) => r matches Ok(out) && mix_views(out@).to_multiset() == gs.to_multiset()
                && mixes_strict(mix_views(out@)) && forall|i: int|
                0 <= i < out@.len() ==> (#[trigger] out@[i]).generation@.len() == 9,
        },
        r matches Ok(out) ==> forall|i: int, j: int|
            0 <= i < j < out@.len() && out@[i].region == out@[j].region ==> out@[i].at
                < out@[j].at,
{
    let mut gs: Vec<FuelMixHour> = Vec::new();
    let mut i: usize = 0;
    assert(rows@.take(0) =~= Seq::<RawRow>::empty());
    assert(mix_views(gs@) =~= Seq::<MixView>::empty());
    while i < rows.len()
        invariant
            i <= rows@.len(),
            accumulate(rows@.take(i as int)) == Ok::<Seq<MixView>, Seq<char>>(mix_views(gs@)),
            forall|k: int| 0 <= k < gs@.len() ==> (#[trigger] gs@[k]).generation@.len() == 9,
        decreases rows@.len() - i,
    {
        let row = &rows[i];
        let ghost g0 = mix_views(gs@);
        proof {
            assert(rows@.take(i + 1).drop_last() =~= rows@.take(i as int));
            assert(rows@.take(i + 1).last() == *row);
        }
        let region = match region_from_respondent(row.respondent.as_str()) {
            Some(r) => r,
            None => {
                let mut m = String::from_str("unexpected EIA respondent code '");
                push_str(&mut m, row.respondent.as_str());
                push_str(&mut m, "' (only the seven Phase-0 regions are queried)");
                proof {
                    lemma_error_persists(rows@, i + 1, m@);
                }
                return Err(EiaError::Malformed(m));
            },
        };
        let at = match parse_eia_period(row.period.as_str()) {
            Ok(t) => t,
            Err(e) => {
                proof {
                    let m = period_spec(row.period@)->Err_0;
                    lemma_error_persists(rows@, i + 1, m);
                }
                return Err(e);
            },
        };
        let class = classify_fuel(row.fueltype.as_str());
        let (fuel, unknown): (usize, bool) = match class {
            FuelClass::Storage => (9, false),
            FuelClass::Generation(f) => (fuel_rank_exec(f), false),
            FuelClass::Unknown => (8, true),
        };
        if fuel < 9 {
            let k = find_mix_exec(&gs, at, region);
            proof {
                lemma_find_mix(g0, at as int, region);
            }
            if k == gs.len() {
                gs.push(
                    FuelMixHour {
                        at,
                        region,
                        generation: empty_generation(),
                        notes: Vec::new(),
                    },
                );
                proof {
                    let gv = mix_view(gs@[k as int]).generation;
                    assert forall|q: int| 0 <= q < 9 implies gv[q] == Seq::<u64>::empty() by {
                        assert(gs@[k as int].generation@[q]@.len() == 0);
                        assert(gv[q] =~= Seq::<u64>::empty());
                    }
                    assert(mix_view(gs@[k as int]).generation =~= empty_mix(
                        at as int,
                        region,
                    ).generation);
                    assert(mix_view(gs@[k as int]).notes =~= empty_mix(at as int, region).notes);
                    assert(mix_views(gs@) =~= g0.push(empty_mix(at as int, region)));
                }
            }
            let ghost g1 = mix_views(gs@);
            let mut m = gs.remove(k);
            apply_row_exec(&mut m, fuel, unknown, row);
            gs.insert(k, m);
            proof {
                assert(mix_views(gs@) =~= g1.update(k as int, apply_row(g1[k as int], fuel as int, unknown, *row)));
            }
        }
        i = i + 1;
    }
    proof {
        assert(rows@.take(i as int) =~= rows@);
        lemma_accumulate_keys_distinct(rows@);
    }
    let sorted = sort_mixes(gs);
    proof {
        let sv = mix_views(sorted@);
        assert forall|i: int, j: int|
            0 <= i < j < sorted@.len() && sorted@[i].region == sorted@[j].region implies sorted@[i].at
            < sorted@[j].at by {
            assert(mix_before(sv[i], sv[j]));
        }
    }
    Ok(sorted)
}
} // verus!
