//! Named profiles from the nami config file: resolving one against the
//! current time, and merging it under the flags given on the command line
//! (the flags win; the profile fills the gaps).

use vstd::prelude::*;
use vstd::multiset::Multiset;

use crate::duration_arg::{duration_arg, duration_arg_representable, parse_duration};
use crate::instant::{valid_duration, valid_instant, valid_zoned, MAX_OFFSET_SECONDS, NANOS_PER_SECOND};
use crate::region::{core_message, parse_region_spec, CoreError, Region};
use crate::resolve::{debug_quoted, debug_text};
use crate::run_report::{dur_text, joined, push_dur, push_joined};
use crate::text::{push_str, upper_seq, views};
use crate::timefmt::{rfc3339_zoned, zoned_rfc3339};
use vstd::string::StringExecFns;

verus! {

broadcast use vstd::seq_lib::group_to_multiset_ensures, vstd::seq_lib::to_multiset_insert;

/// A profile as written in the config file, every field optional.
#[derive(Debug)]
pub struct RawProfile {
    /// Region code.
    pub region: Option<String>,
    /// Expected duration (`2h`).
    pub duration: Option<String>,
    /// Deadline relative to now (`8h`).
    pub within: Option<String>,
    /// Absolute deadline (RFC 3339).
    pub deadline: Option<String>,
    /// Program and arguments.
    pub command: Option<Vec<String>>,
}

/// A profile resolved against the current time.
#[derive(Debug)]
pub struct ProfileFields {
    /// Profile name, for provenance messages.
    pub name: String,
    /// Region, when the profile sets one.
    pub region: Option<Region>,
    /// Duration (nanoseconds), when set.
    pub duration: Option<i128>,
    /// Deadline (UTC nanoseconds) and the UTC offset (seconds) it was
    /// written at, when set.
    pub deadline: Option<(i128, i32)>,
    /// Command, when set.
    pub command: Option<Vec<String>>,
}

/// What `time` makes of an RFC 3339 text: the instant (UTC nanoseconds)
/// and the UTC offset (seconds) it was written at, or its parse error's
/// message.
pub uninterp spec fn rfc3339_parsed(s: Seq<char>) -> Result<(i128, i32), Seq<char>>;

/// Parses an RFC 3339 date-time with `OffsetDateTime::parse(_, &Rfc3339)`;
/// the result depends only on the text. The offset of a parsed value is
/// a `UtcOffset`, within ±25:59:59, and its local date-time lies in
/// `time`'s range (the UTC instant itself may lie outside it).
#[verifier::external_body]
fn parse_rfc3339(s: &str) -> (r: Result<(i128, i32), String>)
    ensures
        match rfc3339_parsed(s@) {
            Ok(t) => r == Ok::<(i128, i32), String>(t),
            Err(m) => r matches Err(e) && e@ == m,
        },
        r matches Ok((t, o)) ==> -MAX_OFFSET_SECONDS <= o <= MAX_OFFSET_SECONDS && valid_instant(
            t + o * NANOS_PER_SECOND,
        ),
{
    match time::OffsetDateTime::parse(s, &time::format_description::well_known::Rfc3339) {
        Ok(dt) => Ok((dt.unix_timestamp_nanos(), dt.offset().whole_seconds())),
        Err(e) => Err(e.to_string()),
    }
}

/// `could not parse `{s}` as RFC 3339 datetime: {e}`
pub open spec fn datetime_arg(s: Seq<char>) -> Result<(int, int), Seq<char>> {
    match rfc3339_parsed(s) {
        Ok(t) => Ok((t.0 as int, t.1 as int)),
        Err(m) => Err("could not parse `"@ + s + "` as RFC 3339 datetime: "@ + m),
    }
}

/// Parse a deadline argument: the instant (UTC nanoseconds) and the UTC
/// offset (seconds) it was written at.
pub fn parse_datetime(s: &str) -> (r: Result<(i128, i32), String>)
    ensures
        match datetime_arg(s@) {
            Ok(t) => r matches Ok(x) && x.0 == t.0 && x.1 == t.1,
            Err(m) => r matches Err(e) && e@ == m,
        },
        r matches Ok((t, o)) ==> -MAX_OFFSET_SECONDS <= o <= MAX_OFFSET_SECONDS && valid_instant(
            t + o * NANOS_PER_SECOND,
        ),
{
    match parse_rfc3339(s) {
        Ok(t) => Ok(t),
        Err(e) => {
            let mut m = String::from_str("could not parse `");
            push_str(&mut m, s);
            push_str(&mut m, "` as RFC 3339 datetime: ");
            push_str(&mut m, e.as_str());
            Err(m)
        },
    }
}

/// `profile `{name}`: ` — the prefix of every profile error.
pub open spec fn prefix(name: Seq<char>) -> Seq<char> {
    "profile `"@ + name + "`: "@
}

/// A resolved profile, as values: region, duration, deadline, command.
pub type ProfileView = (Option<Region>, Option<int>, Option<(int, int)>, Option<Seq<Seq<char>>>);

/// Resolve a found profile against `now`, checking in order: `within`
/// and `deadline` together, the region, the duration (which must be
/// positive), the deadline or `within` (which must be positive), and a
/// non-empty command.
pub open spec fn resolved(name: Seq<char>, p: RawProfile, now: int) -> Result<ProfileView, Seq<char>> {
    if p.within is Some && p.deadline is Some {
        Err(prefix(name) + "`within` and `deadline` are mutually exclusive"@)
    } else if p.region is Some && parse_region_spec(p.region->0@) is None {
        Err(prefix(name) + "region "@ + debug_text(p.region->0@) + ": "@ + "unknown region: "@
            + upper_seq(p.region->0@))
    } else if p.duration is Some && duration_arg(p.duration->0@) is Err {
        Err(prefix(name) + "duration "@ + debug_text(p.duration->0@) + ": "@ + duration_arg(
            p.duration->0@,
        )->Err_0)
    } else if p.duration is Some && duration_arg(p.duration->0@)->Ok_0 <= 0 {
        Err(prefix(name) + "duration must be positive"@)
    } else if p.deadline is Some && datetime_arg(p.deadline->0@) is Err {
        Err(prefix(name) + "deadline "@ + debug_text(p.deadline->0@) + ": "@ + datetime_arg(
            p.deadline->0@,
        )->Err_0)
    } else if p.deadline is None && p.within is Some && duration_arg(p.within->0@) is Err {
        Err(prefix(name) + "within "@ + debug_text(p.within->0@) + ": "@ + duration_arg(
            p.within->0@,
        )->Err_0)
    } else if p.deadline is None && p.within is Some && duration_arg(p.within->0@)->Ok_0 <= 0 {
        Err(prefix(name) + "within must be positive"@)
    } else if p.command is Some && p.command->0@.len() == 0 {
        Err(prefix(name) + "command must not be empty"@)
    } else {
        Ok(
            (
                if p.region is Some {
                    parse_region_spec(p.region->0@)
                } else {
                    None
                },
                if p.duration is Some {
                    Some(duration_arg(p.duration->0@)->Ok_0)
                } else {
                    None
                },
                if p.deadline is Some {
                    Some(datetime_arg(p.deadline->0@)->Ok_0)
                } else if p.within is Some {
                    Some((now + duration_arg(p.within->0@)->Ok_0, 0))
                } else {
                    None
                },
                if p.command is Some {
                    Some(views(p.command->0@))
                } else {
                    None
                },
            ),
        )
    }
}

/// The duration texts can be held, and `now` plus a positive `within`
/// is a representable instant.
pub open spec fn profile_representable(p: RawProfile, now: int) -> bool {
    &&& (p.duration matches Some(d) ==> duration_arg_representable(d@))
    &&& (p.within matches Some(w) ==> duration_arg_representable(w@))
    &&& (p.within is Some && p.deadline is None && duration_arg(p.within->0@) is Ok
        && duration_arg(p.within->0@)->Ok_0 > 0 ==> valid_instant(
        now + duration_arg(p.within->0@)->Ok_0,
    ))
}

/// Index of the first profile named `name`.
pub open spec fn find_profile(profiles: Seq<(String, RawProfile)>, name: Seq<char>) -> Option<int> {
    if exists|i: int| 0 <= i < profiles.len() && profiles[i].0@ == name {
        Some(choose|i: int| 0 <= i < profiles.len() && profiles[i].0@ == name && forall|j: int| 0 <= j < i ==> profiles[j].0@ != name)
    } else {
        None
    }
}

fn same_text(a: &str, b: &str) -> (r: bool)
    ensures
        r == (a@ == b@),
{
    crate::refresh::string_eq(&String::from_str(a), &String::from_str(b))
}

fn copy_strings(v: &Vec<String>) -> (r: Vec<String>)
    ensures
        views(r@) == views(v@),
{
    let mut r: Vec<String> = Vec::new();
    let mut i: usize = 0;
    while i < v.len()
        invariant
            i <= v@.len(),
            r@.len() == i,
            forall|k: int| 0 <= k < i ==> (#[trigger] r@[k])@ == v@[k]@,
        decreases v@.len() - i,
    {
        r.push(String::from_str(v[i].as_str()));
        i = i + 1;
    }
    assert(views(r@) =~= views(v@));
    r
}

/// Resolve a found profile against `now`.
pub fn resolve_raw(name: &str, p: &RawProfile, now: i128) -> (r: Result<ProfileFields, String>)
    requires
        valid_instant(now as int),
        profile_representable(*p, now as int),
    ensures
        match resolved(name@, *p, now as int) {
            Ok(v) => r matches Ok(f) && f.name@ == name@ && f.region == v.0 && (match f.duration {
                Some(d) => v.1 == Some(d as int),
                None => v.1 is None,
            }) && (match f.deadline {
                Some(d) => v.2 == Some((d.0 as int, d.1 as int)),
                None => v.2 is None,
            }) && (match f.command {
                Some(c) => v.3 == Some(views(c@)),
                None => v.3 is None,
            }),
            Err(m) => r matches Err(e) && e@ == m,
        },
{
    let mut pre = String::from_str("profile `");
    push_str(&mut pre, name);
    push_str(&mut pre, "`: ");
    if p.within.is_some() && p.deadline.is_some() {
        push_str(&mut pre, "`within` and `deadline` are mutually exclusive");
        return Err(pre);
    }
    let region = match &p.region {
        Some(s) => match Region::parse(s.as_str()) {
            Ok(r) => Some(r),
            Err(e) => {
                push_str(&mut pre, "region ");
                push_str(&mut pre, debug_quoted(s.as_str()).as_str());
                push_str(&mut pre, ": ");
                push_str(&mut pre, e.message().as_str());
                return Err(pre);
            },
        },
        None => None,
    };
    let duration = match &p.duration {
        Some(s) => match parse_duration(s.as_str()) {
            Ok(d) => {
                if d <= 0 {
                    push_str(&mut pre, "duration must be positive");
                    return Err(pre);
                }
                Some(d)
            },
            Err(e) => {
                push_str(&mut pre, "duration ");
                push_str(&mut pre, debug_quoted(s.as_str()).as_str());
                push_str(&mut pre, ": ");
                push_str(&mut pre, e.as_str());
                return Err(pre);
            },
        },
        None => None,
    };
    let deadline = match &p.deadline {
        Some(s) => match parse_datetime(s.as_str()) {
            Ok(t) => Some(t),
            Err(e) => {
                push_str(&mut pre, "deadline ");
                push_str(&mut pre, debug_quoted(s.as_str()).as_str());
                push_str(&mut pre, ": ");
                push_str(&mut pre, e.as_str());
                return Err(pre);
            },
        },
        None => match &p.within {
            Some(s) => match parse_duration(s.as_str()) {
                Ok(w) => {
                    if w <= 0 {
                        push_str(&mut pre, "within must be positive");
                        return Err(pre);
                    }
                    Some((now + w, 0i32))
                },
                Err(e) => {
                    push_str(&mut pre, "within ");
                    push_str(&mut pre, debug_quoted(s.as_str()).as_str());
                    push_str(&mut pre, ": ");
                    push_str(&mut pre, e.as_str());
                    return Err(pre);
                },
            },
            None => None,
        },
    };
    let command = match &p.command {
        Some(c) => {
            if c.len() == 0 {
                push_str(&mut pre, "command must not be empty");
                return Err(pre);
            }
            Some(copy_strings(c))
        },
        None => None,
    };
    Ok(ProfileFields { name: String::from_str(name), region, duration, deadline, command })
}


/// `a` sorts strictly before `b` (character by character, a prefix first).
pub open spec fn text_lt(a: Seq<char>, b: Seq<char>) -> bool
    decreases a.len(),
{
    if a.len() == 0 {
        b.len() > 0
    } else if b.len() == 0 {
        false
    } else if a[0] != b[0] {
        a[0] < b[0]
    } else {
        text_lt(a.skip(1), b.skip(1))
    }
}

proof fn lemma_text_lt_trans(a: Seq<char>, b: Seq<char>, c: Seq<char>)
    requires
        text_lt(a, b),
        text_lt(b, c),
    ensures
        text_lt(a, c),
    decreases a.len(),
{
    if a.len() > 0 && b.len() > 0 && c.len() > 0 && a[0] == b[0] && b[0] == c[0] {
        lemma_text_lt_trans(a.skip(1), b.skip(1), c.skip(1));
    }
}

proof fn lemma_text_lt_total(a: Seq<char>, b: Seq<char>)
    ensures
        a == b || text_lt(a, b) || text_lt(b, a),
    decreases a.len(),
{
    if a.len() > 0 && b.len() > 0 && a[0] == b[0] {
        lemma_text_lt_total(a.skip(1), b.skip(1));
        if a.skip(1) == b.skip(1) {
            assert(a =~= seq![a[0]] + a.skip(1));
            assert(b =~= seq![b[0]] + b.skip(1));
        }
    } else if a.len() == 0 && b.len() == 0 {
        assert(a =~= b);
    }
}

proof fn lemma_text_lt_irrefl(a: Seq<char>)
    ensures
        !text_lt(a, a),
    decreases a.len(),
{
    if a.len() > 0 {
        lemma_text_lt_irrefl(a.skip(1));
    }
}

/// Non-decreasing in text order.
pub open spec fn text_sorted(v: Seq<Seq<char>>) -> bool {
    forall|i: int, j: int| 0 <= i < j < v.len() ==> !text_lt(#[trigger] v[j], #[trigger] v[i])
}

fn text_lt_exec(a: &str, b: &str) -> (r: bool)
    ensures
        r == text_lt(a@, b@),
{
    let x = crate::text::chars_of(a);
    let y = crate::text::chars_of(b);
    let mut i: usize = 0;
    assert(a@.skip(0) =~= a@);
    assert(b@.skip(0) =~= b@);
    while i < x.len() && i < y.len() && x[i] == y[i]
        invariant
            i <= x@.len(),
            i <= y@.len(),
            x@ == a@,
            y@ == b@,
            text_lt(a@, b@) == text_lt(a@.skip(i as int), b@.skip(i as int)),
        decreases x@.len() - i,
    {
        assert(a@.skip(i as int).skip(1) =~= a@.skip(i + 1));
        assert(b@.skip(i as int).skip(1) =~= b@.skip(i + 1));
        i = i + 1;
    }
    if i == x.len() {
        i < y.len()
    } else if i == y.len() {
        false
    } else {
        x[i] < y[i]
    }
}

/// Sort strings into text order.
fn sort_texts(v: Vec<String>) -> (r: Vec<String>)
    ensures
        views(r@).to_multiset() == views(v@).to_multiset(),
        text_sorted(views(r@)),
{
    let mut out: Vec<String> = Vec::new();
    let mut rest = v;
    let ghost all = views(rest@);
    proof {
        broadcast use vstd::multiset::group_multiset_properties;
        assert(views(out@) =~= Seq::<Seq<char>>::empty());
        assert(views(out@).to_multiset() =~= Multiset::empty());
        assert(views(out@).to_multiset().add(all.to_multiset()) =~= all.to_multiset());
    }
    while rest.len() > 0
        invariant
            views(out@).to_multiset().add(views(rest@).to_multiset()) == all.to_multiset(),
            text_sorted(views(out@)),
        decreases rest@.len(),
    {
        let ghost before_rest = views(rest@);
        let x = rest.pop().unwrap();
        assert(before_rest =~= views(rest@).push(x@));
        let mut p: usize = 0;
        while p < out.len() && !text_lt_exec(x.as_str(), out[p].as_str())
            invariant
                p <= out@.len(),
                forall|k: int| 0 <= k < p ==> !text_lt(x@, #[trigger] out@[k]@),
            decreases out@.len() - p,
        {
            p = p + 1;
        }
        let ghost old_out = views(out@);
        out.insert(p, x);
        proof {
            let n = views(out@);
            assert(n =~= old_out.insert(p as int, x@));
            assert forall|i: int, j: int| 0 <= i < j < n.len() implies !text_lt(
                #[trigger] n[j],
                #[trigger] n[i],
            ) by {
                if i < p && j == p {
                    assert(!text_lt(x@, old_out[i]));
                } else if i == p && j > p {
                    // x < old_out[p] <= old_out[j - 1]
                    assert(text_lt(x@, old_out[p as int]));
                    if j - 1 > p {
                        assert(!text_lt(old_out[j - 1], old_out[p as int]));
                    }
                    if text_lt(old_out[j - 1], x@) {
                        if j - 1 == p {
                            lemma_text_lt_trans(x@, old_out[p as int], x@);
                            lemma_text_lt_irrefl(x@);
                        } else {
                            lemma_text_lt_trans(old_out[j - 1], x@, old_out[p as int]);
                        }
                    }
                } else if i < p && j > p {
                    assert(!text_lt(old_out[j - 1], old_out[i]));
                } else if i > p {
                    assert(!text_lt(old_out[j - 1], old_out[i - 1]));
                } else {
                    assert(!text_lt(old_out[j], old_out[i]));
                }
            }
            assert(n.to_multiset() == old_out.to_multiset().insert(x@));
            assert(before_rest.to_multiset() == views(rest@).to_multiset().insert(x@));
            broadcast use vstd::multiset::group_multiset_properties;
            assert(n.to_multiset().add(views(rest@).to_multiset()) =~= old_out.to_multiset().add(
                before_rest.to_multiset(),
            ));
        }
    }
    proof {
        assert(views(rest@) =~= Seq::<Seq<char>>::empty());
        assert(views(rest@).to_multiset() =~= Multiset::empty());
        assert(views(out@).to_multiset().add(Multiset::empty()) =~= views(out@).to_multiset());
    }
    out
}

/// The names of the profiles, in order.
pub open spec fn profile_names(profiles: Seq<(String, RawProfile)>) -> Seq<Seq<char>> {
    profiles.map_values(|p: (String, RawProfile)| p.0@)
}

/// `no profile `{name}` in {path} (available: {names, sorted, or none})`
pub open spec fn not_found_text(name: Seq<char>, path: Seq<char>, sorted: Seq<Seq<char>>) -> Seq<char> {
    "no profile `"@ + name + "` in "@ + path + " (available: "@ + (if sorted.len() == 0 {
        "none"@
    } else {
        crate::summary::comma_joined(sorted)
    }) + ")"@
}

fn comma_join(v: &Vec<String>) -> (s: String)
    ensures
        s@ == crate::summary::comma_joined(views(v@)),
{
    let ghost vs = views(v@);
    let mut s = String::new();
    let mut i: usize = 0;
    while i < v.len()
        invariant
            i <= v@.len(),
            vs == views(v@),
            s@ == crate::summary::comma_joined(vs.take(i as int)),
        decreases v@.len() - i,
    {
        if i > 0 {
            push_str(&mut s, ", ");
        }
        push_str(&mut s, v[i].as_str());
        proof {
            assert(vs.take(i + 1).drop_last() =~= vs.take(i as int));
            if i == 0 {
                assert(vs.take(1) =~= seq![vs[0]]);
            }
        }
        i = i + 1;
        assert(s@ =~= crate::summary::comma_joined(vs.take(i as int)));
    }
    assert(vs.take(i as int) =~= vs);
    s
}

/// Resolve the profile `name` from the config file's profiles against
/// `now`; when there is none of that name, the error lists the profiles
/// there are, sorted.
pub fn resolve_profile(
    name: &str,
    profiles: &Vec<(String, RawProfile)>,
    config_path: &str,
    now: i128,
) -> (r: Result<ProfileFields, String>)
    requires
        valid_instant(now as int),
        forall|i: int|
            0 <= i < profiles@.len() && (#[trigger] profiles@[i]).0@ == name@ ==> profile_representable(
                profiles@[i].1,
                now as int,
            ),
    ensures
        match find_profile(profiles@, name@) {
            Some(i) => match resolved(name@, profiles@[i].1, now as int) {
                Ok(v) => r matches Ok(f) && f.name@ == name@ && f.region == v.0 && (match f.duration {
                    Some(d) => v.1 == Some(d as int),
                    None => v.1 is None,
                }) && (match f.deadline {
                    Some(d) => v.2 == Some((d.0 as int, d.1 as int)),
                    None => v.2 is None,
                }) && (match f.command {
                    Some(c) => v.3 == Some(views(c@)),
                    None => v.3 is None,
                }),
                Err(m) => r matches Err(e) && e@ == m,
            },
            None => r matches Err(e) && exists|order: Seq<Seq<char>>|
                order.to_multiset() == profile_names(profiles@).to_multiset() && text_sorted(order)
                    && e@ == not_found_text(name@, config_path@, order),
        },
{
    let mut i: usize = 0;
    while i < profiles.len()
        invariant
            i <= profiles@.len(),
            valid_instant(now as int),
            forall|j: int|
                0 <= j < profiles@.len() && (#[trigger] profiles@[j]).0@ == name@
                    ==> profile_representable(profiles@[j].1, now as int),
            forall|j: int| 0 <= j < i ==> profiles@[j].0@ != name@,
        decreases profiles@.len() - i,
    {
        if same_text(profiles[i].0.as_str(), name) {
            proof {
                let c = choose|k: int|
                    0 <= k < profiles@.len() && profiles@[k].0@ == name@ && forall|j: int|
                        0 <= j < k ==> profiles@[j].0@ != name@;
                assert(0 <= i < profiles@.len() && profiles@[i as int].0@ == name@);
                if c < i {
                } else if c > i {
                    assert(profiles@[i as int].0@ != name@);
                }
                assert(c == i);
            }
            return resolve_raw(name, &profiles[i].1, now);
        }
        i = i + 1;
    }
    let mut names: Vec<String> = Vec::new();
    let mut k: usize = 0;
    while k < profiles.len()
        invariant
            k <= profiles@.len(),
            names@.len() == k,
            forall|j: int| 0 <= j < k ==> (#[trigger] names@[j])@ == profiles@[j].0@,
        decreases profiles@.len() - k,
    {
        names.push(String::from_str(profiles[k].0.as_str()));
        k = k + 1;
    }
    assert(views(names@) =~= profile_names(profiles@));
    let sorted = sort_texts(names);
    let mut e = String::from_str("no profile `");
    push_str(&mut e, name);
    push_str(&mut e, "` in ");
    push_str(&mut e, config_path);
    push_str(&mut e, " (available: ");
    if sorted.len() == 0 {
        push_str(&mut e, "none");
    } else {
        push_str(&mut e, comma_join(&sorted).as_str());
    }
    push_str(&mut e, ")");
    assert(e@ =~= not_found_text(name@, config_path@, views(sorted@)));
    Err(e)
}

/// The job fields a profile can fill in.
#[derive(Debug)]
pub struct JobArgs {
    /// `--region`.
    pub region: Option<Region>,
    /// `--duration` (nanoseconds).
    pub duration: Option<i128>,
    /// `--deadline`: UTC nanoseconds and the UTC offset (seconds) it was
    /// written at.
    pub deadline: Option<(i128, i32)>,
    /// The command after `--`.
    pub command: Vec<String>,
}

/// The stderr lines announcing which fields came from the profile.
pub open spec fn merge_notes(a: JobArgs, p: ProfileFields) -> Seq<Seq<char>> {
    let n = p.name@;
    (if a.region is None && p.region is Some {
        seq![
            "nami: region "@ + crate::region::region_code(p.region->0) + " applied from profile `"@
                + n + "` (no --region given)"@,
        ]
    } else {
        seq![]
    }) + (if a.duration is None && p.duration is Some {
        seq![
            "nami: duration "@ + dur_text(p.duration->0 as int) + " applied from profile `"@ + n
                + "` (no --duration given)"@,
        ]
    } else {
        seq![]
    }) + (if a.deadline is None && p.deadline is Some {
        seq![
            "nami: deadline "@ + zoned_rfc3339((p.deadline->0).0, (p.deadline->0).1)
                + " applied from profile `"@ + n
                + "`"@,
        ]
    } else {
        seq![]
    }) + (if a.command@.len() == 0 && p.command is Some {
        seq![
            "nami: command applied from profile `"@ + n + "` ("@ + joined(views(p.command->0@))
                + ")"@,
        ]
    } else {
        seq![]
    })
}

/// Fill the fields not given on the command line from the profile; the
/// flags win. Returns one announcement per field taken from the profile.
pub fn merge_into(args: &mut JobArgs, profile: ProfileFields) -> (notes: Vec<String>)
    requires
        old(args).duration is None && profile.duration is Some ==> valid_duration(
            profile.duration->0 as int,
        ),
        old(args).deadline is None && profile.deadline is Some ==> valid_zoned(
            (profile.deadline->0).0 as int,
            (profile.deadline->0).1 as int,
        ),
    ensures
        final(args).region == (if old(args).region is Some {
            old(args).region
        } else {
            profile.region
        }),
        final(args).duration == (if old(args).duration is Some {
            old(args).duration
        } else {
            profile.duration
        }),
        final(args).deadline == (if old(args).deadline is Some {
            old(args).deadline
        } else {
            profile.deadline
        }),
        views(final(args).command@) == (if old(args).command@.len() == 0 && profile.command is Some {
            views(profile.command->0@)
        } else {
            views(old(args).command@)
        }),
        views(notes@) == merge_notes(*old(args), profile),
{
    let ghost a0 = *args;
    let ghost p0 = profile;
    let mut notes: Vec<String> = Vec::new();
    let ghost mut expect: Seq<Seq<char>> = seq![];
    if args.region.is_none() {
        if let Some(r) = profile.region {
            let mut m = String::from_str("nami: region ");
            push_str(&mut m, r.as_code());
            push_str(&mut m, " applied from profile `");
            push_str(&mut m, profile.name.as_str());
            push_str(&mut m, "` (no --region given)");
            notes.push(m);
            args.region = Some(r);
        }
    }
    proof {
        expect = if a0.region is None && p0.region is Some {
            seq![
                "nami: region "@ + crate::region::region_code(p0.region->0)
                    + " applied from profile `"@ + p0.name@ + "` (no --region given)"@,
            ]
        } else {
            seq![]
        };
        assert(views(notes@) =~= expect);
    }
    if args.duration.is_none() {
        if let Some(d) = profile.duration {
            let mut m = String::from_str("nami: duration ");
            push_dur(&mut m, d);
            push_str(&mut m, " applied from profile `");
            push_str(&mut m, profile.name.as_str());
            push_str(&mut m, "` (no --duration given)");
            let ghost before = views(notes@);
            notes.push(m);
            assert(views(notes@) =~= before.push(m@));
            args.duration = Some(d);
        }
    }
    proof {
        expect = expect + if a0.duration is None && p0.duration is Some {
            seq![
                "nami: duration "@ + dur_text(p0.duration->0 as int) + " applied from profile `"@
                    + p0.name@ + "` (no --duration given)"@,
            ]
        } else {
            seq![]
        };
        assert(views(notes@) =~= expect);
    }
    if args.deadline.is_none() {
        if let Some(dl) = profile.deadline {
            let mut m = String::from_str("nami: deadline ");
            push_str(&mut m, rfc3339_zoned(dl.0, dl.1).as_str());
            push_str(&mut m, " applied from profile `");
            push_str(&mut m, profile.name.as_str());
            push_str(&mut m, "`");
            let ghost before = views(notes@);
            notes.push(m);
            assert(views(notes@) =~= before.push(m@));
            args.deadline = Some(dl);
        }
    }
    proof {
        expect = expect + if a0.deadline is None && p0.deadline is Some {
            seq![
                "nami: deadline "@ + zoned_rfc3339((p0.deadline->0).0, (p0.deadline->0).1)
                    + " applied from profile `"@
                    + p0.name@ + "`"@,
            ]
        } else {
            seq![]
        };
        assert(views(notes@) =~= expect);
    }
    let name = profile.name;
    if args.command.len() == 0 {
        if let Some(c) = profile.command {
            let mut m = String::from_str("nami: command applied from profile `");
            push_str(&mut m, name.as_str());
            push_str(&mut m, "` (");
            push_joined(&mut m, &c);
            push_str(&mut m, ")");
            let ghost before = views(notes@);
            notes.push(m);
            assert(views(notes@) =~= before.push(m@));
            args.command = c;
        }
    }
    proof {
        expect = expect + if a0.command@.len() == 0 && p0.command is Some {
            seq![
                "nami: command applied from profile `"@ + p0.name@ + "` ("@ + joined(
                    views(p0.command->0@),
                ) + ")"@,
            ]
        } else {
            seq![]
        };
        assert(views(notes@) =~= expect);
        assert(expect =~= merge_notes(a0, p0));
    }
    notes
}
} // verus!
