//! Grid regions: codes, parsing, EIA respondent codes, and the
//! flag / environment / config-file resolution chain.

use vstd::prelude::*;

use crate::text::{
    chars_of, is_ws, lower_seq, skip_ws_end, skip_ws_start, slice_eq, string_of, trim_end_at,
    trim_seq, trim_start_at, upper_seq, upper_vec,
};

verus! {

/// A grid balancing authority that nami has carbon data for.
#[derive(Debug, Clone, Copy, PartialEq, Eq, Hash, Structural)]
pub enum Region {
    /// California ISO.
    Caiso,
    /// Electric Reliability Council of Texas.
    Ercot,
    /// Midcontinent ISO.
    Miso,
    /// PJM Interconnection.
    Pjm,
    /// New York ISO.
    Nyiso,
    /// ISO New England.
    IsoNe,
    /// Southwest Power Pool.
    Spp,
}

/// The canonical code of a region.
pub open spec fn region_code(r: Region) -> Seq<char> {
    match r {
        Region::Caiso => "CAISO"@,
        Region::Ercot => "ERCOT"@,
        Region::Miso => "MISO"@,
        Region::Pjm => "PJM"@,
        Region::Nyiso => "NYISO"@,
        Region::IsoNe => "ISONE"@,
        Region::Spp => "SPP"@,
    }
}

/// The region named by `s`, compared without regard to ASCII case.
pub open spec fn parse_region_spec(s: Seq<char>) -> Option<Region> {
    let u = upper_seq(s);
    if u == "CAISO"@ || u == "CAISO_NORTH"@ || u == "CAISO-NORTH"@ {
        Some(Region::Caiso)
    } else if u == "ERCOT"@ {
        Some(Region::Ercot)
    } else if u == "MISO"@ {
        Some(Region::Miso)
    } else if u == "PJM"@ {
        Some(Region::Pjm)
    } else if u == "NYISO"@ {
        Some(Region::Nyiso)
    } else if u == "ISONE"@ || u == "ISO_NE"@ || u == "ISO-NE"@ {
        Some(Region::IsoNe)
    } else if u == "SPP"@ {
        Some(Region::Spp)
    } else {
        None
    }
}

/// EIA-930 respondent code of a region.
pub open spec fn respondent_spec(r: Region) -> Seq<char> {
    match r {
        Region::Caiso => "CISO"@,
        Region::Ercot => "ERCO"@,
        Region::Miso => "MISO"@,
        Region::Pjm => "PJM"@,
        Region::Nyiso => "NYIS"@,
        Region::IsoNe => "ISNE"@,
        Region::Spp => "SWPP"@,
    }
}

/// The region whose EIA respondent code is exactly `code`.
pub open spec fn region_of_respondent(code: Seq<char>) -> Option<Region> {
    if code == "CISO"@ {
        Some(Region::Caiso)
    } else if code == "ERCO"@ {
        Some(Region::Ercot)
    } else if code == "MISO"@ {
        Some(Region::Miso)
    } else if code == "PJM"@ {
        Some(Region::Pjm)
    } else if code == "NYIS"@ {
        Some(Region::Nyiso)
    } else if code == "ISNE"@ {
        Some(Region::IsoNe)
    } else if code == "SWPP"@ {
        Some(Region::Spp)
    } else {
        None
    }
}

/// An error from parsing a region code.
#[derive(Debug)]
pub enum CoreError {
    /// The (upper-cased) text did not name a supported region.
    UnknownRegion(String),
    /// A job specification failed validation.
    InvalidJobSpec(String),
}

/// The message of a core error.
pub open spec fn core_message(e: CoreError) -> Seq<char> {
    match e {
        CoreError::UnknownRegion(t) => "unknown region: "@ + t@,
        CoreError::InvalidJobSpec(t) => "invalid job spec: "@ + t@,
    }
}

impl CoreError {
    /// The message of this error.
    pub fn message(&self) -> (s: String)
        ensures
            s@ == core_message(*self),
    {
        match self {
            CoreError::UnknownRegion(t) => {
                let mut s = String::from_str("unknown region: ");
                crate::text::push_str(&mut s, t.as_str());
                s
            },
            CoreError::InvalidJobSpec(t) => {
                let mut s = String::from_str("invalid job spec: ");
                crate::text::push_str(&mut s, t.as_str());
                s
            },
        }
    }
}

impl Region {
    /// All regions known to this build.
    pub const ALL: [Region; 7] = [
        Region::Caiso,
        Region::Ercot,
        Region::Miso,
        Region::Pjm,
        Region::Nyiso,
        Region::IsoNe,
        Region::Spp,
    ];

    /// The canonical balancing-authority code for this region.
    pub fn as_code(self) -> (code: &'static str)
        ensures
            code@ == region_code(self),
    {
        match self {
            Region::Caiso => "CAISO",
            Region::Ercot => "ERCOT",
            Region::Miso => "MISO",
            Region::Pjm => "PJM",
            Region::Nyiso => "NYISO",
            Region::IsoNe => "ISONE",
            Region::Spp => "SPP",
        }
    }

    /// Parse a region code, ignoring ASCII case. On failure the error holds
    /// the upper-cased input.
    pub fn parse(s: &str) -> (r: Result<Region, CoreError>)
        ensures
            parse_region_spec(s@) matches Some(reg) ==> (r matches Ok(x) && x == reg),
            parse_region_spec(s@) is None ==> (r matches Err(CoreError::UnknownRegion(t)) && t@
                == upper_seq(s@)),
    {
        let v = chars_of(s);
        assert(v@.subrange(0, v@.len() as int) =~= v@);
        match parse_region_chars(&v, 0, v.len()) {
            Some(reg) => Ok(reg),
            None => {
                let u = upper_vec(&v);
                let t = string_of(&u, 0, u.len());
                proof {
                    assert(v@.subrange(0, v@.len() as int) =~= v@);
                    assert(u@.subrange(0, u@.len() as int) =~= u@);
                }
                Err(CoreError::UnknownRegion(t))
            },
        }
    }
}

impl std::str::FromStr for Region {
    type Err = CoreError;

    fn from_str(s: &str) -> (r: Result<Region, CoreError>)
        ensures
            parse_region_spec(s@) matches Some(reg) ==> (r matches Ok(x) && x == reg),
            parse_region_spec(s@) is None ==> (r matches Err(CoreError::UnknownRegion(t)) && t@
                == upper_seq(s@)),
    {
        Region::parse(s)
    }
}

/// Parse the region named by `v[from..to]`, ignoring ASCII case.
pub fn parse_region_chars(v: &Vec<char>, from: usize, to: usize) -> (r: Option<Region>)
    requires
        from <= to <= v@.len(),
    ensures
        r == parse_region_spec(v@.subrange(from as int, to as int)),
{
    let u = upper_vec(v);
    proof {
        assert(u@.subrange(from as int, to as int) =~= upper_seq(
            v@.subrange(from as int, to as int),
        ));
    }
    if slice_eq(&u, from, to, "CAISO") || slice_eq(&u, from, to, "CAISO_NORTH") || slice_eq(
        &u,
        from,
        to,
        "CAISO-NORTH",
    ) {
        Some(Region::Caiso)
    } else if slice_eq(&u, from, to, "ERCOT") {
        Some(Region::Ercot)
    } else if slice_eq(&u, from, to, "MISO") {
        Some(Region::Miso)
    } else if slice_eq(&u, from, to, "PJM") {
        Some(Region::Pjm)
    } else if slice_eq(&u, from, to, "NYISO") {
        Some(Region::Nyiso)
    } else if slice_eq(&u, from, to, "ISONE") || slice_eq(&u, from, to, "ISO_NE") || slice_eq(
        &u,
        from,
        to,
        "ISO-NE",
    ) {
        Some(Region::IsoNe)
    } else if slice_eq(&u, from, to, "SPP") {
        Some(Region::Spp)
    } else {
        None
    }
}

/// EIA balancing-authority respondent codes and their regions.
pub const RESPONDENTS: [(&'static str, Region); 7] = [
    ("CISO", Region::Caiso),
    ("ERCO", Region::Ercot),
    ("MISO", Region::Miso),
    ("PJM", Region::Pjm),
    ("NYIS", Region::Nyiso),
    ("ISNE", Region::IsoNe),
    ("SWPP", Region::Spp),
];

/// Map an EIA respondent code (exact, case-sensitive) to a region.
pub fn region_from_respondent(code: &str) -> (r: Option<Region>)
    ensures
        r == region_of_respondent(code@),
{
    let v = chars_of(code);
    let n = v.len();
    assert(v@.subrange(0, n as int) =~= code@);
    if slice_eq(&v, 0, n, "CISO") {
        Some(Region::Caiso)
    } else if slice_eq(&v, 0, n, "ERCO") {
        Some(Region::Ercot)
    } else if slice_eq(&v, 0, n, "MISO") {
        Some(Region::Miso)
    } else if slice_eq(&v, 0, n, "PJM") {
        Some(Region::Pjm)
    } else if slice_eq(&v, 0, n, "NYIS") {
        Some(Region::Nyiso)
    } else if slice_eq(&v, 0, n, "ISNE") {
        Some(Region::IsoNe)
    } else if slice_eq(&v, 0, n, "SWPP") {
        Some(Region::Spp)
    } else {
        proof {
            assert(v@.subrange(0, n as int) =~= code@);
        }
        None
    }
}

/// The EIA respondent code for a region.
pub fn respondent_code(region: Region) -> (code: &'static str)
    ensures
        code@ == respondent_spec(region),
{
    match region {
        Region::Caiso => "CISO",
        Region::Ercot => "ERCO",
        Region::Miso => "MISO",
        Region::Pjm => "PJM",
        Region::Nyiso => "NYIS",
        Region::IsoNe => "ISNE",
        Region::Spp => "SWPP",
    }
}

/// Every region's canonical code parses back to that region.
pub proof fn lemma_code_round_trip(r: Region)
    ensures
        parse_region_spec(region_code(r)) == Some(r),
{
    reveal_strlit("CAISO");
    reveal_strlit("ERCOT");
    reveal_strlit("MISO");
    reveal_strlit("PJM");
    reveal_strlit("NYISO");
    reveal_strlit("ISONE");
    reveal_strlit("SPP");
    reveal_strlit("CAISO_NORTH");
    reveal_strlit("CAISO-NORTH");
    reveal_strlit("ISO_NE");
    reveal_strlit("ISO-NE");
    let c = region_code(r);
    assert(upper_seq(c) =~= c);
    assert("CAISO"@[0] == 'C' && "ERCOT"@[0] == 'E' && "NYISO"@[0] == 'N' && "PJM"@[0] == 'P'
        && "SPP"@[0] == 'S' && "ISONE"@[0] == 'I');
    assert(c[0] == region_code(r)[0]);
}

/// A region's respondent code maps back to that region, and the map is one to one.
pub proof fn lemma_respondent_round_trip(r: Region)
    ensures
        region_of_respondent(respondent_spec(r)) == Some(r),
{
    reveal_strlit("CISO");
    reveal_strlit("ERCO");
    reveal_strlit("MISO");
    reveal_strlit("PJM");
    reveal_strlit("NYIS");
    reveal_strlit("ISNE");
    reveal_strlit("SWPP");
    let c = respondent_spec(r);
    assert("CISO"@[0] == 'C' && "ERCO"@[0] == 'E' && "MISO"@[0] == 'M' && "NYIS"@[0] == 'N'
        && "ISNE"@[0] == 'I' && "SWPP"@[0] == 'S');
    assert(c[0] == respondent_spec(r)[0]);
}

} // verus!
