//! EIA-930 fuel categories and the classification of raw fuel codes.

use vstd::prelude::*;

use crate::text::{chars_of, slice_eq, upper_seq, upper_vec};

verus! {

/// A primary-generation fuel category.
#[derive(Debug, Clone, Copy, PartialEq, Eq, Hash, Structural)]
pub enum FuelType {
    /// Coal.
    Col,
    /// Natural gas.
    Ng,
    /// Nuclear.
    Nuc,
    /// Petroleum.
    Oil,
    /// Other (geothermal folds in here).
    Oth,
    /// Solar.
    Sun,
    /// Hydro.
    Wat,
    /// Wind.
    Wnd,
    /// Unknown / unrecognised fuel.
    Unk,
}

/// The code of a fuel category.
pub open spec fn fuel_code(f: FuelType) -> Seq<char> {
    match f {
        FuelType::Col => "COL"@,
        FuelType::Ng => "NG"@,
        FuelType::Nuc => "NUC"@,
        FuelType::Oil => "OIL"@,
        FuelType::Oth => "OTH"@,
        FuelType::Sun => "SUN"@,
        FuelType::Wat => "WAT"@,
        FuelType::Wnd => "WND"@,
        FuelType::Unk => "UNK"@,
    }
}

/// The fuel category an EIA fuel code denotes, ignoring ASCII case;
/// geothermal (`GEO`) counts as `OTH`.
pub open spec fn fuel_of_code(code: Seq<char>) -> Option<FuelType> {
    let u = upper_seq(code);
    if u == "COL"@ {
        Some(FuelType::Col)
    } else if u == "NG"@ {
        Some(FuelType::Ng)
    } else if u == "NUC"@ {
        Some(FuelType::Nuc)
    } else if u == "OIL"@ {
        Some(FuelType::Oil)
    } else if u == "OTH"@ || u == "GEO"@ {
        Some(FuelType::Oth)
    } else if u == "SUN"@ {
        Some(FuelType::Sun)
    } else if u == "WAT"@ {
        Some(FuelType::Wat)
    } else if u == "WND"@ {
        Some(FuelType::Wnd)
    } else if u == "UNK"@ {
        Some(FuelType::Unk)
    } else {
        None
    }
}

/// How a raw EIA fuel code is treated in the generation mix.
#[derive(Debug, Clone, Copy, PartialEq, Eq, Structural)]
pub enum FuelClass {
    /// A primary generation fuel counting toward the mix.
    Generation(FuelType),
    /// Storage (`BAT`, `PS`), excluded from the generation mix.
    Storage,
    /// Unrecognised: mapped to `UNK` with a surfaced note.
    Unknown,
}

/// Classification of a raw EIA fuel code.
pub open spec fn classify_spec(code: Seq<char>) -> FuelClass {
    let u = upper_seq(code);
    if u == "BAT"@ || u == "PS"@ {
        FuelClass::Storage
    } else {
        match fuel_of_code(code) {
            Some(f) => FuelClass::Generation(f),
            None => FuelClass::Unknown,
        }
    }
}

impl FuelType {
    /// All fuel categories, in canonical order.
    pub const ALL: [FuelType; 9] = [
        FuelType::Col,
        FuelType::Ng,
        FuelType::Nuc,
        FuelType::Oil,
        FuelType::Oth,
        FuelType::Sun,
        FuelType::Wat,
        FuelType::Wnd,
        FuelType::Unk,
    ];

    /// The canonical code of this fuel category.
    pub fn as_code(self) -> (code: &'static str)
        ensures
            code@ == fuel_code(self),
    {
        match self {
            FuelType::Col => "COL",
            FuelType::Ng => "NG",
            FuelType::Nuc => "NUC",
            FuelType::Oil => "OIL",
            FuelType::Oth => "OTH",
            FuelType::Sun => "SUN",
            FuelType::Wat => "WAT",
            FuelType::Wnd => "WND",
            FuelType::Unk => "UNK",
        }
    }

    /// The fuel category for an EIA fuel code (case-insensitive; `GEO` is `OTH`).
    pub fn from_eia_code(code: &str) -> (r: Option<FuelType>)
        ensures
            r == fuel_of_code(code@),
    {
        let v = chars_of(code);
        let u = upper_vec(&v);
        let n = u.len();
        assert(u@.subrange(0, n as int) =~= upper_seq(code@));
        if slice_eq(&u, 0, n, "COL") {
            Some(FuelType::Col)
        } else if slice_eq(&u, 0, n, "NG") {
            Some(FuelType::Ng)
        } else if slice_eq(&u, 0, n, "NUC") {
            Some(FuelType::Nuc)
        } else if slice_eq(&u, 0, n, "OIL") {
            Some(FuelType::Oil)
        } else if slice_eq(&u, 0, n, "OTH") || slice_eq(&u, 0, n, "GEO") {
            Some(FuelType::Oth)
        } else if slice_eq(&u, 0, n, "SUN") {
            Some(FuelType::Sun)
        } else if slice_eq(&u, 0, n, "WAT") {
            Some(FuelType::Wat)
        } else if slice_eq(&u, 0, n, "WND") {
            Some(FuelType::Wnd)
        } else if slice_eq(&u, 0, n, "UNK") {
            Some(FuelType::Unk)
        } else {
            None
        }
    }
}

/// Classify a raw EIA fuel code: storage is excluded, known fuels count
/// toward the mix, anything else is unknown.
pub fn classify_fuel(code: &str) -> (r: FuelClass)
    ensures
        r == classify_spec(code@),
{
    let v = chars_of(code);
    let u = upper_vec(&v);
    let n = u.len();
    assert(u@.subrange(0, n as int) =~= upper_seq(code@));
    if slice_eq(&u, 0, n, "BAT") || slice_eq(&u, 0, n, "PS") {
        FuelClass::Storage
    } else {
        match FuelType::from_eia_code(code) {
            Some(ft) => FuelClass::Generation(ft),
            None => FuelClass::Unknown,
        }
    }
}

/// Storage codes never count as generation, and every canonical fuel code
/// classifies as that fuel.
pub proof fn lemma_fuel_classification(f: FuelType)
    ensures
        classify_spec(fuel_code(f)) == FuelClass::Generation(f),
        classify_spec("BAT"@) == FuelClass::Storage,
        classify_spec("PS"@) == FuelClass::Storage,
{
    reveal_strlit("COL");
    reveal_strlit("NG");
    reveal_strlit("NUC");
    reveal_strlit("OIL");
    reveal_strlit("OTH");
    reveal_strlit("GEO");
    reveal_strlit("SUN");
    reveal_strlit("WAT");
    reveal_strlit("WND");
    reveal_strlit("UNK");
    reveal_strlit("BAT");
    reveal_strlit("PS");
    let c = fuel_code(f);
    assert(upper_seq(c) =~= c);
    assert(upper_seq("BAT"@) =~= "BAT"@);
    assert(upper_seq("PS"@) =~= "PS"@);
    assert("COL"@[0] == 'C' && "NUC"@[0] == 'N' && "OIL"@[0] == 'O' && "OTH"@[0] == 'O'
        && "OTH"@[1] == 'T' && "OIL"@[1] == 'I' && "GEO"@[0] == 'G' && "SUN"@[0] == 'S'
        && "WAT"@[0] == 'W' && "WND"@[0] == 'W' && "WAT"@[1] == 'A' && "WND"@[1] == 'N'
        && "UNK"@[0] == 'U' && "BAT"@[0] == 'B' && "NG"@[0] == 'N' && "PS"@[0] == 'P');
    assert(c[0] == fuel_code(f)[0]);
    assert(c[1] == fuel_code(f)[1]);
}

} // verus!
