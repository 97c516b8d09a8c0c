//! The eGRID emission-factor table: validation of the committed file's
//! contents and dense `(region, fuel)` lookup.

use vstd::prelude::*;

use crate::cache::Intensity;
use crate::eia_error::EiaError;
use crate::fuel::{fuel_code, FuelType};
use crate::region::{region_code, Region};
use crate::text::{decimal, push_decimal, push_str};
use vstd::string::StringExecFns;

verus! {

/// Schema version of the factor-table file.
pub const EGRID_SCHEMA_VERSION: u32 = 1;

/// One fuel's entry in a region of the factor file: its code and either
/// the converted gCO₂/kWh factor or why the raw value was rejected.
#[derive(Debug)]
pub struct FuelEntry {
    /// Fuel code as written in the file.
    pub code: String,
    /// The converted factor, or the rejection detail for the raw value.
    pub factor: Result<Intensity, String>,
}

/// One region's section of the factor file.
#[derive(Debug)]
pub struct RegionEntry {
    /// Region code as written in the file.
    pub code: String,
    /// The fuels listed for the region.
    pub fuels: Vec<FuelEntry>,
}

/// The factor file's contents, with each raw value already converted.
#[derive(Debug)]
pub struct EgridFile {
    /// Format version.
    pub schema_version: u32,
    /// eGRID release label, e.g. `eGRID2023`.
    pub egrid_release: String,
    /// eGRID data year.
    pub egrid_data_year: i32,
    /// Units of the raw values; must be `lb_co2_per_mwh`.
    pub units: String,
    /// Methodology label.
    pub methodology: String,
    /// Per-region sections.
    pub regions: Vec<RegionEntry>,
}

/// Validated emission factors, dense `[region][fuel]`.
#[derive(Debug)]
pub struct EgridFactors {
    /// eGRID release label.
    pub release: String,
    /// eGRID data year.
    pub data_year: i32,
    /// Methodology label.
    pub methodology: String,
    /// Factors indexed `[region][fuel]` by position in `Region::ALL` and `FuelType::ALL`.
    pub factors: Vec<Vec<Intensity>>,
}

/// Position of a region in `Region::ALL`.
pub open spec fn region_pos(r: Region) -> int {
    match r {
        Region::Caiso => 0,
        Region::Ercot => 1,
        Region::Miso => 2,
        Region::Pjm => 3,
        Region::Nyiso => 4,
        Region::IsoNe => 5,
        Region::Spp => 6,
    }
}

/// Position of a fuel in `FuelType::ALL`.
pub open spec fn fuel_pos(f: FuelType) -> int {
    match f {
        FuelType::Col => 0,
        FuelType::Ng => 1,
        FuelType::Nuc => 2,
        FuelType::Oil => 3,
        FuelType::Oth => 4,
        FuelType::Sun => 5,
        FuelType::Wat => 6,
        FuelType::Wnd => 7,
        FuelType::Unk => 8,
    }
}

/// The region at a position of `Region::ALL`.
pub open spec fn region_at(i: int) -> Region {
    if i == 0 {
        Region::Caiso
    } else if i == 1 {
        Region::Ercot
    } else if i == 2 {
        Region::Miso
    } else if i == 3 {
        Region::Pjm
    } else if i == 4 {
        Region::Nyiso
    } else if i == 5 {
        Region::IsoNe
    } else {
        Region::Spp
    }
}

/// The fuel at a position of `FuelType::ALL`.
pub open spec fn fuel_at(i: int) -> FuelType {
    if i == 0 {
        FuelType::Col
    } else if i == 1 {
        FuelType::Ng
    } else if i == 2 {
        FuelType::Nuc
    } else if i == 3 {
        FuelType::Oil
    } else if i == 4 {
        FuelType::Oth
    } else if i == 5 {
        FuelType::Sun
    } else if i == 6 {
        FuelType::Wat
    } else if i == 7 {
        FuelType::Wnd
    } else {
        FuelType::Unk
    }
}

/// Position of a region in `Region::ALL`.
pub fn region_index(r: Region) -> (i: usize)
    ensures
        i == region_pos(r),
{
    match r {
        Region::Caiso => 0,
        Region::Ercot => 1,
        Region::Miso => 2,
        Region::Pjm => 3,
        Region::Nyiso => 4,
        Region::IsoNe => 5,
        Region::Spp => 6,
    }
}

/// Position of a fuel in `FuelType::ALL`.
pub fn fuel_index(f: FuelType) -> (i: usize)
    ensures
        i == fuel_pos(f),
{
    match f {
        FuelType::Col => 0,
        FuelType::Ng => 1,
        FuelType::Nuc => 2,
        FuelType::Oil => 3,
        FuelType::Oth => 4,
        FuelType::Sun => 5,
        FuelType::Wat => 6,
        FuelType::Wnd => 7,
        FuelType::Unk => 8,
    }
}

/// Index of the first region section with code `c`, or the length.
pub open spec fn find_section(regions: Seq<RegionEntry>, c: Seq<char>, i: int) -> int
    decreases regions.len() - i,
{
    if i >= regions.len() {
        regions.len() as int
    } else if regions[i].code@ == c {
        i
    } else {
        find_section(regions, c, i + 1)
    }
}

/// Index of the first fuel entry with code `c`, or the length.
pub open spec fn find_fuel(fuels: Seq<FuelEntry>, c: Seq<char>, i: int) -> int
    decreases fuels.len() - i,
{
    if i >= fuels.len() {
        fuels.len() as int
    } else if fuels[i].code@ == c {
        i
    } else {
        find_fuel(fuels, c, i + 1)
    }
}

/// The factor the file gives for `(region, fuel)`, if the cell is present
/// and its value acceptable.
pub open spec fn cell(file: &EgridFile, r: Region, f: FuelType) -> Option<Intensity> {
    let ri = find_section(file.regions@, region_code(r), 0);
    if ri >= file.regions@.len() {
        None
    } else {
        let fuels = file.regions@[ri].fuels@;
        let fi = find_fuel(fuels, fuel_code(f), 0);
        if fi >= fuels.len() {
            None
        } else {
            match fuels[fi].factor {
                Ok(x) => Some(x),
                Err(_) => None,
            }
        }
    }
}

/// The file is acceptable: right schema, right units, and every
/// `(region, fuel)` cell present with an acceptable value.
pub open spec fn file_acceptable(file: &EgridFile) -> bool {
    &&& file.schema_version == EGRID_SCHEMA_VERSION
    &&& file.units@ == "lb_co2_per_mwh"@
    &&& forall|r: Region, f: FuelType| #[trigger] cell(file, r, f) is Some
}

/// What is wrong with the file's `(region, fuel)` cell, if anything: the
/// region's section or the fuel is missing, or its value was rejected.
pub open spec fn cell_problem(file: &EgridFile, r: Region, f: FuelType) -> Option<Seq<char>> {
    let ri = find_section(file.regions@, region_code(r), 0);
    if ri >= file.regions@.len() {
        Some("missing region '"@ + region_code(r) + "'"@)
    } else {
        let fuels = file.regions@[ri].fuels@;
        let fi = find_fuel(fuels, fuel_code(f), 0);
        if fi >= fuels.len() {
            Some("region '"@ + region_code(r) + "' missing fuel '"@ + fuel_code(f) + "'"@)
        } else {
            match fuels[fi].factor {
                Ok(_) => None,
                Err(d) => Some("region '"@ + region_code(r) + "' fuel '"@ + fuel_code(f) + "' "@ + d@),
            }
        }
    }
}

/// The first cell problem from the `k`-th cell on, cells taken region by
/// region (`Region::ALL` order), fuel by fuel (`FuelType::ALL` order).
pub open spec fn first_cell_problem(file: &EgridFile, k: int) -> Option<Seq<char>>
    decreases 63 - k,
{
    if k < 0 || k >= 63 {
        None
    } else {
        match cell_problem(file, region_at(k / 9), fuel_at(k % 9)) {
            Some(m) => Some(m),
            None => first_cell_problem(file, k + 1),
        }
    }
}

/// Why the file is refused, if it is: the schema version, the units, or
/// the first cell problem.
pub open spec fn egrid_problem(file: &EgridFile) -> Option<Seq<char>> {
    if file.schema_version != EGRID_SCHEMA_VERSION {
        Some("schema version mismatch: found v"@ + decimal(file.schema_version as nat) + ", expected v1"@)
    } else if file.units@ != "lb_co2_per_mwh"@ {
        Some("unexpected units '"@ + file.units@ + "', expected 'lb_co2_per_mwh'"@)
    } else {
        first_cell_problem(file, 0)
    }
}

proof fn lemma_cell_index(ri: int, fi: int)
    requires
        0 <= fi < 9,
        0 <= ri,
    ensures
        (9 * ri + fi) / 9 == ri,
        (9 * ri + fi) % 9 == fi,
{
    vstd::arithmetic::div_mod::lemma_fundamental_div_mod_converse(9 * ri + fi, 9, ri, fi);
}

impl EgridFactors {
    /// The dense table has one row per region and one cell per fuel.
    pub open spec fn wf(&self) -> bool {
        &&& self.factors@.len() == 7
        &&& forall|i: int| 0 <= i < 7 ==> #[trigger] self.factors@[i]@.len() == 9
    }

    /// The factor stored for `(region, fuel)`.
    pub open spec fn factor_spec(&self, r: Region, f: FuelType) -> Intensity {
        self.factors@[region_pos(r)]@[fuel_pos(f)]
    }

    /// The emission factor for `(region, fuel)`, in gCO₂/kWh.
    pub fn factor(&self, region: Region, fuel: FuelType) -> (e: Intensity)
        requires
            self.wf(),
        ensures
            e == self.factor_spec(region, fuel),
    {
        self.factors[region_index(region)][fuel_index(fuel)]
    }

    /// Validate the factor file and build the dense table. Errors name the
    /// first problem: schema version, units, then the first missing region,
    /// missing fuel or rejected value in `Region::ALL` × `FuelType::ALL`
    /// order.
    pub fn from_file(file: EgridFile) -> (r: Result<EgridFactors, EiaError>)
        ensures
            r is Ok <==> file_acceptable(&file),
            match egrid_problem(&file) {
                Some(m) => r matches Err(EiaError::EgridTable(x)) && x@ == m,
                None => r is Ok,
            },
            r matches Ok(t) ==> {
                &&& t.wf()
                &&& t.release == file.egrid_release
                &&& t.data_year == file.egrid_data_year
                &&& t.methodology == file.methodology
                &&& forall|r: Region, f: FuelType| Some(#[trigger] t.factor_spec(r, f)) == cell(
                    &file,
                    r,
                    f,
                )
            },
    {
        if file.schema_version != EGRID_SCHEMA_VERSION {
            let mut m = String::from_str("schema version mismatch: found v");
            push_decimal(&mut m, file.schema_version as u128);
            push_str(&mut m, ", expected v1");
            return Err(EiaError::EgridTable(m));
        }
        let uv = crate::text::chars_of(file.units.as_str());
        assert(uv@.subrange(0, uv@.len() as int) =~= file.units@);
        if !crate::text::slice_eq(&uv, 0, uv.len(), "lb_co2_per_mwh") {
            let mut m = String::from_str("unexpected units '");
            push_str(&mut m, file.units.as_str());
            push_str(&mut m, "', expected 'lb_co2_per_mwh'");
            return Err(EiaError::EgridTable(m));
        }
        let mut factors: Vec<Vec<Intensity>> = Vec::new();
        let mut ri: usize = 0;
        while ri < 7
            invariant
                ri <= 7,
                factors@.len() == ri,
                file.schema_version == EGRID_SCHEMA_VERSION,
                file.units@ == "lb_co2_per_mwh"@,
                first_cell_problem(&file, 0) == first_cell_problem(&file, 9 * ri),
                forall|i: int| 0 <= i < ri ==> #[trigger] factors@[i]@.len() == 9,
                forall|i: int, j: int|
                    0 <= i < ri && 0 <= j < 9 ==> cell(&file, region_at(i), fuel_at(j)) == Some(
                        #[trigger] factors@[i]@[j],
                    ),
            decreases 7 - ri,
        {
            let region = Region::ALL[ri];
            assert(region == region_at(ri as int));
            let rcode = region.as_code();
            let sec = find_section_exec(&file.regions, rcode);
            if sec >= file.regions.len() {
                let mut m = String::from_str("missing region '");
                push_str(&mut m, rcode);
                push_str(&mut m, "'");
                proof {
                    assert(cell(&file, region, FuelType::Col) is None);
                    lemma_cell_index(ri as int, 0);
                    assert(cell_problem(&file, region, fuel_at(0)) == Some(m@));
                }
                return Err(EiaError::EgridTable(m));
            }
            let fuels = &file.regions[sec].fuels;
            let mut row: Vec<Intensity> = Vec::new();
            let mut fi: usize = 0;
            while fi < 9
                invariant
                    fi <= 9,
                    row@.len() == fi,
                    sec < file.regions@.len(),
                    sec == find_section(file.regions@, region_code(region), 0),
                    *fuels == file.regions@[sec as int].fuels,
                    region == region_at(ri as int),
                    rcode@ == region_code(region),
                    ri < 7,
                    file.schema_version == EGRID_SCHEMA_VERSION,
                    file.units@ == "lb_co2_per_mwh"@,
                    first_cell_problem(&file, 0) == first_cell_problem(&file, 9 * ri + fi),
                    forall|j: int|
                        0 <= j < fi ==> cell(&file, region, fuel_at(j)) == Some(#[trigger] row@[j]),
                decreases 9 - fi,
            {
                let fuel = FuelType::ALL[fi];
                assert(fuel == fuel_at(fi as int));
                let fcode = fuel.as_code();
                let k = find_fuel_exec(fuels, fcode);
                if k >= fuels.len() {
                    let mut m = String::from_str("region '");
                    push_str(&mut m, rcode);
                    push_str(&mut m, "' missing fuel '");
                    push_str(&mut m, fcode);
                    push_str(&mut m, "'");
                    proof {
                        assert(cell(&file, region, fuel) is None);
                        lemma_cell_index(ri as int, fi as int);
                        assert(cell_problem(&file, region, fuel) == Some(m@));
                        assert(first_cell_problem(&file, 9 * ri + fi) == Some(m@));
                    }
                    return Err(EiaError::EgridTable(m));
                }
                match &fuels[k].factor {
                    Ok(x) => {
                        row.push(*x);
                        proof {
                            lemma_cell_index(ri as int, fi as int);
                            assert(cell_problem(&file, region, fuel) is None);
                        }
                    },
                    Err(detail) => {
                        let mut m = String::from_str("region '");
                        push_str(&mut m, rcode);
                        push_str(&mut m, "' fuel '");
                        push_str(&mut m, fcode);
                        push_str(&mut m, "' ");
                        push_str(&mut m, detail.as_str());
                        proof {
                            assert(cell(&file, region, fuel) is None);
                            lemma_cell_index(ri as int, fi as int);
                            assert(cell_problem(&file, region, fuel) == Some(m@));
                            assert(first_cell_problem(&file, 9 * ri + fi) == Some(m@));
                        }
                        return Err(EiaError::EgridTable(m));
                    },
                }
                fi = fi + 1;
            }
            factors.push(row);
            ri = ri + 1;
        }
        let t = EgridFactors {
            release: file.egrid_release,
            data_year: file.egrid_data_year,
            methodology: file.methodology,
            factors,
        };
        proof {
            assert forall|r: Region, f: FuelType| Some(#[trigger] t.factor_spec(r, f)) == cell(
                &file,
                r,
                f,
            ) by {
                assert(region_at(region_pos(r)) == r);
                assert(fuel_at(fuel_pos(f)) == f);
                assert(cell(&file, region_at(region_pos(r)), fuel_at(fuel_pos(f))) == Some(
                    factors@[region_pos(r)]@[fuel_pos(f)],
                ));
            }
            assert forall|r: Region, f: FuelType| #[trigger] cell(&file, r, f) is Some by {
                assert(Some(t.factor_spec(r, f)) == cell(&file, r, f));
            }
        }
        Ok(t)
    }
}

/// Index of the first region section whose code is `c`.
fn find_section_exec(regions: &Vec<RegionEntry>, c: &str) -> (i: usize)
    ensures
        i == find_section(regions@, c@, 0),
{
    let mut i: usize = 0;
    while i < regions.len()
        invariant
            i <= regions@.len(),
            find_section(regions@, c@, i as int) == find_section(regions@, c@, 0),
        decreases regions@.len() - i,
    {
        let v = crate::text::chars_of(regions[i].code.as_str());
        if crate::text::slice_eq(&v, 0, v.len(), c) {
            assert(v@.subrange(0, v@.len() as int) =~= regions@[i as int].code@);
            return i;
        }
        assert(v@.subrange(0, v@.len() as int) =~= regions@[i as int].code@);
        i = i + 1;
    }
    i
}

/// Index of the first fuel entry whose code is `c`.
fn find_fuel_exec(fuels: &Vec<FuelEntry>, c: &str) -> (i: usize)
    ensures
        i == find_fuel(fuels@, c@, 0),
{
    let mut i: usize = 0;
    while i < fuels.len()
        invariant
            i <= fuels@.len(),
            find_fuel(fuels@, c@, i as int) == find_fuel(fuels@, c@, 0),
        decreases fuels@.len() - i,
    {
        let v = crate::text::chars_of(fuels[i].code.as_str());
        if crate::text::slice_eq(&v, 0, v.len(), c) {
            assert(v@.subrange(0, v@.len() as int) =~= fuels@[i as int].code@);
            return i;
        }
        assert(v@.subrange(0, v@.len() as int) =~= fuels@[i as int].code@);
        i = i + 1;
    }
    i
}

} // verus!
