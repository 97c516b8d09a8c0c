//! The static fallback: a flat annual mean per region, used only when no
//! historical data is available, always at `VeryLow` confidence.

use vstd::prelude::*;

use crate::confidence::{Confidence, ConfidenceLevel, DataGranularity};
use crate::region::Region;
use crate::run_report::ProviderInfo;
use vstd::string::StringExecFns;

verus! {

/// Annual mean intensity of a region, whole gCO2/kWh.
pub open spec fn annual_mean(r: Region) -> Option<u32> {
    match r {
        Region::Caiso => Some(250),
        Region::Ercot => Some(400),
        Region::Miso => Some(430),
        Region::Pjm => Some(380),
        Region::Nyiso => Some(250),
        Region::IsoNe => Some(250),
        Region::Spp => Some(480),
    }
}

/// The table's entry for a region.
pub fn mean_for(region: Region) -> (g: Option<u32>)
    ensures
        g == annual_mean(region),
{
    match region {
        Region::Caiso => Some(250),
        Region::Ercot => Some(400),
        Region::Miso => Some(430),
        Region::Pjm => Some(380),
        Region::Nyiso => Some(250),
        Region::IsoNe => Some(250),
        Region::Spp => Some(480),
    }
}

/// The static table has no entry for a region.
#[derive(Debug, Clone, Copy, PartialEq, Eq, Structural)]
pub enum StaticError {
    /// The region has no entry.
    UnsupportedRegion(Region),
}

/// The note carried by the static provider's confidence.
pub open spec fn static_confidence_note() -> Seq<char> {
    "static fallback: flat annual regional mean; not derived from any time-varying data"@
}

/// A provider backed by the static annual-mean table.
#[derive(Debug, Clone, Copy)]
pub struct StaticTableProvider;

impl StaticTableProvider {
    /// The provider.
    pub fn new() -> (p: Self) {
        StaticTableProvider
    }

    /// Whether the table has an entry for the region.
    pub fn supports(&self, region: Region) -> (b: bool)
        ensures
            b == (annual_mean(region) is Some),
    {
        mean_for(region).is_some()
    }

    /// The region's annual mean, whole gCO2/kWh.
    pub fn baseline(&self, region: Region) -> (r: Result<u32, StaticError>)
        ensures
            match annual_mean(region) {
                Some(g) => r == Ok::<u32, StaticError>(g),
                None => r == Err::<u32, StaticError>(StaticError::UnsupportedRegion(region)),
            },
    {
        match mean_for(region) {
            Some(g) => Ok(g),
            None => Err(StaticError::UnsupportedRegion(region)),
        }
    }

    /// `VeryLow`, no samples, one note saying why.
    pub fn baseline_confidence() -> (c: Confidence)
        ensures
            c.level == ConfidenceLevel::VeryLow,
            c.sample_count == 0,
            c.notes@.len() == 1,
            c.notes@[0]@ == static_confidence_note(),
    {
        Confidence::very_low(
            String::from_str(
                "static fallback: flat annual regional mean; not derived from any time-varying data",
            ),
        )
    }

    /// The provider's name.
    pub fn name(&self) -> (s: &'static str)
        ensures
            s@ == "static-fallback"@,
    {
        "static-fallback"
    }

    /// Annual data, no capabilities (an annual mean claims none), no lag.
    pub fn info(&self) -> (p: ProviderInfo)
        ensures
            p.name@ == "static-fallback"@,
            p.capabilities@.len() == 0,
            p.granularity == DataGranularity::Annual,
            p.expected_lag is None,
    {
        crate::preview::static_provider_info()
    }
}

} // verus!
