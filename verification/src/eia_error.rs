//! Errors of the EIA-930 / eGRID data path, with their messages.

use vstd::prelude::*;

use crate::text::{decimal, push_decimal, push_str};
use vstd::string::StringExecFns;

verus! {

/// An error from the EIA-930 + eGRID data path.
#[derive(Debug)]
pub enum EiaError {
    /// HTTP transport failure (the transport's message).
    Http(String),
    /// The EIA API returned a non-success status with a body.
    Api { status: u16, body: String },
    /// `EIA_API_KEY` was required but absent.
    MissingApiKey,
    /// The eGRID factor table was missing or malformed.
    EgridTable(String),
    /// The historical cache file does not exist at the given path.
    CacheMissing(String),
    /// The cache file's schema version is not one this build understands.
    CacheSchemaMismatch { found: u32, expected: u32 },
    /// The cache parsed but failed structural validation.
    HistoricalCache(String),
    /// Filesystem failure (the system's message).
    Io(String),
    /// A value returned by EIA failed validation.
    Malformed(String),
    /// Intensity could not be derived for an hour (treated as a gap).
    DerivationFailed(String),
}

/// The human-readable message of an error.
pub open spec fn eia_message(e: EiaError) -> Seq<char> {
    match e {
        EiaError::Http(m) => "http transport: "@ + m@,
        EiaError::Api { status, body } => "eia api "@ + decimal(status as nat) + ": "@ + body@,
        EiaError::MissingApiKey => "EIA_API_KEY environment variable is not set"@,
        EiaError::EgridTable(m) => "egrid factor table: "@ + m@,
        EiaError::CacheMissing(m) => "historical cache not found: "@ + m@,
        EiaError::CacheSchemaMismatch { found, expected } => "historical cache schema mismatch: found v"@
            + decimal(found as nat) + ", expected v"@ + decimal(expected as nat),
        EiaError::HistoricalCache(m) => "historical cache: "@ + m@,
        EiaError::Io(m) => "io: "@ + m@,
        EiaError::Malformed(m) => "eia returned malformed data: "@ + m@,
        EiaError::DerivationFailed(m) => "could not derive intensity: "@ + m@,
    }
}

impl EiaError {
    /// The human-readable message of this error.
    pub fn message(&self) -> (s: String)
        ensures
            s@ == eia_message(*self),
    {
        let mut s = String::new();
        match self {
            EiaError::Http(m) => {
                push_str(&mut s, "http transport: ");
                push_str(&mut s, m.as_str());
            },
            EiaError::Api { status, body } => {
                push_str(&mut s, "eia api ");
                push_decimal(&mut s, *status as u128);
                push_str(&mut s, ": ");
                push_str(&mut s, body.as_str());
            },
            EiaError::MissingApiKey => {
                push_str(&mut s, "EIA_API_KEY environment variable is not set");
            },
            EiaError::EgridTable(m) => {
                push_str(&mut s, "egrid factor table: ");
                push_str(&mut s, m.as_str());
            },
            EiaError::CacheMissing(m) => {
                push_str(&mut s, "historical cache not found: ");
                push_str(&mut s, m.as_str());
            },
            EiaError::CacheSchemaMismatch { found, expected } => {
                push_str(&mut s, "historical cache schema mismatch: found v");
                push_decimal(&mut s, *found as u128);
                push_str(&mut s, ", expected v");
                push_decimal(&mut s, *expected as u128);
            },
            EiaError::HistoricalCache(m) => {
                push_str(&mut s, "historical cache: ");
                push_str(&mut s, m.as_str());
            },
            EiaError::Io(m) => {
                push_str(&mut s, "io: ");
                push_str(&mut s, m.as_str());
            },
            EiaError::Malformed(m) => {
                push_str(&mut s, "eia returned malformed data: ");
                push_str(&mut s, m.as_str());
            },
            EiaError::DerivationFailed(m) => {
                push_str(&mut s, "could not derive intensity: ");
                push_str(&mut s, m.as_str());
            },
        }
        assert(s@ =~= eia_message(*self));
        s
    }
}

} // verus!
