//! Scheduler output and the job specification it is computed for.

use vstd::prelude::*;

use crate::confidence::Confidence;
use crate::region::{CoreError, Region};
use crate::instant::valid_instant;
use vstd::string::StringExecFns;

verus! {

/// Why the scheduler picked a start time (or chose to run immediately).
#[derive(Debug, Clone, Copy, PartialEq, Eq, Structural)]
pub enum StartReason {
    /// The selected window has the lowest estimated mean intensity and
    /// beats run-now by at least the materiality threshold.
    LowestEstimatedIntensity,
    /// Running now is already the cleanest option among candidates.
    RunNowAlreadyCleanest,
    /// The deadline leaves no room to defer.
    DeadlineTooSoon,
    /// A fallback policy defaulted to running immediately.
    FallbackPolicyRunImmediately,
    /// The user passed an explicit override.
    UserForced,
}

/// Why the scheduler refused to produce a schedule.
#[derive(Debug, Clone, Copy, PartialEq, Eq, Structural)]
pub enum RefuseReason {
    /// No provider supports the requested region.
    UnsupportedRegion,
    /// Historical data is required but missing.
    MissingHistoricalData,
    /// The historical cache is older than the staleness bound.
    StaleHistoricalCache,
    /// Too few samples for a defensible estimate.
    InsufficientSamples,
    /// All providers failed.
    ProviderUnavailable,
    /// No window fits before the deadline.
    NoWindowBeforeDeadline,
    /// The best candidate's improvement is below the materiality threshold.
    CandidateWindowsBelowMaterialityThreshold,
    /// Forecast confidence is too low to justify a recommendation.
    ForecastTooUncertain,
}

/// The scheduler's verdict.
#[derive(Debug, PartialEq)]
pub enum SchedulingDecision {
    /// Defer the run to `start_time` (UTC nanoseconds).
    StartAt { start_time: i128, reason: StartReason, confidence: Confidence },
    /// Run immediately.
    StartImmediately { reason: StartReason, confidence: Confidence },
    /// Refuse to schedule.
    Refuse { reason: RefuseReason },
}

/// What the user wants to run, and the flexibility offered.
#[derive(Debug)]
pub struct JobSpec {
    /// Program and arguments (not interpreted by a shell).
    pub command: Vec<String>,
    /// Estimated run time, nanoseconds.
    pub estimated_duration: i128,
    /// Latest instant the job may finish (UTC nanoseconds).
    pub deadline: i128,
    /// Region the job runs in.
    pub region: Region,
}

/// The reasons `validate` rejects a job, in the order it checks them.
pub open spec fn job_problem(j: JobSpec, now: int) -> Option<Seq<char>> {
    if j.command@.len() == 0 {
        Some("command must be non-empty"@)
    } else if j.estimated_duration <= 0 {
        Some("estimated_duration must be positive"@)
    } else if j.deadline <= now {
        Some("deadline must be in the future"@)
    } else if j.deadline - now < j.estimated_duration {
        Some("deadline does not leave room for estimated_duration"@)
    } else {
        None
    }
}

impl JobSpec {
    /// Validate: non-empty command, positive duration, deadline strictly
    /// after `now`, and room between `now` and the deadline for the
    /// estimated duration.
    pub fn validate(&self, now: i128) -> (r: Result<(), CoreError>)
        requires
            valid_instant(now as int),
            valid_instant(self.deadline as int),
        ensures
            job_problem(*self, now as int) is None ==> r is Ok,
            job_problem(*self, now as int) matches Some(m) ==> (r matches Err(
                CoreError::InvalidJobSpec(t),
            ) && t@ == m),
    {
        if self.command.len() == 0 {
            return Err(CoreError::InvalidJobSpec(String::from_str("command must be non-empty")));
        }
        if self.estimated_duration <= 0 {
            return Err(
                CoreError::InvalidJobSpec(String::from_str("estimated_duration must be positive")),
            );
        }
        if self.deadline <= now {
            return Err(
                CoreError::InvalidJobSpec(String::from_str("deadline must be in the future")),
            );
        }
        if self.deadline - now < self.estimated_duration {
            return Err(
                CoreError::InvalidJobSpec(
                    String::from_str("deadline does not leave room for estimated_duration"),
                ),
            );
        }
        Ok(())
    }
}

/// The decision used when only a static baseline is available: run
/// immediately under the fallback policy, with the caller's confidence.
pub fn static_fallback_decision(confidence: Confidence) -> (d: SchedulingDecision)
    ensures
        d == (SchedulingDecision::StartImmediately {
            reason: StartReason::FallbackPolicyRunImmediately,
            confidence,
        }),
{
    SchedulingDecision::StartImmediately {
        reason: StartReason::FallbackPolicyRunImmediately,
        confidence,
    }
}

} // verus!
