//! Memory hardening: the system calls that are made, in which order, and what
//! their results mean.
use crate::error::HardeningError;
use vstd::prelude::*;

verus! {

/// The system calls of memory hardening.
#[derive(Debug, Clone, Copy, PartialEq, Eq, Structural)]
pub enum MemoryStep {
    /// No tracing and no core dumps of the process.
    ClearDumpable,
    /// A core size of zero.
    ZeroCoreLimit,
    /// All pages stay in memory.
    LockPages,
    /// No new privileges.
    NoNewPrivileges,
    /// Nothing is left.
    Finished,
}

/// Where the process runs.
#[derive(Debug, Clone, Copy, PartialEq, Eq, Structural)]
pub enum Platform {
    Desktop,
    Android,
}

/// What follows a call whose result was `failure`, nothing where it succeeded.
/// The first two calls must succeed; the others are only a second line of
/// defence. On Android pages cannot be locked.
pub open spec fn next_step(platform: Platform, step: MemoryStep, failure: Option<i32>) -> Result<
    MemoryStep,
    HardeningError,
> {
    match step {
        MemoryStep::ClearDumpable => match failure {
            Some(code) => Err(HardeningError::PrctlFailed(code)),
            None => Ok(MemoryStep::ZeroCoreLimit),
        },
        MemoryStep::ZeroCoreLimit => match failure {
            Some(code) => Err(HardeningError::SetrlimitFailed(code)),
            None => Ok(
                match platform {
                    Platform::Desktop => MemoryStep::LockPages,
                    Platform::Android => MemoryStep::NoNewPrivileges,
                },
            ),
        },
        _ => Ok(MemoryStep::Finished),
    }
}

/// What follows a call of memory hardening.
pub fn apply_memory_hardening(platform: Platform, step: MemoryStep, failure: Option<i32>) -> (r:
    Result<MemoryStep, HardeningError>)
    ensures
        r == next_step(platform, step, failure),
{
    match step {
        MemoryStep::ClearDumpable => match failure {
            Some(code) => Err(HardeningError::PrctlFailed(code)),
            None => Ok(MemoryStep::ZeroCoreLimit),
        },
        MemoryStep::ZeroCoreLimit => match failure {
            Some(code) => Err(HardeningError::SetrlimitFailed(code)),
            None => match platform {
                Platform::Desktop => Ok(MemoryStep::LockPages),
                Platform::Android => Ok(MemoryStep::NoNewPrivileges),
            },
        },
        _ => Ok(MemoryStep::Finished),
    }
}

/// The hardening ends after three calls, and nothing but a failure of one of
/// the first two keeps it from its end.
pub proof fn hardening_finishes(platform: Platform, last: Option<i32>)
    ensures
        ({
            &&& next_step(platform, MemoryStep::ClearDumpable, None) matches Ok(second)
            &&& next_step(platform, second, None) matches Ok(third)
            &&& next_step(platform, third, last) == Ok::<MemoryStep, HardeningError>(
                MemoryStep::Finished,
            )
        }),
{
}

} // verus!
