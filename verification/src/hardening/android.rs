//! The hardening of a phone, as a whole.
use crate::error::HardeningError;
use crate::hardening::entropy::{judge_sample, plausible};
use crate::hardening::integrity::{integrity, seen, verify_runtime_integrity};
use crate::hardening::root::{check_root_status, root_found, RootStatus, RootView, ROOT_FILES};
use vstd::prelude::*;

verus! {

/// What the hardening of a phone finds, in this order: the source of
/// randomness, the memory, the integrity of the process. Only then is root
/// looked for, which is reported and not refused.
pub open spec fn hardening_found(
    sample: Option<Seq<u8>>,
    memory: Result<(), HardeningError>,
    status: Option<Seq<char>>,
    maps: Option<Seq<char>>,
    exists_at: Seq<bool>,
    props: Option<Seq<char>>,
) -> Result<RootView, HardeningError> {
    match sample {
        Some(s) if plausible(s) => match memory {
            Err(e) => Err(e),
            Ok(()) => match integrity(status, maps) {
                Err(e) => Err(e),
                Ok(()) => Ok(root_found(exists_at, props)),
            },
        },
        _ => Err(HardeningError::EntropyUnavailable),
    }
}

/// Judges what the hardening of a phone found. Nothing may be unlocked unless
/// it succeeds.
pub fn apply_all_android_hardening(
    sample: Option<[u8; 32]>,
    memory: Result<(), HardeningError>,
    status: Option<&str>,
    maps: Option<&str>,
    exists_at: &Vec<bool>,
    props: Option<&str>,
) -> (r: Result<RootStatus, HardeningError>)
    requires
        exists_at@.len() == ROOT_FILES,
    ensures
        match r {
            Ok(s) => hardening_found(
                match sample {
                    Some(b) => Some(b@),
                    None => None,
                },
                memory,
                seen(status),
                seen(maps),
                exists_at@,
                seen(props),
            ) == Ok::<RootView, HardeningError>(s@),
            Err(e) => hardening_found(
                match sample {
                    Some(b) => Some(b@),
                    None => None,
                },
                memory,
                seen(status),
                seen(maps),
                exists_at@,
                seen(props),
            ) == Err::<RootView, HardeningError>(e),
        },
{
    match judge_sample(sample) {
        Err(e) => Err(e),
        Ok(()) => match memory {
            Err(e) => Err(e),
            Ok(()) => match verify_runtime_integrity(status, maps) {
                Err(e) => Err(e),
                Ok(()) => Ok(check_root_status(exists_at, props)),
            },
        },
    }
}

} // verus!
