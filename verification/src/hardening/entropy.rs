//! The system's source of randomness.
use crate::error::HardeningError;
use vstd::prelude::*;

verus! {

/// `getrandom::getrandom`: random bytes, or nothing where the system has none
/// to give. Nothing is promised of the bytes.
#[verifier::external_body]
fn system_random() -> (r: Option<[u8; 32]>) {
    let mut buf = [0u8; 32];
    match getrandom::getrandom(&mut buf) {
        Ok(()) => Some(buf),
        Err(_) => None,
    }
}

/// Whether a sample can come from a working source: it is not all zeros.
pub open spec fn plausible(sample: Seq<u8>) -> bool {
    exists|i: int| 0 <= i < sample.len() && sample[i] != 0
}

/// Whether a sample speaks for the source: there is one, and it is plausible.
pub open spec fn sample_passes(sample: Option<[u8; 32]>) -> bool {
    sample matches Some(s) && plausible(s@)
}

/// Judges a sample of the system's source.
pub fn judge_sample(sample: Option<[u8; 32]>) -> (r: Result<(), HardeningError>)
    ensures
        r is Ok == sample_passes(sample),
        r matches Err(e) ==> e == HardeningError::EntropyUnavailable,
{
    match sample {
        None => Err(HardeningError::EntropyUnavailable),
        Some(s) => {
            let mut i: usize = 0;
            while i < 32
                invariant
                    i <= 32,
                    sample == Some(s),
                    forall|j: int| 0 <= j < i ==> s@[j] == 0,
                decreases 32 - i,
            {
                if s[i] != 0 {
                    assert(plausible(s@));
                    return Ok(());
                }
                i = i + 1;
            }
            Err(HardeningError::EntropyUnavailable)
        },
    }
}

/// Whether the system's source can have given a sample.
pub closed spec fn drawn(sample: Option<[u8; 32]>) -> bool {
    call_ensures(system_random, (), sample)
}

/// Checks the system's source of randomness on one sample. Keys all come from
/// it, and a broken one gives zeros.
pub fn verify_entropy_source() -> (r: Result<(), HardeningError>)
    ensures
        exists|sample: Option<[u8; 32]>| #[trigger]
            drawn(sample) && r is Ok == sample_passes(sample),
        r matches Err(e) ==> e == HardeningError::EntropyUnavailable,
{
    let sample = system_random();
    assert(drawn(sample));
    judge_sample(sample)
}

} // verus!
