//! BabyBear range check, naive variant, for the backend that hashes with
//! Poseidon2.
use vstd::prelude::*;
use vstd::arithmetic::power2::lemma2_to64;
use crate::error::RangeCheckError;
use crate::profile::{ModulusProfile, baby_bear_model};
use crate::trace::{TraceMatrix, build_trace, value_trace};
use crate::constraints::{eval_naive, naive_accepts};

verus! {

/// The range-check circuit for one BabyBear value.
pub struct BabyBearRangeCheckAir {
    /// The instance value that the first row must reconstruct.
    pub value: u32,
}

impl BabyBearRangeCheckAir {
    /// Number of trace columns: one per bit.
    pub fn width(&self) -> (r: usize)
        ensures
            r == baby_bear_model().bit_width,
    {
        32
    }

    /// Evaluates the naive constraint system on `trace`.
    pub fn eval(&self, trace: &TraceMatrix) -> (r: Result<(), RangeCheckError>)
        ensures
            r is Ok <==> naive_accepts(baby_bear_model(), trace@, self.value as u64),
            r matches Err(e) ==> e == RangeCheckError::ConstraintViolation,
    {
        eval_naive(&ModulusProfile::baby_bear(), trace, self.value as u64)
    }
}

/// The one-row trace of `value`: its 32 bits, most significant first.
pub fn generate_trace(value: u32) -> (t: TraceMatrix)
    ensures
        t@ == value_trace(value as nat, 32, 1),
{
    proof {
        lemma2_to64();
    }
    match build_trace(&ModulusProfile::baby_bear(), value as u64, 1) {
        Ok(t) => t,
        Err(_) => {
            proof {
                assert(false);
            }
            TraceMatrix::from_rows(Vec::new())
        },
    }
}

} // verus!
