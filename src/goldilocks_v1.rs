//! Goldilocks range check, naive variant.
use vstd::prelude::*;
use vstd::arithmetic::power2::lemma2_to64;
use crate::error::RangeCheckError;
use crate::profile::{ModulusProfile, goldilocks_model};
use crate::trace::{TraceMatrix, build_trace, value_trace};
use crate::constraints::{eval_naive, naive_accepts};

verus! {

/// The range-check circuit for one Goldilocks value.
pub struct GoldilocksRangeCheckAir {
    /// The instance value that the first row must reconstruct.
    pub value: u64,
}

impl GoldilocksRangeCheckAir {
    /// Number of trace columns: one per bit.
    pub fn width(&self) -> (r: usize)
        ensures
            r == goldilocks_model().bit_width,
    {
        64
    }

    /// Evaluates the naive constraint system on `trace`.
    pub fn eval(&self, trace: &TraceMatrix) -> (r: Result<(), RangeCheckError>)
        ensures
            r is Ok <==> naive_accepts(goldilocks_model(), trace@, self.value),
            r matches Err(e) ==> e == RangeCheckError::ConstraintViolation,
    {
        eval_naive(&ModulusProfile::goldilocks(), trace, self.value)
    }
}

/// The one-row trace of `value`: its 64 bits, most significant first.
pub fn generate_trace(value: u64) -> (t: TraceMatrix)
    ensures
        t@ == value_trace(value as nat, 64, 1),
{
    proof {
        lemma2_to64();
    }
    match build_trace(&ModulusProfile::goldilocks(), value, 1) {
        Ok(t) => t,
        Err(_) => {
            proof {
                assert(false);
            }
            TraceMatrix::from_rows(Vec::new())
        },
    }
}

} // verus!
