//! Mersenne31 range check, naive variant. The backend's circle commitment
//! needs at least four rows, so the trace carries three filler rows.
use vstd::prelude::*;
use vstd::arithmetic::power2::lemma2_to64;
use crate::error::RangeCheckError;
use crate::profile::{ModulusProfile, mersenne31_model};
use crate::trace::{TraceMatrix, build_trace, value_trace};
use crate::constraints::{eval_naive, naive_accepts};

verus! {

/// Rows of a Mersenne31 trace.
pub const MERSENNE31_TRACE_ROWS: usize = 4;

/// The range-check circuit for one Mersenne31 value.
pub struct Mersenne31RangeCheckAir {
    /// The instance value that the first row must reconstruct.
    pub value: u32,
}

impl Mersenne31RangeCheckAir {
    /// Number of trace columns: one per bit.
    pub fn width(&self) -> (r: usize)
        ensures
            r == mersenne31_model().bit_width,
    {
        32
    }

    /// Evaluates the naive constraint system on `trace`.
    pub fn eval(&self, trace: &TraceMatrix) -> (r: Result<(), RangeCheckError>)
        ensures
            r is Ok <==> naive_accepts(mersenne31_model(), trace@, self.value as u64),
            r matches Err(e) ==> e == RangeCheckError::ConstraintViolation,
    {
        eval_naive(&ModulusProfile::mersenne31(), trace, self.value as u64)
    }
}

/// The four-row trace of `value`: its 32 bits, most significant first, then
/// three zero rows.
pub fn generate_mersenne31_trace(value: u32) -> (t: TraceMatrix)
    ensures
        t@ == value_trace(value as nat, 32, MERSENNE31_TRACE_ROWS as nat),
{
    proof {
        lemma2_to64();
    }
    match build_trace(&ModulusProfile::mersenne31(), value as u64, MERSENNE31_TRACE_ROWS) {
        Ok(t) => t,
        Err(_) => {
            proof {
                assert(false);
            }
            TraceMatrix::from_rows(Vec::new())
        },
    }
}

} // verus!
