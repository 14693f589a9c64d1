//! BabyBear range check, degree-reduced variant: the product of the four run
//! bits is built as a cascade of pairwise products carried by the circuit.
use vstd::prelude::*;
use vstd::arithmetic::power2::lemma2_to64;
use crate::error::RangeCheckError;
use crate::profile::{ModulusProfile, baby_bear_model};
use crate::trace::{TraceMatrix, build_trace, value_trace};
use crate::constraints::{eval_reduced, reduced_accepts, derive_aux, cascade_values};

verus! {

/// The degree-reduced range-check circuit for one BabyBear value.
pub struct BabyBearRangeCheckBitDecompositionAir {
    /// The instance value that the first row must reconstruct.
    pub value: u32,
    /// `b1 * b2`.
    pub and_bits_1_to_2: u64,
    /// `b1 * b2 * b3`.
    pub and_bits_1_to_3: u64,
    /// `b1 * b2 * b3 * b4`: the selector of the canonicality identity.
    pub and_bits_1_to_4: u64,
}

impl BabyBearRangeCheckBitDecompositionAir {
    /// The cascade carried by this circuit, in order.
    pub open spec fn aux_spec(&self) -> Seq<u64> {
        seq![self.and_bits_1_to_2, self.and_bits_1_to_3, self.and_bits_1_to_4]
    }

    /// Number of trace columns: one per bit.
    pub fn width(&self) -> (r: usize)
        ensures
            r == baby_bear_model().bit_width,
    {
        32
    }

    /// Evaluates the degree-reduced constraint system on `trace`.
    pub fn eval(&self, trace: &TraceMatrix) -> (r: Result<(), RangeCheckError>)
        ensures
            r is Ok <==> reduced_accepts(
                baby_bear_model(),
                trace@,
                self.aux_spec(),
                self.value as u64,
            ),
            r matches Err(e) ==> e == RangeCheckError::ConstraintViolation,
    {
        let aux = vec![self.and_bits_1_to_2, self.and_bits_1_to_3, self.and_bits_1_to_4];
        proof {
            assert(aux@ =~= self.aux_spec());
        }
        eval_reduced(&ModulusProfile::baby_bear(), trace, &aux, self.value as u64)
    }
}

/// The one-row trace of `value` and the three cascade values of its run.
pub fn generate_trace_and_inputs(value: u32) -> (r: (TraceMatrix, u64, u64, u64))
    ensures
        r.0@ == value_trace(value as nat, 32, 1),
        seq![r.1, r.2, r.3] == cascade_values(baby_bear_model(), r.0@[0]),
{
    proof {
        lemma2_to64();
    }
    let profile = ModulusProfile::baby_bear();
    let trace = match build_trace(&profile, value as u64, 1) {
        Ok(t) => t,
        Err(_) => {
            proof {
                assert(false);
            }
            return (TraceMatrix::from_rows(Vec::new()), 0, 0, 0);
        },
    };
    let aux = derive_aux(&profile, trace.row(0));
    let r = (trace, aux[0], aux[1], aux[2]);
    proof {
        assert(seq![r.1, r.2, r.3] =~= aux@);
    }
    r
}

} // verus!
