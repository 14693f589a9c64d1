//! The whole range check of one value: build the trace, derive the cascade,
//! evaluate the degree-reduced constraint system.
use vstd::prelude::*;
use vstd::arithmetic::power2::pow2;
use crate::error::RangeCheckError;
use crate::profile::ModulusProfile;
use crate::trace::build_trace;
use crate::constraints::{derive_aux, eval_reduced};
use crate::laws::theorem_trace_accepted_iff_below_modulus;

verus! {

/// Range checks `value` against `profile`: `Ok` exactly when it is below the
/// modulus; `ValueOutOfDomain` when it does not fit the bit width;
/// `ConstraintViolation` when it fits but is not below the modulus.
pub fn check_value(profile: &ModulusProfile, value: u64) -> (r: Result<(), RangeCheckError>)
    requires
        profile@.wf(),
    ensures
        r is Ok <==> value < profile@.modulus,
        r == Err::<(), RangeCheckError>(RangeCheckError::ValueOutOfDomain) <==> value >= pow2(
            profile@.bit_width as nat,
        ),
        r == Err::<(), RangeCheckError>(RangeCheckError::ConstraintViolation) <==> (value < pow2(
            profile@.bit_width as nat,
        ) && value >= profile@.modulus),
{
    proof {
        crate::canonical::lemma_modulus_shape(profile@);
    }
    let trace = build_trace(profile, value, 1)?;
    let aux = derive_aux(profile, trace.row(0));
    proof {
        theorem_trace_accepted_iff_below_modulus(profile@, value, 1);
    }
    eval_reduced(profile, &trace, &aux, value)
}

} // verus!
