use vstd::prelude::*;

verus! {

/// What can go wrong when a value is range checked.
#[derive(Debug, Clone, Copy, PartialEq, Eq, Structural)]
pub enum RangeCheckError {
    /// The profile's bit pattern does not encode `modulus - 1` exactly.
    InvalidModulusProfile,
    /// The value does not fit the profile's bit width.
    ValueOutOfDomain,
    /// The witness does not satisfy the constraint system.
    ConstraintViolation,
    /// The proving backend rejected the proof.
    VerificationError,
}

} // verus!
