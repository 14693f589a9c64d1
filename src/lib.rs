//! Canonical-range constraint gadgets for prime fields with a non-power-of-two
//! modulus: a big-endian bit decomposition of a value, and the polynomial
//! identities that force the decomposition to be boolean, to reconstruct the
//! value, and to stay strictly below the modulus.
pub mod error;
pub mod field;
pub mod bits;
pub mod profile;
pub mod trace;
pub mod constraints;
pub mod canonical;
pub mod laws;
pub mod gadget;
pub mod babybear_v1;
pub mod goldilocks_v1;
pub mod m31;
pub mod rc_babybear_babybear_keccak_ver2;
pub mod rc_babybear_babybear_poseidon2_ver1;
