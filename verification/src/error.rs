//! The error taxonomy shared by every fallible operation of the crate.

use vstd::prelude::*;

verus! {

/// A reason the encryption parameters themselves are unusable.
#[derive(Clone, Copy, Debug, PartialEq, Eq, Structural)]
pub enum ParameterError {
    /// The plaintext modulus is not congruent to 1 modulo twice the ring
    /// degree, so the CRT batching view does not exist.
    BatchingNotSupported,
    /// The ring degree is not a supported power of two.
    InvalidDegree,
    /// The coefficient modulus chain is empty or holds a modulus of an
    /// unsupported size.
    InvalidModulusChain,
    /// The plaintext modulus is too small or too large.
    InvalidPlainModulus,
    /// The coefficient modulus chain is too large for the requested
    /// security level at this ring degree.
    SecurityLevelExceeded,
}

/// Every operation of this crate reports failure through this type.
#[derive(Clone, Copy, Debug, PartialEq, Eq, Structural)]
pub enum Error {
    /// The encryption parameters are malformed; construction-time only.
    Parameter(ParameterError),
    /// An argument value is outside its documented domain: a vector too
    /// long, a slot value out of range, a rotation step too large, a
    /// zero exponent, or an empty operand list.
    InvalidArgument,
    /// The operands' algebraic states do not fit the operation: mismatched
    /// ring contexts, mismatched representation forms or chain levels, a
    /// modulus switch at the last level, a plaintext outside the batching
    /// image, or a noise budget already exhausted.
    InvalidOperation,
    /// The supplied key material is bound to another context or is too
    /// small for the requested size reduction or rotation.
    KeyMismatch,
}

} // verus!
