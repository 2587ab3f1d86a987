//! A verified core for BFV-style homomorphic arithmetic over batched
//! integer vectors.
//!
//! The crate models the algebraic state machine that surrounds a
//! lattice-based encryption scheme: ring parameters and their validity,
//! the CRT batching view of plaintexts as 2 x (N/2) slot matrices,
//! ciphertext metadata (size, representation form, modulus-chain level,
//! noise budget), and the homomorphic evaluator whose operations act
//! slot-wise modulo the plaintext modulus.  The cryptographic masking
//! itself is out of scope: a ciphertext here carries the slot vector its
//! decryption yields, so every algebraic law of the evaluator is stated
//! and proved over plain integers.

use vstd::prelude::*;

mod context;
mod encoder;
mod encryption_parameters;
mod encryptor_decryptor;
mod error;
mod evaluator;
mod key_generator;
mod laws;
mod modulus;
mod plaintext_ciphertext;
mod slots;

pub use context::Context;
pub use encoder::BFVEncoder;
pub use encryption_parameters::{BfvEncryptionParametersBuilder, EncryptionParameters};
pub use encryptor_decryptor::{Decryptor, Encryptor};
pub use error::{Error, ParameterError};
pub use evaluator::{BFVEvaluator, Evaluator};
pub use key_generator::{GaloisKeys, KeyGenerator, PublicKey, RelinearizationKeys, SecretKey};
pub use modulus::{CoefficientModulus, Modulus, PlainModulus, SecurityLevel};
pub use plaintext_ciphertext::{Ciphertext, Plaintext};

verus! {

/// Compression applied to serialized key and ciphertext material by the
/// serialization collaborator; this core only records the choice.
#[derive(Clone, Copy, Debug, PartialEq, Eq, Structural)]
pub enum CompressionType {
    ZStd,
}

/// Tags the integer types that may appear as literal operands in
/// homomorphic programs.
pub trait FheLiteral {
}

impl FheLiteral for u64 {

}

impl FheLiteral for i64 {

}

} // verus!
