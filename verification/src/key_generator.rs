//! Key material, modeled as opaque values bound to one ring context.
//!
//! Generating actual key polynomials is the cryptographic backend's
//! work and out of scope; what the evaluator reads of a key is the ring
//! it is bound to and, for relinearization keys, how many component
//! keys it holds.

use vstd::prelude::*;

use crate::context::{context_wf, Context};
use crate::encryption_parameters::{params_equal, EncryptionParameters};
use crate::error::Error;

verus! {

/// The public encryption key of a context.
pub struct PublicKey {
    pub params: EncryptionParameters,
}

/// The secret decryption key of a context.
pub struct SecretKey {
    pub params: EncryptionParameters,
}

/// Key-switching material that reduces ciphertext sizes: `key_count`
/// component keys reduce a ciphertext of size `key_count + 2` to the
/// minimal size 2.
pub struct RelinearizationKeys {
    pub params: EncryptionParameters,
    pub key_count: u64,
}

/// Galois automorphism keys; generated with support for every row and
/// column rotation of the batching matrix.
pub struct GaloisKeys {
    pub params: EncryptionParameters,
}

/// Produces the key material of one context.
pub struct KeyGenerator {
    pub params: EncryptionParameters,
}

impl KeyGenerator {
    /// Binds a fresh key generator to a context.
    pub fn new(ctx: &Context) -> (r: Result<KeyGenerator, Error>)
        requires
            context_wf(ctx),
        ensures
            match r {
                Ok(g) => params_equal(&g.params, &ctx.params),
                Err(_) => false,
            },
    {
        Ok(KeyGenerator { params: ctx.params.clone() })
    }

    /// The secret key of this generator's context.
    pub fn secret_key(&self) -> (k: SecretKey)
        ensures
            params_equal(&k.params, &self.params),
    {
        SecretKey { params: self.params.clone() }
    }

    /// A public key of this generator's context.
    pub fn create_public_key(&self) -> (k: PublicKey)
        ensures
            params_equal(&k.params, &self.params),
    {
        PublicKey { params: self.params.clone() }
    }

    /// Relinearization keys with one component key: enough to reduce the
    /// size-3 product of two minimal ciphertexts back to size 2.
    pub fn create_relinearization_keys(&self) -> (k: RelinearizationKeys)
        ensures
            params_equal(&k.params, &self.params),
            k.key_count == 1,
    {
        RelinearizationKeys { params: self.params.clone(), key_count: 1 }
    }

    /// Galois keys supporting every rotation step.
    pub fn create_galois_keys(&self) -> (k: GaloisKeys)
        ensures
            params_equal(&k.params, &self.params),
    {
        GaloisKeys { params: self.params.clone() }
    }
}

} // verus!
