//! The encryption boundary of the model.
//!
//! Real encryption masks a plaintext with key-dependent randomness;
//! that masking is outside this core.  Here `Encryptor` produces the
//! fresh-ciphertext state the evaluator's contracts start from (minimal
//! size, head of the modulus chain, coefficient form, full noise
//! budget), carrying the plaintext's slot vector, and `Decryptor` reads
//! it back while the noise budget lasts.

use vstd::prelude::*;

use crate::context::{chain_levels, context_wf, Context};
use crate::encryption_parameters::{initial_noise_budget, params_equal};
use crate::error::Error;
use crate::key_generator::{PublicKey, SecretKey};
use crate::modulus::bit_length;
use crate::plaintext_ciphertext::{
    ciphertext_in, ciphertext_wf, plaintext_matches, plaintext_wf, Ciphertext, Plaintext,
};

verus! {

/// Encrypts plaintexts under one context's keys.
pub struct Encryptor {
    pub context: Context,
}

/// Decrypts ciphertexts under one context's secret key.
pub struct Decryptor {
    pub context: Context,
}

/// Computes the initial noise budget of a fresh ciphertext: the
/// headroom between the chain's total bit size and the plaintext
/// modulus's bit size.
fn initial_noise_budget_exec(ctx: &Context) -> (b: u64)
    requires
        context_wf(ctx),
    ensures
        b == initial_noise_budget(&ctx.params),
{
    let total = crate::context::chain_bits_exec(&ctx.params.coeff_modulus);
    let t_bits = crate::modulus::bit_length_u64(ctx.params.plain_modulus.value);
    proof {
        assert(bit_length(ctx.params.plain_modulus.value as nat) >= 1);
    }
    if total > t_bits {
        total - t_bits - 1
    } else {
        0
    }
}

impl Encryptor {
    /// Binds an encryptor to a context and its key pair; fails with
    /// `KeyMismatch` exactly when either key belongs to another ring.
    pub fn with_public_and_secret_key(
        ctx: &Context,
        public_key: &PublicKey,
        secret_key: &SecretKey,
    ) -> (r: Result<Encryptor, Error>)
        requires
            context_wf(ctx),
        ensures
            match r {
                Ok(e) => {
                    &&& params_equal(&public_key.params, &ctx.params)
                    &&& params_equal(&secret_key.params, &ctx.params)
                    &&& params_equal(&e.context.params, &ctx.params)
                    &&& e.context.expand_mod_chain == ctx.expand_mod_chain
                    &&& context_wf(&e.context)
                },
                Err(e) => {
                    &&& e == Error::KeyMismatch
                    &&& !params_equal(&public_key.params, &ctx.params) || !params_equal(
                        &secret_key.params,
                        &ctx.params,
                    )
                },
            },
    {
        if !crate::encryption_parameters::params_eq_exec(&public_key.params, &ctx.params) {
            return Err(Error::KeyMismatch);
        }
        if !crate::encryption_parameters::params_eq_exec(&secret_key.params, &ctx.params) {
            return Err(Error::KeyMismatch);
        }
        Ok(Encryptor { context: ctx.clone() })
    }

    /// Encrypts a plaintext into a fresh minimal ciphertext: size 2, the
    /// head of the modulus chain, coefficient form, and the full noise
    /// budget.  Fails with `InvalidOperation` exactly when the plaintext
    /// belongs to another ring or is in NTT form.
    pub fn encrypt(&self, plaintext: &Plaintext) -> (r: Result<Ciphertext, Error>)
        requires
            context_wf(&self.context),
            plaintext_wf(plaintext),
        ensures
            match r {
                Ok(c) => {
                    &&& plaintext_matches(plaintext, &self.context.params)
                    &&& !plaintext.is_ntt
                    &&& c@ == plaintext@
                    &&& c.size == 2
                    &&& c.chain_level == chain_levels(&self.context) - 1
                    &&& !c.is_ntt
                    &&& c.noise_budget == initial_noise_budget(&self.context.params)
                    &&& ciphertext_in(&c, &self.context.params)
                    &&& ciphertext_wf(&c)
                },
                Err(e) => {
                    &&& e == Error::InvalidOperation
                    &&& !plaintext_matches(plaintext, &self.context.params) || plaintext.is_ntt
                },
            },
    {
        if plaintext.plain_modulus != self.context.params.plain_modulus.value
            || plaintext.degree != self.context.params.poly_modulus_degree || plaintext.is_ntt {
            return Err(Error::InvalidOperation);
        }
        let level: u64 = if self.context.expand_mod_chain {
            (self.context.params.coeff_modulus.len() - 1) as u64
        } else {
            0
        };
        Ok(
            Ciphertext {
                slots: crate::slots::clone_slots(&plaintext.slots),
                params: self.context.params.clone(),
                size: 2,
                chain_level: level,
                is_ntt: false,
                noise_budget: initial_noise_budget_exec(&self.context),
            },
        )
    }
}

impl Decryptor {
    /// Binds a decryptor to a context and its secret key; fails with
    /// `KeyMismatch` exactly when the key belongs to another ring.
    pub fn new(ctx: &Context, secret_key: &SecretKey) -> (r: Result<Decryptor, Error>)
        requires
            context_wf(ctx),
        ensures
            match r {
                Ok(d) => {
                    &&& params_equal(&secret_key.params, &ctx.params)
                    &&& params_equal(&d.context.params, &ctx.params)
                    &&& context_wf(&d.context)
                },
                Err(e) => {
                    &&& e == Error::KeyMismatch
                    &&& !params_equal(&secret_key.params, &ctx.params)
                },
            },
    {
        if !crate::encryption_parameters::params_eq_exec(&secret_key.params, &ctx.params) {
            return Err(Error::KeyMismatch);
        }
        Ok(Decryptor { context: ctx.clone() })
    }

    /// Decrypts a ciphertext back into the plaintext it carries.  Fails
    /// with `InvalidOperation` exactly when the ciphertext belongs to
    /// another ring or its noise budget is exhausted, in which case
    /// decryption is no longer reliable.
    pub fn decrypt(&self, ciphertext: &Ciphertext) -> (r: Result<Plaintext, Error>)
        requires
            context_wf(&self.context),
            ciphertext_wf(ciphertext),
        ensures
            match r {
                Ok(p) => {
                    &&& ciphertext_in(ciphertext, &self.context.params)
                    &&& ciphertext.noise_budget > 0
                    &&& p@ == ciphertext@
                    &&& !p.is_ntt
                    &&& plaintext_matches(&p, &self.context.params)
                    &&& plaintext_wf(&p)
                },
                Err(e) => {
                    &&& e == Error::InvalidOperation
                    &&& !ciphertext_in(ciphertext, &self.context.params)
                        || ciphertext.noise_budget == 0
                },
            },
    {
        if !crate::encryption_parameters::params_eq_exec(&ciphertext.params, &self.context.params) {
            return Err(Error::InvalidOperation);
        }
        if ciphertext.noise_budget == 0 {
            return Err(Error::InvalidOperation);
        }
        Ok(
            Plaintext {
                slots: crate::slots::clone_slots(&ciphertext.slots),
                plain_modulus: self.context.params.plain_modulus.value,
                degree: self.context.params.poly_modulus_degree,
                is_ntt: false,
                chain_level: 0,
            },
        )
    }

    /// The remaining noise budget of a ciphertext, in bits; decryption
    /// stays reliable while it is positive.  Fails with
    /// `InvalidOperation` exactly when the ciphertext belongs to another
    /// ring.
    pub fn invariant_noise_budget(&self, ciphertext: &Ciphertext) -> (r: Result<u64, Error>)
        requires
            context_wf(&self.context),
        ensures
            match r {
                Ok(b) => {
                    &&& ciphertext_in(ciphertext, &self.context.params)
                    &&& b == ciphertext.noise_budget
                },
                Err(e) => {
                    &&& e == Error::InvalidOperation
                    &&& !ciphertext_in(ciphertext, &self.context.params)
                },
            },
    {
        if !crate::encryption_parameters::params_eq_exec(&ciphertext.params, &self.context.params) {
            return Err(Error::InvalidOperation);
        }
        Ok(ciphertext.noise_budget)
    }
}

} // verus!
