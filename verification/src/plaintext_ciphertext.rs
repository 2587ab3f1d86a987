//! The value-like containers the scheme works on.
//!
//! A `Plaintext` is a batched ring element, viewed through the CRT
//! isomorphism as its vector of integer slots modulo the plaintext
//! modulus.  A `Ciphertext` is an encryption of such an element; since
//! the cryptographic masking is outside this core, it carries the slot
//! vector its decryption yields, together with the algebraic metadata
//! the evaluator tracks: representation size, coefficient-vs-NTT form,
//! modulus-chain level, and the remaining noise budget.

use vstd::prelude::*;

use crate::encryption_parameters::{params_equal, params_wf, EncryptionParameters};
use crate::slots::slots_reduced;

verus! {

/// A degree-< N polynomial over the plaintext modulus, in its batching
/// view: a stored vector of slots, implicitly zero beyond its length.
pub struct Plaintext {
    pub slots: Vec<u64>,
    pub plain_modulus: u64,
    pub degree: u64,
    pub is_ntt: bool,
    pub chain_level: u64,
}

impl View for Plaintext {
    type V = Seq<u64>;

    open spec fn view(&self) -> Seq<u64> {
        self.slots@
    }
}

/// Every plaintext this crate hands out satisfies this shape.
pub open spec fn plaintext_wf(p: &Plaintext) -> bool {
    &&& 2 <= p.plain_modulus
    &&& 2 <= p.degree
    &&& p.slots@.len() <= p.degree
    &&& slots_reduced(p.slots@, p.plain_modulus)
}

/// The plaintext belongs to the ring the parameters describe.
pub open spec fn plaintext_matches(p: &Plaintext, params: &EncryptionParameters) -> bool {
    &&& p.plain_modulus == params.plain_modulus.value
    &&& p.degree == params.poly_modulus_degree
}

impl Clone for Plaintext {
    /// A logical deep copy: same slots, same metadata.
    fn clone(&self) -> (r: Self)
        ensures
            r@ == self@,
            r.plain_modulus == self.plain_modulus,
            r.degree == self.degree,
            r.is_ntt == self.is_ntt,
            r.chain_level == self.chain_level,
    {
        Plaintext {
            slots: crate::slots::clone_slots(&self.slots),
            plain_modulus: self.plain_modulus,
            degree: self.degree,
            is_ntt: self.is_ntt,
            chain_level: self.chain_level,
        }
    }
}

/// An encryption of a plaintext: the slot vector its decryption yields,
/// plus the evaluator's bookkeeping.
pub struct Ciphertext {
    pub slots: Vec<u64>,
    pub params: EncryptionParameters,
    pub size: u64,
    pub chain_level: u64,
    pub is_ntt: bool,
    pub noise_budget: u64,
}

impl View for Ciphertext {
    type V = Seq<u64>;

    open spec fn view(&self) -> Seq<u64> {
        self.slots@
    }
}

/// Every ciphertext this crate hands out satisfies this shape: valid
/// parameters, at least the minimal two polynomials, a level inside the
/// chain, and reduced slots.
pub open spec fn ciphertext_wf(c: &Ciphertext) -> bool {
    &&& params_wf(&c.params)
    &&& c.size >= 2
    &&& c.chain_level < c.params.coeff_modulus@.len()
    &&& c.slots@.len() <= c.params.poly_modulus_degree
    &&& slots_reduced(c.slots@, c.params.plain_modulus.value)
}

/// The ciphertext belongs to the ring the parameters describe.
pub open spec fn ciphertext_in(c: &Ciphertext, params: &EncryptionParameters) -> bool {
    params_equal(&c.params, params)
}

/// Two ciphertext values are observably identical: same slots, same
/// ring, same metadata.  A failing in-place operation leaves its
/// destination in this relation to the prior value.
pub open spec fn cipher_same(x: &Ciphertext, y: &Ciphertext) -> bool {
    &&& x@ == y@
    &&& params_equal(&x.params, &y.params)
    &&& x.size == y.size
    &&& x.chain_level == y.chain_level
    &&& x.is_ntt == y.is_ntt
    &&& x.noise_budget == y.noise_budget
}

/// Two plaintext values are observably identical.
pub open spec fn plain_same(x: &Plaintext, y: &Plaintext) -> bool {
    &&& x@ == y@
    &&& x.plain_modulus == y.plain_modulus
    &&& x.degree == y.degree
    &&& x.is_ntt == y.is_ntt
    &&& x.chain_level == y.chain_level
}

impl Ciphertext {
    /// The number of ring polynomials this ciphertext is made of.
    pub fn size(&self) -> (s: u64)
        ensures
            s == self.size,
    {
        self.size
    }

    /// The index of the modulus-chain level the ciphertext lives at.
    pub fn chain_level(&self) -> (l: u64)
        ensures
            l == self.chain_level,
    {
        self.chain_level
    }

    /// Whether the ciphertext is in NTT form.
    pub fn is_ntt(&self) -> (b: bool)
        ensures
            b == self.is_ntt,
    {
        self.is_ntt
    }
}

impl Clone for Ciphertext {
    /// A logical deep copy: same slots, same metadata, never an aliased
    /// buffer.
    fn clone(&self) -> (r: Self)
        ensures
            r@ == self@,
            params_equal(&r.params, &self.params),
            r.size == self.size,
            r.chain_level == self.chain_level,
            r.is_ntt == self.is_ntt,
            r.noise_budget == self.noise_budget,
    {
        Ciphertext {
            slots: crate::slots::clone_slots(&self.slots),
            params: self.params.clone(),
            size: self.size,
            chain_level: self.chain_level,
            is_ntt: self.is_ntt,
            noise_budget: self.noise_budget,
        }
    }
}

} // verus!
