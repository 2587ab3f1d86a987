//! The immutable description of the ring: degree, coefficient modulus
//! chain and plaintext modulus, assembled through a builder.

use vstd::prelude::*;

use crate::error::Error;
use crate::modulus::{bit_length, is_power_of_two, Modulus};

verus! {

/// The raw parameter set a ring context is built from.
pub struct EncryptionParameters {
    pub poly_modulus_degree: u64,
    pub coeff_modulus: Vec<Modulus>,
    pub plain_modulus: Modulus,
}

/// Two parameter sets describe the same ring.
pub open spec fn params_equal(a: &EncryptionParameters, b: &EncryptionParameters) -> bool {
    &&& a.poly_modulus_degree == b.poly_modulus_degree
    &&& a.coeff_modulus@ == b.coeff_modulus@
    &&& a.plain_modulus == b.plain_modulus
}

/// The shape every accepted parameter set has: a power-of-two degree in
/// the standardized range, a non-empty chain of bounded length, and a
/// plaintext modulus of at most 60 bits.
pub open spec fn params_wf(p: &EncryptionParameters) -> bool {
    &&& is_power_of_two(p.poly_modulus_degree as int)
    &&& 1024 <= p.poly_modulus_degree <= 32768
    &&& 1 <= p.coeff_modulus@.len() <= 64
    &&& 2 <= p.plain_modulus.value < 0x1000000000000000
}

/// The total bit size of a modulus chain.
pub open spec fn chain_bits(ms: Seq<Modulus>) -> nat
    decreases ms.len(),
{
    if ms.len() == 0 {
        0
    } else {
        chain_bits(ms.drop_last()) + bit_length(ms.last().value as nat)
    }
}

/// The batching view exists exactly when the plaintext modulus is
/// congruent to 1 modulo twice the ring degree.
pub open spec fn spec_batching_enabled(p: &EncryptionParameters) -> bool {
    (p.plain_modulus.value - 1) % (2 * p.poly_modulus_degree as int) == 0
}

/// The noise budget a freshly encrypted ciphertext starts with under
/// this crate's accounting: the headroom between the total coefficient
/// modulus size and the plaintext modulus size.
pub open spec fn initial_noise_budget(p: &EncryptionParameters) -> u64 {
    let b = chain_bits(p.coeff_modulus@) - bit_length(p.plain_modulus.value as nat) - 1;
    if b >= 0 && b <= u64::MAX {
        b as u64
    } else {
        0u64
    }
}

/// Copies a modulus chain.
pub fn clone_moduli(ms: &Vec<Modulus>) -> (r: Vec<Modulus>)
    ensures
        r@ == ms@,
{
    let mut r: Vec<Modulus> = Vec::new();
    let mut i: usize = 0;
    while i < ms.len()
        invariant
            i <= ms@.len(),
            r@ == ms@.take(i as int),
        decreases ms@.len() - i,
    {
        r.push(ms[i]);
        proof {
            assert(r@ =~= ms@.take(i + 1));
        }
        i = i + 1;
    }
    proof {
        assert(ms@.take(ms@.len() as int) =~= ms@);
    }
    r
}

/// Compares two parameter sets field by field.
pub fn params_eq_exec(a: &EncryptionParameters, b: &EncryptionParameters) -> (r: bool)
    ensures
        r == params_equal(a, b),
{
    if a.poly_modulus_degree != b.poly_modulus_degree {
        return false;
    }
    if a.plain_modulus.value != b.plain_modulus.value {
        return false;
    }
    if a.coeff_modulus.len() != b.coeff_modulus.len() {
        return false;
    }
    let mut i: usize = 0;
    while i < a.coeff_modulus.len()
        invariant
            i <= a.coeff_modulus@.len(),
            a.coeff_modulus@.len() == b.coeff_modulus@.len(),
            forall|j: int| 0 <= j < i ==> a.coeff_modulus@[j] == b.coeff_modulus@[j],
        decreases a.coeff_modulus@.len() - i,
    {
        if a.coeff_modulus[i].value != b.coeff_modulus[i].value {
            return false;
        }
        i = i + 1;
    }
    proof {
        assert(a.coeff_modulus@ =~= b.coeff_modulus@);
    }
    true
}

impl Clone for EncryptionParameters {
    /// A logical copy: the same ring description in a fresh allocation.
    fn clone(&self) -> (r: Self)
        ensures
            params_equal(&r, self),
    {
        EncryptionParameters {
            poly_modulus_degree: self.poly_modulus_degree,
            coeff_modulus: clone_moduli(&self.coeff_modulus),
            plain_modulus: self.plain_modulus,
        }
    }
}

/// Assembles an `EncryptionParameters` value field by field; `build`
/// fails unless every field was supplied.  Whether the assembled set is
/// usable is decided later, by `Context::new`.
pub struct BfvEncryptionParametersBuilder {
    pub degree: Option<u64>,
    pub coeff: Option<Vec<Modulus>>,
    pub plain: Option<Modulus>,
}

impl BfvEncryptionParametersBuilder {
    /// Starts with no field set.
    pub fn new() -> (b: Self)
        ensures
            b.degree is None,
            b.coeff is None,
            b.plain is None,
    {
        BfvEncryptionParametersBuilder { degree: None, coeff: None, plain: None }
    }

    /// Sets the ring degree.
    pub fn set_poly_modulus_degree(self, degree: u64) -> (b: Self)
        ensures
            b.degree == Some(degree),
            b.coeff == self.coeff,
            b.plain == self.plain,
    {
        BfvEncryptionParametersBuilder { degree: Some(degree), ..self }
    }

    /// Sets the coefficient modulus chain.
    pub fn set_coefficient_modulus(self, ms: Vec<Modulus>) -> (b: Self)
        ensures
            b.degree == self.degree,
            b.coeff == Some(ms),
            b.plain == self.plain,
    {
        BfvEncryptionParametersBuilder { coeff: Some(ms), ..self }
    }

    /// Sets the plaintext modulus.
    pub fn set_plain_modulus(self, m: Modulus) -> (b: Self)
        ensures
            b.degree == self.degree,
            b.coeff == self.coeff,
            b.plain == Some(m),
    {
        BfvEncryptionParametersBuilder { plain: Some(m), ..self }
    }

    /// Yields the assembled parameters, or `InvalidArgument` when a field
    /// was never supplied.
    pub fn build(self) -> (r: Result<EncryptionParameters, Error>)
        ensures
            match r {
                Ok(p) => {
                    &&& self.degree is Some
                    &&& self.coeff is Some
                    &&& self.plain is Some
                    &&& p.poly_modulus_degree == self.degree.unwrap()
                    &&& p.coeff_modulus@ == self.coeff.unwrap()@
                    &&& p.plain_modulus == self.plain.unwrap()
                },
                Err(e) => {
                    &&& e == Error::InvalidArgument
                    &&& self.degree is None || self.coeff is None || self.plain is None
                },
            },
    {
        match (self.degree, self.coeff, self.plain) {
            (Some(degree), Some(coeff), Some(plain)) => Ok(
                EncryptionParameters {
                    poly_modulus_degree: degree,
                    coeff_modulus: coeff,
                    plain_modulus: plain,
                },
            ),
            _ => Err(Error::InvalidArgument),
        }
    }
}

} // verus!
