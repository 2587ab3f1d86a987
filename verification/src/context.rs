//! The validated, immutable ring context every other component is bound
//! to.

use vstd::prelude::*;

use crate::encryption_parameters::{
    chain_bits, params_equal, params_wf, spec_batching_enabled, EncryptionParameters,
};
use crate::error::{Error, ParameterError};
use crate::modulus::{bit_length_u64, is_power_of_two_u64, SecurityLevel};

verus! {

/// A parameter set that passed validation, together with the modulus
/// chain policy and the security level it was validated against.
pub struct Context {
    pub params: EncryptionParameters,
    pub expand_mod_chain: bool,
    pub security_level: SecurityLevel,
}

/// The largest total coefficient modulus size, in bits, that the
/// homomorphic encryption standard allows for a ring degree at a
/// security level.
pub open spec fn max_chain_bits(degree: u64, level: SecurityLevel) -> int {
    match level {
        SecurityLevel::TC128 => {
            if degree == 1024 {
                27
            } else if degree == 2048 {
                54
            } else if degree == 4096 {
                109
            } else if degree == 8192 {
                218
            } else if degree == 16384 {
                438
            } else {
                881
            }
        },
        SecurityLevel::TC192 => {
            if degree == 1024 {
                19
            } else if degree == 2048 {
                37
            } else if degree == 4096 {
                75
            } else if degree == 8192 {
                152
            } else if degree == 16384 {
                305
            } else {
                611
            }
        },
        SecurityLevel::TC256 => {
            if degree == 1024 {
                14
            } else if degree == 2048 {
                29
            } else if degree == 4096 {
                58
            } else if degree == 8192 {
                118
            } else if degree == 16384 {
                237
            } else {
                476
            }
        },
    }
}

/// The first reason, if any, a parameter set is rejected at a security
/// level: degree first, then the chain, then the security bound, then
/// the plaintext modulus.
pub open spec fn params_rejection(p: &EncryptionParameters, level: SecurityLevel) -> Option<
    ParameterError,
> {
    if !(crate::modulus::is_power_of_two(p.poly_modulus_degree as int) && 1024
        <= p.poly_modulus_degree <= 32768) {
        Some(ParameterError::InvalidDegree)
    } else if !(1 <= p.coeff_modulus@.len() <= 64) {
        Some(ParameterError::InvalidModulusChain)
    } else if chain_bits(p.coeff_modulus@) > max_chain_bits(p.poly_modulus_degree, level) {
        Some(ParameterError::SecurityLevelExceeded)
    } else if !(2 <= p.plain_modulus.value < 0x1000000000000000) {
        Some(ParameterError::InvalidPlainModulus)
    } else {
        None
    }
}

/// The number of modulus-chain levels ciphertexts under this context
/// move through: the whole chain when switching was requested, else a
/// single level.
pub open spec fn chain_levels(c: &Context) -> int {
    if c.expand_mod_chain {
        c.params.coeff_modulus@.len() as int
    } else {
        1
    }
}

/// A context as constructed: validated parameters and a level count the
/// chain supports.
pub open spec fn context_wf(c: &Context) -> bool {
    params_wf(&c.params)
}

/// Looks up the standard's bound for a validated degree.
fn max_chain_bits_exec(degree: u64, level: SecurityLevel) -> (b: u64)
    ensures
        b == max_chain_bits(degree, level),
{
    match level {
        SecurityLevel::TC128 => {
            if degree == 1024 {
                27
            } else if degree == 2048 {
                54
            } else if degree == 4096 {
                109
            } else if degree == 8192 {
                218
            } else if degree == 16384 {
                438
            } else {
                881
            }
        },
        SecurityLevel::TC192 => {
            if degree == 1024 {
                19
            } else if degree == 2048 {
                37
            } else if degree == 4096 {
                75
            } else if degree == 8192 {
                152
            } else if degree == 16384 {
                305
            } else {
                611
            }
        },
        SecurityLevel::TC256 => {
            if degree == 1024 {
                14
            } else if degree == 2048 {
                29
            } else if degree == 4096 {
                58
            } else if degree == 8192 {
                118
            } else if degree == 16384 {
                237
            } else {
                476
            }
        },
    }
}

/// Sums the bit sizes of a modulus chain.
pub(crate) fn chain_bits_exec(ms: &Vec<crate::modulus::Modulus>) -> (b: u64)
    requires
        ms@.len() <= 64,
    ensures
        b == chain_bits(ms@),
        b <= 64 * 64,
{
    let mut b: u64 = 0;
    let mut i: usize = 0;
    while i < ms.len()
        invariant
            i <= ms@.len() <= 64,
            b == chain_bits(ms@.take(i as int)),
            b <= 64 * i,
        decreases ms@.len() - i,
    {
        let w = bit_length_u64(ms[i].value);
        proof {
            assert(ms@.take(i + 1).drop_last() =~= ms@.take(i as int));
            assert(ms@.take(i + 1).last() == ms@[i as int]);
        }
        b = b + w;
        i = i + 1;
    }
    proof {
        assert(ms@.take(ms@.len() as int) =~= ms@);
    }
    b
}

impl Context {
    /// Validates a parameter set against a security level and, when it is
    /// accepted, freezes it into a context.  `expand_mod_chain` decides
    /// whether ciphertexts may be switched down the coefficient modulus
    /// chain or stay at its head.
    pub fn new(params: &EncryptionParameters, expand_mod_chain: bool, level: SecurityLevel) -> (r:
        Result<Context, Error>)
        ensures
            match r {
                Ok(c) => {
                    &&& params_rejection(params, level) is None
                    &&& params_equal(&c.params, params)
                    &&& c.expand_mod_chain == expand_mod_chain
                    &&& c.security_level == level
                    &&& context_wf(&c)
                },
                Err(e) => {
                    &&& params_rejection(params, level) matches Some(pe) && e == Error::Parameter(
                        pe,
                    )
                },
            },
    {
        let degree = params.poly_modulus_degree;
        if !is_power_of_two_u64(degree) || degree < 1024 || degree > 32768 {
            return Err(Error::Parameter(ParameterError::InvalidDegree));
        }
        let len = params.coeff_modulus.len();
        if len < 1 || len > 64 {
            return Err(Error::Parameter(ParameterError::InvalidModulusChain));
        }
        let total = chain_bits_exec(&params.coeff_modulus);
        if total > max_chain_bits_exec(degree, level) {
            return Err(Error::Parameter(ParameterError::SecurityLevelExceeded));
        }
        let t = params.plain_modulus.value;
        if t < 2 || t >= 0x1000000000000000 {
            return Err(Error::Parameter(ParameterError::InvalidPlainModulus));
        }
        Ok(Context { params: params.clone(), expand_mod_chain, security_level: level })
    }

    /// Whether the CRT batching view exists for this context.
    pub fn batching_enabled(&self) -> (r: bool)
        requires
            context_wf(self),
        ensures
            r == spec_batching_enabled(&self.params),
    {
        let t = self.params.plain_modulus.value;
        let m = 2 * self.params.poly_modulus_degree;
        (t - 1) % m == 0
    }
}

impl Clone for Context {
    /// A logical copy bound to the same ring.
    fn clone(&self) -> (r: Self)
        ensures
            params_equal(&r.params, &self.params),
            r.expand_mod_chain == self.expand_mod_chain,
            r.security_level == self.security_level,
    {
        Context {
            params: self.params.clone(),
            expand_mod_chain: self.expand_mod_chain,
            security_level: self.security_level,
        }
    }
}

} // verus!
