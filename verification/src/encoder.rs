//! The CRT batching encoder: the bijection between flat integer vectors
//! and batched plaintexts, in an unsigned and a centered signed variant.

use vstd::prelude::*;

use crate::context::{context_wf, Context};
use crate::encryption_parameters::{
    params_equal, params_wf, spec_batching_enabled, EncryptionParameters,
};
use crate::error::{Error, ParameterError};
use crate::plaintext_ciphertext::{plaintext_matches, plaintext_wf, Plaintext};
use crate::slots::{clone_slots, decode_signed_spec, encode_signed_spec, signed_in_range};

verus! {

/// Encodes vectors of at most N integers into plaintexts and back,
/// viewing a plaintext as a 2 x (N/2) matrix: the first half of a
/// vector forms row 0, the second half row 1.  Exists only for contexts
/// whose plaintext modulus supports batching.
pub struct BFVEncoder {
    pub params: EncryptionParameters,
}

/// What holds of every constructed encoder: valid parameters whose
/// plaintext modulus is congruent to 1 modulo 2N.
pub open spec fn encoder_wf(e: &BFVEncoder) -> bool {
    &&& params_wf(&e.params)
    &&& spec_batching_enabled(&e.params)
}

/// A batching-enabled plaintext modulus is odd.
pub proof fn lemma_batching_modulus_odd(p: &EncryptionParameters)
    requires
        params_wf(p),
        spec_batching_enabled(p),
    ensures
        p.plain_modulus.value % 2 == 1,
{
    let t = p.plain_modulus.value as int;
    let d = p.poly_modulus_degree as int;
    let m = 2 * d;
    vstd::arithmetic::div_mod::lemma_fundamental_div_mod(t - 1, m);
    let k = (t - 1) / m;
    assert(t - 1 == m * k);
    assert(m * k == (d * k) * 2) by {
        vstd::arithmetic::mul::lemma_mul_is_associative(2, d, k);
        vstd::arithmetic::mul::lemma_mul_is_commutative(2, d * k);
    }
    assert((t - 1) % 2 == 0) by {
        vstd::arithmetic::div_mod::lemma_mod_multiples_basic(d * k, 2);
    }
    vstd::arithmetic::div_mod::lemma_fundamental_div_mod(t - 1, 2);
    assert(t == ((t - 1) / 2) * 2 + 1);
    assert(t % 2 == 1) by {
        vstd::arithmetic::div_mod::lemma_fundamental_div_mod_converse_mod(t, 2, (t - 1) / 2, 1);
    }
}

/// For an odd modulus the two halves of the centered range coincide:
/// floor(t/2) equals floor((t-1)/2).
pub proof fn lemma_half_of_odd(t: u64)
    requires
        t >= 2,
        t % 2 == 1,
    ensures
        t as int / 2 == (t as int - 1) / 2,
{
    let t = t as int;
    vstd::arithmetic::div_mod::lemma_fundamental_div_mod(t, 2);
    assert(t == 2 * (t / 2) + 1);
    assert(t - 1 == (t / 2) * 2 + 0);
    vstd::arithmetic::div_mod::lemma_fundamental_div_mod_converse_div(t - 1, 2, t / 2, 0);
}

impl BFVEncoder {
    /// Builds the encoder for a context; fails with
    /// `BatchingNotSupported` exactly when the context's plaintext
    /// modulus is not congruent to 1 modulo 2N.
    pub fn new(ctx: &Context) -> (r: Result<BFVEncoder, Error>)
        requires
            context_wf(ctx),
        ensures
            match r {
                Ok(e) => {
                    &&& spec_batching_enabled(&ctx.params)
                    &&& params_equal(&e.params, &ctx.params)
                    &&& encoder_wf(&e)
                },
                Err(e) => {
                    &&& !spec_batching_enabled(&ctx.params)
                    &&& e == Error::Parameter(ParameterError::BatchingNotSupported)
                },
            },
    {
        if !ctx.batching_enabled() {
            return Err(Error::Parameter(ParameterError::BatchingNotSupported));
        }
        Ok(BFVEncoder { params: ctx.params.clone() })
    }

    /// The number of SIMD slots a plaintext holds: the ring degree N.
    pub fn get_slot_count(&self) -> (n: usize)
        requires
            encoder_wf(self),
        ensures
            n == self.params.poly_modulus_degree,
    {
        self.params.poly_modulus_degree as usize
    }

    /// Batches a vector of unsigned values, each below the plaintext
    /// modulus, into a plaintext whose leading slots are exactly the
    /// vector; the remaining slots are zero.  Fails with
    /// `InvalidArgument` exactly when the vector is longer than the slot
    /// count or holds a value outside [0, t).
    pub fn encode_unsigned(&self, data: &Vec<u64>) -> (r: Result<Plaintext, Error>)
        requires
            encoder_wf(self),
        ensures
            match r {
                Ok(p) => {
                    &&& data@.len() <= self.params.poly_modulus_degree
                    &&& forall|i: int|
                        0 <= i < data@.len() ==> #[trigger] data@[i]
                            < self.params.plain_modulus.value
                    &&& p@ == data@
                    &&& plaintext_wf(&p)
                    &&& plaintext_matches(&p, &self.params)
                    &&& !p.is_ntt
                },
                Err(e) => {
                    &&& e == Error::InvalidArgument
                    &&& data@.len() > self.params.poly_modulus_degree || exists|i: int|
                        0 <= i < data@.len() && #[trigger] data@[i]
                            >= self.params.plain_modulus.value
                },
            },
    {
        let t = self.params.plain_modulus.value;
        if data.len() > self.params.poly_modulus_degree as usize {
            return Err(Error::InvalidArgument);
        }
        let mut i: usize = 0;
        while i < data.len()
            invariant
                i <= data@.len(),
                t == self.params.plain_modulus.value,
                forall|j: int| 0 <= j < i ==> #[trigger] data@[j] < t,
            decreases data@.len() - i,
        {
            if data[i] >= t {
                return Err(Error::InvalidArgument);
            }
            i = i + 1;
        }
        Ok(
            Plaintext {
                slots: clone_slots(data),
                plain_modulus: t,
                degree: self.params.poly_modulus_degree,
                is_ntt: false,
                chain_level: 0,
            },
        )
    }

    /// Batches a vector of signed values in the centered range
    /// [-(t-1)/2, (t-1)/2] into a plaintext: non-negative values map to
    /// themselves, negative values to t + v.  Fails with
    /// `InvalidArgument` exactly when the vector is longer than the slot
    /// count or holds a value outside the centered range.
    pub fn encode_signed(&self, data: &Vec<i64>) -> (r: Result<Plaintext, Error>)
        requires
            encoder_wf(self),
        ensures
            match r {
                Ok(p) => {
                    &&& data@.len() <= self.params.poly_modulus_degree
                    &&& forall|i: int|
                        0 <= i < data@.len() ==> #[trigger] signed_in_range(
                            data@[i],
                            self.params.plain_modulus.value,
                        )
                    &&& p@ == encode_signed_spec(data@, self.params.plain_modulus.value)
                    &&& p@.len() == data@.len()
                    &&& plaintext_wf(&p)
                    &&& plaintext_matches(&p, &self.params)
                    &&& !p.is_ntt
                },
                Err(e) => {
                    &&& e == Error::InvalidArgument
                    &&& data@.len() > self.params.poly_modulus_degree || exists|i: int|
                        0 <= i < data@.len() && !#[trigger] signed_in_range(
                            data@[i],
                            self.params.plain_modulus.value,
                        )
                },
            },
    {
        let t = self.params.plain_modulus.value;
        proof {
            lemma_batching_modulus_odd(&self.params);
        }
        if data.len() > self.params.poly_modulus_degree as usize {
            return Err(Error::InvalidArgument);
        }
        let h: u64 = (t - 1) / 2;
        let mut slots: Vec<u64> = Vec::new();
        let mut i: usize = 0;
        while i < data.len()
            invariant
                i <= data@.len(),
                t == self.params.plain_modulus.value,
                2 <= t < 0x1000000000000000,
                t % 2 == 1,
                h == (t - 1) / 2,
                forall|j: int| 0 <= j < i ==> #[trigger] signed_in_range(data@[j], t),
                slots@ == encode_signed_spec(data@, t).take(i as int),
            decreases data@.len() - i,
        {
            proof {
                lemma_half_of_odd(t);
            }
            let v = data[i];
            if v >= 0 {
                if (v as u64) > h {
                    proof {
                        assert(!signed_in_range(data@[i as int], t));
                    }
                    return Err(Error::InvalidArgument);
                }
                slots.push(v as u64);
            } else {
                if v < -(h as i64) {
                    proof {
                        assert(!signed_in_range(data@[i as int], t));
                    }
                    return Err(Error::InvalidArgument);
                }
                slots.push(t - ((-v) as u64));
            }
            proof {
                assert(signed_in_range(data@[i as int], t));
                assert(slots@ =~= encode_signed_spec(data@, t).take(i + 1));
            }
            i = i + 1;
        }
        proof {
            assert(encode_signed_spec(data@, t).take(data@.len() as int) =~= encode_signed_spec(
                data@,
                t,
            ));
            assert forall|j: int| 0 <= j < data@.len() implies #[trigger] encode_signed_spec(
                data@,
                t,
            )[j] < t by {
                crate::slots::lemma_signed_residue_round_trip(data@[j], t);
            }
        }
        Ok(
            Plaintext {
                slots,
                plain_modulus: t,
                degree: self.params.poly_modulus_degree,
                is_ntt: false,
                chain_level: 0,
            },
        )
    }

    /// Unbatches a plaintext into the vector of its stored slots.  The
    /// number of returned values is the plaintext's stored slot count,
    /// which for an encoded plaintext is the length of the vector that
    /// was encoded; callers needing a full-width result pad separately.
    /// Fails with `InvalidOperation` exactly when the plaintext belongs
    /// to another ring or is in NTT form, and so is outside the
    /// batching image of this encoder.
    pub fn decode_unsigned(&self, plaintext: &Plaintext) -> (r: Result<Vec<u64>, Error>)
        requires
            encoder_wf(self),
            plaintext_wf(plaintext),
        ensures
            match r {
                Ok(v) => {
                    &&& plaintext_matches(plaintext, &self.params)
                    &&& !plaintext.is_ntt
                    &&& v@ == plaintext@
                },
                Err(e) => {
                    &&& e == Error::InvalidOperation
                    &&& !plaintext_matches(plaintext, &self.params) || plaintext.is_ntt
                },
            },
    {
        if plaintext.plain_modulus != self.params.plain_modulus.value || plaintext.degree
            != self.params.poly_modulus_degree || plaintext.is_ntt {
            return Err(Error::InvalidOperation);
        }
        Ok(clone_slots(&plaintext.slots))
    }

    /// Unbatches a plaintext into the centered signed reading of its
    /// stored slots, one value per stored slot as in `decode_unsigned`.
    /// Fails with `InvalidOperation` exactly when the plaintext belongs
    /// to another ring or is in NTT form.
    pub fn decode_signed(&self, plaintext: &Plaintext) -> (r: Result<Vec<i64>, Error>)
        requires
            encoder_wf(self),
            plaintext_wf(plaintext),
        ensures
            match r {
                Ok(v) => {
                    &&& plaintext_matches(plaintext, &self.params)
                    &&& !plaintext.is_ntt
                    &&& v@ == decode_signed_spec(plaintext@, self.params.plain_modulus.value)
                    &&& v@.len() == plaintext@.len()
                },
                Err(e) => {
                    &&& e == Error::InvalidOperation
                    &&& !plaintext_matches(plaintext, &self.params) || plaintext.is_ntt
                },
            },
    {
        let t = self.params.plain_modulus.value;
        if plaintext.plain_modulus != t || plaintext.degree != self.params.poly_modulus_degree
            || plaintext.is_ntt {
            return Err(Error::InvalidOperation);
        }
        let h: u64 = (t - 1) / 2;
        let mut out: Vec<i64> = Vec::new();
        let mut i: usize = 0;
        while i < plaintext.slots.len()
            invariant
                i <= plaintext.slots@.len(),
                t == self.params.plain_modulus.value,
                plaintext_wf(plaintext),
                t == plaintext.plain_modulus,
                2 <= t < 0x1000000000000000,
                h == (t - 1) / 2,
                out@ == decode_signed_spec(plaintext.slots@, t).take(i as int),
            decreases plaintext.slots@.len() - i,
        {
            let s = plaintext.slots[i];
            if s <= h {
                out.push(s as i64);
            } else {
                out.push(-((t - s) as i64));
            }
            proof {
                assert(out@ =~= decode_signed_spec(plaintext.slots@, t).take(i + 1));
            }
            i = i + 1;
        }
        proof {
            assert(decode_signed_spec(plaintext.slots@, t).take(plaintext.slots@.len() as int)
                =~= decode_signed_spec(plaintext.slots@, t));
        }
        Ok(out)
    }
}

} // verus!
