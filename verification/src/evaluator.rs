//! The homomorphic evaluator: scheme-agnostic arithmetic on ciphertexts
//! in `Evaluator`, and the BFV-specific relinearization and rotation
//! operations in `BFVEvaluator`, composed over the same context.
//!
//! Every operation acts slot-wise modulo the plaintext modulus on the
//! vectors the operands decrypt to, and maintains the algebraic state:
//! representation size, NTT form, modulus-chain level, and the noise
//! budget.  Noise accounting is this model's own: only
//! ciphertext-ciphertext multiplication consumes budget, at a rate that
//! grows with the operands' sizes, which is exactly the growth
//! relinearization exists to bound.

use vstd::prelude::*;

use crate::context::{context_wf, Context};
use crate::encryption_parameters::{params_eq_exec, params_equal, EncryptionParameters};
use crate::error::Error;
use crate::key_generator::{GaloisKeys, RelinearizationKeys};
use crate::plaintext_ciphertext::{
    cipher_same, ciphertext_in, ciphertext_wf, plaintext_matches, plaintext_wf, Ciphertext,
    Plaintext,
};
use crate::slots::{
    all_zero, ew_add, ew_add_all, ew_mul, ew_mul_all, ew_neg, ew_pow, ew_sub, join_len,
    rotate_columns_spec, rotate_rows_spec, slot, slots_reduced,
};

verus! {

/// Scheme-agnostic homomorphic arithmetic over one context.
pub struct Evaluator {
    pub context: Context,
}

/// What holds of every constructed evaluator.
pub open spec fn evaluator_wf(e: &Evaluator) -> bool {
    context_wf(&e.context)
}

/// A noise budget after paying a cost, saturating at zero.
pub open spec fn nb_after(b: u64, cost: int) -> u64 {
    if cost <= b {
        (b - cost) as u64
    } else {
        0u64
    }
}

/// The smaller of two noise budgets.
pub open spec fn min_nb(a: u64, b: u64) -> u64 {
    if a <= b {
        a
    } else {
        b
    }
}

/// The noise cost this model charges for multiplying ciphertexts of the
/// given sizes.
pub open spec fn mul_cost(sa: u64, sb: u64) -> int {
    sa + sb - 2
}

/// Why a two-ciphertext operation is rejected, if it is: operands from
/// another ring, mismatched representation forms or levels, or (for
/// multiplicative operations) an operand not in coefficient form.
pub open spec fn binary_rejection(
    ev: &Evaluator,
    a: &Ciphertext,
    b: &Ciphertext,
    need_coeff: bool,
) -> Option<Error> {
    if !ciphertext_in(a, &ev.context.params) || !ciphertext_in(b, &ev.context.params) {
        Some(Error::InvalidOperation)
    } else if a.is_ntt != b.is_ntt || a.chain_level != b.chain_level {
        Some(Error::InvalidOperation)
    } else if need_coeff && a.is_ntt {
        Some(Error::InvalidOperation)
    } else {
        None
    }
}

/// Why a ciphertext-plaintext operation is rejected, if it is.
pub open spec fn plain_rejection(
    ev: &Evaluator,
    a: &Ciphertext,
    p: &Plaintext,
) -> Option<Error> {
    if !ciphertext_in(a, &ev.context.params) {
        Some(Error::InvalidOperation)
    } else if !plaintext_matches(p, &ev.context.params) || p.is_ntt != a.is_ntt {
        Some(Error::InvalidOperation)
    } else {
        None
    }
}

/// Elementwise sum modulo `t` of two stored slot vectors.
fn ew_add_exec(a: &Vec<u64>, b: &Vec<u64>, t: u64) -> (r: Vec<u64>)
    requires
        2 <= t < 0x1000000000000000,
        slots_reduced(a@, t),
        slots_reduced(b@, t),
    ensures
        r@ == ew_add(a@, b@, t),
        r@.len() == join_len(a@, b@),
        slots_reduced(r@, t),
{
    let la = a.len();
    let lb = b.len();
    let n = if la >= lb {
        la
    } else {
        lb
    };
    let mut r: Vec<u64> = Vec::new();
    let mut i: usize = 0;
    while i < n
        invariant
            i <= n,
            n == join_len(a@, b@),
            la == a@.len(),
            lb == b@.len(),
            2 <= t < 0x1000000000000000,
            slots_reduced(a@, t),
            slots_reduced(b@, t),
            r@.len() == i,
            forall|j: int| 0 <= j < i ==> r@[j] == ew_add(a@, b@, t)[j] && r@[j] < t,
        decreases n - i,
    {
        let x = if i < la {
            a[i]
        } else {
            0
        };
        let y = if i < lb {
            b[i]
        } else {
            0
        };
        r.push((x + y) % t);
        i = i + 1;
    }
    proof {
        assert(r@ =~= ew_add(a@, b@, t));
    }
    r
}

/// Elementwise difference modulo `t` of two stored slot vectors.
fn ew_sub_exec(a: &Vec<u64>, b: &Vec<u64>, t: u64) -> (r: Vec<u64>)
    requires
        2 <= t < 0x1000000000000000,
        slots_reduced(a@, t),
        slots_reduced(b@, t),
    ensures
        r@ == ew_sub(a@, b@, t),
        r@.len() == join_len(a@, b@),
        slots_reduced(r@, t),
{
    let la = a.len();
    let lb = b.len();
    let n = if la >= lb {
        la
    } else {
        lb
    };
    let mut r: Vec<u64> = Vec::new();
    let mut i: usize = 0;
    while i < n
        invariant
            i <= n,
            n == join_len(a@, b@),
            la == a@.len(),
            lb == b@.len(),
            2 <= t < 0x1000000000000000,
            slots_reduced(a@, t),
            slots_reduced(b@, t),
            r@.len() == i,
            forall|j: int| 0 <= j < i ==> r@[j] == ew_sub(a@, b@, t)[j] && r@[j] < t,
        decreases n - i,
    {
        let x = if i < la {
            a[i]
        } else {
            0
        };
        let y = if i < lb {
            b[i]
        } else {
            0
        };
        proof {
            vstd::arithmetic::div_mod::lemma_mod_add_multiples_vanish(
                x as int - y as int,
                t as int,
            );
        }
        r.push((x + (t - y)) % t);
        i = i + 1;
    }
    proof {
        assert(r@ =~= ew_sub(a@, b@, t));
    }
    r
}

/// Elementwise product modulo `t` of two stored slot vectors.
fn ew_mul_exec(a: &Vec<u64>, b: &Vec<u64>, t: u64) -> (r: Vec<u64>)
    requires
        2 <= t < 0x1000000000000000,
        slots_reduced(a@, t),
        slots_reduced(b@, t),
    ensures
        r@ == ew_mul(a@, b@, t),
        r@.len() == join_len(a@, b@),
        slots_reduced(r@, t),
{
    let la = a.len();
    let lb = b.len();
    let n = if la >= lb {
        la
    } else {
        lb
    };
    let mut r: Vec<u64> = Vec::new();
    let mut i: usize = 0;
    while i < n
        invariant
            i <= n,
            n == join_len(a@, b@),
            la == a@.len(),
            lb == b@.len(),
            2 <= t < 0x1000000000000000,
            slots_reduced(a@, t),
            slots_reduced(b@, t),
            r@.len() == i,
            forall|j: int| 0 <= j < i ==> r@[j] == ew_mul(a@, b@, t)[j] && r@[j] < t,
        decreases n - i,
    {
        let x = if i < la {
            a[i]
        } else {
            0
        };
        let y = if i < lb {
            b[i]
        } else {
            0
        };
        proof {
            assert((x as int) * (y as int) < 0x10000000000000000000000000000000int)
                by (nonlinear_arith)
                requires
                    x < 0x1000000000000000,
                    y < 0x1000000000000000,
            ;
        }
        let p = ((x as u128) * (y as u128)) % (t as u128);
        r.push(p as u64);
        i = i + 1;
    }
    proof {
        assert(r@ =~= ew_mul(a@, b@, t));
    }
    r
}

/// Elementwise negation modulo `t` of a stored slot vector.
fn ew_neg_exec(a: &Vec<u64>, t: u64) -> (r: Vec<u64>)
    requires
        2 <= t < 0x1000000000000000,
        slots_reduced(a@, t),
    ensures
        r@ == ew_neg(a@, t),
        r@.len() == a@.len(),
        slots_reduced(r@, t),
{
    let mut r: Vec<u64> = Vec::new();
    let mut i: usize = 0;
    while i < a.len()
        invariant
            i <= a@.len(),
            2 <= t < 0x1000000000000000,
            slots_reduced(a@, t),
            r@.len() == i,
            forall|j: int| 0 <= j < i ==> r@[j] == ew_neg(a@, t)[j] && r@[j] < t,
        decreases a@.len() - i,
    {
        let x = a[i];
        r.push((t - x) % t);
        i = i + 1;
    }
    proof {
        assert(r@ =~= ew_neg(a@, t));
    }
    r
}

/// Saturating noise-budget subtraction.
fn nb_sub_exec(b: u64, cost: u64) -> (r: u64)
    ensures
        r == nb_after(b, cost as int),
{
    if cost <= b {
        b - cost
    } else {
        0
    }
}

/// The smaller of two noise budgets.
fn min_nb_exec(a: u64, b: u64) -> (r: u64)
    ensures
        r == min_nb(a, b),
{
    if a <= b {
        a
    } else {
        b
    }
}

impl Evaluator {
    /// Binds an evaluator to a context.
    pub fn new(ctx: &Context) -> (r: Result<Evaluator, Error>)
        requires
            context_wf(ctx),
        ensures
            match r {
                Ok(ev) => {
                    &&& params_equal(&ev.context.params, &ctx.params)
                    &&& ev.context.expand_mod_chain == ctx.expand_mod_chain
                    &&& evaluator_wf(&ev)
                },
                Err(_) => false,
            },
    {
        Ok(Evaluator { context: ctx.clone() })
    }

    /// Checks that a ciphertext belongs to this evaluator's ring.
    fn check_in(&self, a: &Ciphertext) -> (r: bool)
        ensures
            r == ciphertext_in(a, &self.context.params),
    {
        params_eq_exec(&a.params, &self.context.params)
    }

    /// Negates a ciphertext slot-wise.  The size, form, level and noise
    /// budget are preserved.  Fails with `InvalidOperation` exactly when
    /// the ciphertext belongs to another ring.
    pub fn negate(&self, a: &Ciphertext) -> (r: Result<Ciphertext, Error>)
        requires
            evaluator_wf(self),
            ciphertext_wf(a),
        ensures
            match r {
                Ok(c) => {
                    &&& ciphertext_in(a, &self.context.params)
                    &&& c@ == ew_neg(a@, self.context.params.plain_modulus.value)
                    &&& c.size == a.size
                    &&& c.chain_level == a.chain_level
                    &&& c.is_ntt == a.is_ntt
                    &&& c.noise_budget == a.noise_budget
                    &&& ciphertext_in(&c, &self.context.params)
                    &&& ciphertext_wf(&c)
                },
                Err(e) => {
                    &&& e == Error::InvalidOperation
                    &&& !ciphertext_in(a, &self.context.params)
                },
            },
    {
        if !self.check_in(a) {
            return Err(Error::InvalidOperation);
        }
        let t = self.context.params.plain_modulus.value;
        Ok(
            Ciphertext {
                slots: ew_neg_exec(&a.slots, t),
                params: self.context.params.clone(),
                size: a.size,
                chain_level: a.chain_level,
                is_ntt: a.is_ntt,
                noise_budget: a.noise_budget,
            },
        )
    }

    /// In-place variant of `negate`; on failure the destination is left
    /// unchanged.
    pub fn negate_inplace(&self, a: &mut Ciphertext) -> (r: Result<(), Error>)
        requires
            evaluator_wf(self),
            ciphertext_wf(old(a)),
        ensures
            match r {
                Ok(()) => {
                    &&& ciphertext_in(old(a), &self.context.params)
                    &&& final(a)@ == ew_neg(old(a)@, self.context.params.plain_modulus.value)
                    &&& final(a).size == old(a).size
                    &&& final(a).chain_level == old(a).chain_level
                    &&& final(a).is_ntt == old(a).is_ntt
                    &&& final(a).noise_budget == old(a).noise_budget
                    &&& ciphertext_wf(final(a))
                    &&& ciphertext_in(final(a), &self.context.params)
                },
                Err(e) => {
                    &&& e == Error::InvalidOperation
                    &&& !ciphertext_in(old(a), &self.context.params)
                    &&& cipher_same(final(a), old(a))
                },
            },
    {
        match self.negate(a) {
            Ok(c) => {
                *a = c;
                Ok(())
            },
            Err(e) => Err(e),
        }
    }

    /// Adds two ciphertexts slot-wise modulo t.  The result's size is
    /// the larger operand size; form, level and the smaller noise budget
    /// carry over.  Fails with `InvalidOperation` exactly when the
    /// operands belong to another ring or their forms or levels differ.
    pub fn add(&self, a: &Ciphertext, b: &Ciphertext) -> (r: Result<Ciphertext, Error>)
        requires
            evaluator_wf(self),
            ciphertext_wf(a),
            ciphertext_wf(b),
        ensures
            match r {
                Ok(c) => {
                    &&& binary_rejection(self, a, b, false) is None
                    &&& c@ == ew_add(a@, b@, self.context.params.plain_modulus.value)
                    &&& c.size == if a.size >= b.size { a.size } else { b.size }
                    &&& c.chain_level == a.chain_level
                    &&& c.is_ntt == a.is_ntt
                    &&& c.noise_budget == min_nb(a.noise_budget, b.noise_budget)
                    &&& ciphertext_in(&c, &self.context.params)
                    &&& ciphertext_wf(&c)
                },
                Err(e) => binary_rejection(self, a, b, false) == Some(e),
            },
    {
        if !self.check_in(a) || !self.check_in(b) {
            return Err(Error::InvalidOperation);
        }
        if a.is_ntt != b.is_ntt || a.chain_level != b.chain_level {
            return Err(Error::InvalidOperation);
        }
        let t = self.context.params.plain_modulus.value;
        Ok(
            Ciphertext {
                slots: ew_add_exec(&a.slots, &b.slots, t),
                params: self.context.params.clone(),
                size: if a.size >= b.size {
                    a.size
                } else {
                    b.size
                },
                chain_level: a.chain_level,
                is_ntt: a.is_ntt,
                noise_budget: min_nb_exec(a.noise_budget, b.noise_budget),
            },
        )
    }

    /// In-place variant of `add`; on failure the destination is left
    /// unchanged.
    pub fn add_inplace(&self, a: &mut Ciphertext, b: &Ciphertext) -> (r: Result<(), Error>)
        requires
            evaluator_wf(self),
            ciphertext_wf(old(a)),
            ciphertext_wf(b),
        ensures
            match r {
                Ok(()) => {
                    &&& binary_rejection(self, old(a), b, false) is None
                    &&& final(a)@ == ew_add(old(a)@, b@, self.context.params.plain_modulus.value)
                    &&& final(a).size == if old(a).size >= b.size {
                        old(a).size
                    } else {
                        b.size
                    }
                    &&& final(a).chain_level == old(a).chain_level
                    &&& final(a).is_ntt == old(a).is_ntt
                    &&& final(a).noise_budget == min_nb(old(a).noise_budget, b.noise_budget)
                    &&& ciphertext_wf(final(a))
                    &&& ciphertext_in(final(a), &self.context.params)
                },
                Err(e) => {
                    &&& binary_rejection(self, old(a), b, false) == Some(e)
                    &&& cipher_same(final(a), old(a))
                },
            },
    {
        match self.add(a, b) {
            Ok(c) => {
                *a = c;
                Ok(())
            },
            Err(e) => Err(e),
        }
    }

    /// Subtracts `b` from `a` slot-wise modulo t; otherwise as `add`.
    pub fn sub(&self, a: &Ciphertext, b: &Ciphertext) -> (r: Result<Ciphertext, Error>)
        requires
            evaluator_wf(self),
            ciphertext_wf(a),
            ciphertext_wf(b),
        ensures
            match r {
                Ok(c) => {
                    &&& binary_rejection(self, a, b, false) is None
                    &&& c@ == ew_sub(a@, b@, self.context.params.plain_modulus.value)
                    &&& c.size == if a.size >= b.size { a.size } else { b.size }
                    &&& c.chain_level == a.chain_level
                    &&& c.is_ntt == a.is_ntt
                    &&& c.noise_budget == min_nb(a.noise_budget, b.noise_budget)
                    &&& ciphertext_in(&c, &self.context.params)
                    &&& ciphertext_wf(&c)
                },
                Err(e) => binary_rejection(self, a, b, false) == Some(e),
            },
    {
        if !self.check_in(a) || !self.check_in(b) {
            return Err(Error::InvalidOperation);
        }
        if a.is_ntt != b.is_ntt || a.chain_level != b.chain_level {
            return Err(Error::InvalidOperation);
        }
        let t = self.context.params.plain_modulus.value;
        Ok(
            Ciphertext {
                slots: ew_sub_exec(&a.slots, &b.slots, t),
                params: self.context.params.clone(),
                size: if a.size >= b.size {
                    a.size
                } else {
                    b.size
                },
                chain_level: a.chain_level,
                is_ntt: a.is_ntt,
                noise_budget: min_nb_exec(a.noise_budget, b.noise_budget),
            },
        )
    }

    /// In-place variant of `sub`; on failure the destination is left
    /// unchanged.
    pub fn sub_inplace(&self, a: &mut Ciphertext, b: &Ciphertext) -> (r: Result<(), Error>)
        requires
            evaluator_wf(self),
            ciphertext_wf(old(a)),
            ciphertext_wf(b),
        ensures
            match r {
                Ok(()) => {
                    &&& binary_rejection(self, old(a), b, false) is None
                    &&& final(a)@ == ew_sub(old(a)@, b@, self.context.params.plain_modulus.value)
                    &&& final(a).size == if old(a).size >= b.size {
                        old(a).size
                    } else {
                        b.size
                    }
                    &&& final(a).chain_level == old(a).chain_level
                    &&& final(a).is_ntt == old(a).is_ntt
                    &&& final(a).noise_budget == min_nb(old(a).noise_budget, b.noise_budget)
                    &&& ciphertext_wf(final(a))
                    &&& ciphertext_in(final(a), &self.context.params)
                },
                Err(e) => {
                    &&& binary_rejection(self, old(a), b, false) == Some(e)
                    &&& cipher_same(final(a), old(a))
                },
            },
    {
        match self.sub(a, b) {
            Ok(c) => {
                *a = c;
                Ok(())
            },
            Err(e) => Err(e),
        }
    }

    /// Multiplies two ciphertexts slot-wise modulo t.  The result has
    /// size `a.size + b.size - 1`, stays at the operands' level in
    /// coefficient form, and pays a noise cost that grows with both
    /// sizes.  Fails with `InvalidOperation` exactly when the operands
    /// belong to another ring, their levels differ, or either is in NTT
    /// form.
    pub fn multiply(&self, a: &Ciphertext, b: &Ciphertext) -> (r: Result<Ciphertext, Error>)
        requires
            evaluator_wf(self),
            ciphertext_wf(a),
            ciphertext_wf(b),
            a.size + b.size - 1 <= u64::MAX,
        ensures
            match r {
                Ok(c) => {
                    &&& binary_rejection(self, a, b, true) is None
                    &&& c@ == ew_mul(a@, b@, self.context.params.plain_modulus.value)
                    &&& c.size == a.size + b.size - 1
                    &&& c.chain_level == a.chain_level
                    &&& !c.is_ntt
                    &&& c.noise_budget == nb_after(
                        min_nb(a.noise_budget, b.noise_budget),
                        mul_cost(a.size, b.size),
                    )
                    &&& ciphertext_in(&c, &self.context.params)
                    &&& ciphertext_wf(&c)
                },
                Err(e) => binary_rejection(self, a, b, true) == Some(e),
            },
    {
        if !self.check_in(a) || !self.check_in(b) {
            return Err(Error::InvalidOperation);
        }
        if a.is_ntt != b.is_ntt || a.chain_level != b.chain_level {
            return Err(Error::InvalidOperation);
        }
        if a.is_ntt {
            return Err(Error::InvalidOperation);
        }
        let t = self.context.params.plain_modulus.value;
        let cost = (a.size - 1) + (b.size - 1);
        Ok(
            Ciphertext {
                slots: ew_mul_exec(&a.slots, &b.slots, t),
                params: self.context.params.clone(),
                size: (a.size - 1) + b.size,
                chain_level: a.chain_level,
                is_ntt: false,
                noise_budget: nb_sub_exec(min_nb_exec(a.noise_budget, b.noise_budget), cost),
            },
        )
    }

    /// In-place variant of `multiply`; on failure the destination is
    /// left unchanged.
    pub fn multiply_inplace(&self, a: &mut Ciphertext, b: &Ciphertext) -> (r: Result<(), Error>)
        requires
            evaluator_wf(self),
            ciphertext_wf(old(a)),
            ciphertext_wf(b),
            old(a).size + b.size - 1 <= u64::MAX,
        ensures
            match r {
                Ok(()) => {
                    &&& binary_rejection(self, old(a), b, true) is None
                    &&& final(a)@ == ew_mul(old(a)@, b@, self.context.params.plain_modulus.value)
                    &&& final(a).size == old(a).size + b.size - 1
                    &&& final(a).chain_level == old(a).chain_level
                    &&& !final(a).is_ntt
                    &&& final(a).noise_budget == nb_after(
                        min_nb(old(a).noise_budget, b.noise_budget),
                        mul_cost(old(a).size, b.size),
                    )
                    &&& ciphertext_wf(final(a))
                    &&& ciphertext_in(final(a), &self.context.params)
                },
                Err(e) => {
                    &&& binary_rejection(self, old(a), b, true) == Some(e)
                    &&& cipher_same(final(a), old(a))
                },
            },
    {
        match self.multiply(a, b) {
            Ok(c) => {
                *a = c;
                Ok(())
            },
            Err(e) => Err(e),
        }
    }

    /// Squares a ciphertext: `multiply(a, a)`, with size `2*a.size - 1`.
    pub fn square(&self, a: &Ciphertext) -> (r: Result<Ciphertext, Error>)
        requires
            evaluator_wf(self),
            ciphertext_wf(a),
            2 * a.size - 1 <= u64::MAX,
        ensures
            match r {
                Ok(c) => {
                    &&& binary_rejection(self, a, a, true) is None
                    &&& c@ == ew_mul(a@, a@, self.context.params.plain_modulus.value)
                    &&& c.size == 2 * a.size - 1
                    &&& c.chain_level == a.chain_level
                    &&& !c.is_ntt
                    &&& c.noise_budget == nb_after(a.noise_budget, mul_cost(a.size, a.size))
                    &&& ciphertext_in(&c, &self.context.params)
                    &&& ciphertext_wf(&c)
                },
                Err(e) => binary_rejection(self, a, a, true) == Some(e),
            },
    {
        self.multiply(a, a)
    }

    /// In-place variant of `square`; on failure the destination is left
    /// unchanged.
    pub fn square_inplace(&self, a: &mut Ciphertext) -> (r: Result<(), Error>)
        requires
            evaluator_wf(self),
            ciphertext_wf(old(a)),
            2 * old(a).size - 1 <= u64::MAX,
        ensures
            match r {
                Ok(()) => {
                    &&& binary_rejection(self, old(a), old(a), true) is None
                    &&& final(a)@ == ew_mul(
                        old(a)@,
                        old(a)@,
                        self.context.params.plain_modulus.value,
                    )
                    &&& final(a).size == 2 * old(a).size - 1
                    &&& final(a).chain_level == old(a).chain_level
                    &&& !final(a).is_ntt
                    &&& final(a).noise_budget == nb_after(
                        old(a).noise_budget,
                        mul_cost(old(a).size, old(a).size),
                    )
                    &&& ciphertext_wf(final(a))
                    &&& ciphertext_in(final(a), &self.context.params)
                },
                Err(e) => {
                    &&& binary_rejection(self, old(a), old(a), true) == Some(e)
                    &&& cipher_same(final(a), old(a))
                },
            },
    {
        match self.square(a) {
            Ok(c) => {
                *a = c;
                Ok(())
            },
            Err(e) => Err(e),
        }
    }

    /// Switches a ciphertext down to the next modulus-chain level.  The
    /// slots, size, form and noise budget are preserved; the level
    /// decreases by one.  Fails with `InvalidOperation` exactly when the
    /// ciphertext belongs to another ring or is already at the last
    /// level.
    pub fn mod_switch_to_next(&self, a: &Ciphertext) -> (r: Result<Ciphertext, Error>)
        requires
            evaluator_wf(self),
            ciphertext_wf(a),
        ensures
            match r {
                Ok(c) => {
                    &&& ciphertext_in(a, &self.context.params)
                    &&& a.chain_level > 0
                    &&& c@ == a@
                    &&& c.size == a.size
                    &&& c.chain_level == a.chain_level - 1
                    &&& c.is_ntt == a.is_ntt
                    &&& c.noise_budget == a.noise_budget
                    &&& ciphertext_in(&c, &self.context.params)
                    &&& ciphertext_wf(&c)
                },
                Err(e) => {
                    &&& e == Error::InvalidOperation
                    &&& !ciphertext_in(a, &self.context.params) || a.chain_level == 0
                },
            },
    {
        if !self.check_in(a) {
            return Err(Error::InvalidOperation);
        }
        if a.chain_level == 0 {
            return Err(Error::InvalidOperation);
        }
        Ok(
            Ciphertext {
                slots: crate::slots::clone_slots(&a.slots),
                params: self.context.params.clone(),
                size: a.size,
                chain_level: a.chain_level - 1,
                is_ntt: a.is_ntt,
                noise_budget: a.noise_budget,
            },
        )
    }

    /// In-place variant of `mod_switch_to_next`; on failure the
    /// destination is left unchanged.
    pub fn mod_switch_to_next_inplace(&self, a: &mut Ciphertext) -> (r: Result<(), Error>)
        requires
            evaluator_wf(self),
            ciphertext_wf(old(a)),
        ensures
            match r {
                Ok(()) => {
                    &&& ciphertext_in(old(a), &self.context.params)
                    &&& old(a).chain_level > 0
                    &&& final(a)@ == old(a)@
                    &&& final(a).size == old(a).size
                    &&& final(a).chain_level == old(a).chain_level - 1
                    &&& final(a).is_ntt == old(a).is_ntt
                    &&& final(a).noise_budget == old(a).noise_budget
                    &&& ciphertext_wf(final(a))
                    &&& ciphertext_in(final(a), &self.context.params)
                },
                Err(e) => {
                    &&& e == Error::InvalidOperation
                    &&& !ciphertext_in(old(a), &self.context.params) || old(a).chain_level == 0
                    &&& cipher_same(final(a), old(a))
                },
            },
    {
        match self.mod_switch_to_next(a) {
            Ok(c) => {
                *a = c;
                Ok(())
            },
            Err(e) => Err(e),
        }
    }

    /// Switches an NTT-form plaintext down to the next modulus-chain
    /// level.  Fails with `InvalidOperation` exactly when the plaintext
    /// belongs to another ring, is not in NTT form, or is already at the
    /// last level.
    pub fn mod_switch_to_next_plaintext(&self, a: &Plaintext) -> (r: Result<Plaintext, Error>)
        requires
            evaluator_wf(self),
            plaintext_wf(a),
        ensures
            match r {
                Ok(p) => {
                    &&& plaintext_matches(a, &self.context.params)
                    &&& a.is_ntt
                    &&& a.chain_level > 0
                    &&& p@ == a@
                    &&& p.is_ntt
                    &&& p.chain_level == a.chain_level - 1
                    &&& plaintext_matches(&p, &self.context.params)
                    &&& plaintext_wf(&p)
                },
                Err(e) => {
                    &&& e == Error::InvalidOperation
                    &&& !plaintext_matches(a, &self.context.params) || !a.is_ntt
                        || a.chain_level == 0
                },
            },
    {
        if a.plain_modulus != self.context.params.plain_modulus.value || a.degree
            != self.context.params.poly_modulus_degree {
            return Err(Error::InvalidOperation);
        }
        if !a.is_ntt || a.chain_level == 0 {
            return Err(Error::InvalidOperation);
        }
        Ok(
            Plaintext {
                slots: crate::slots::clone_slots(&a.slots),
                plain_modulus: a.plain_modulus,
                degree: a.degree,
                is_ntt: true,
                chain_level: a.chain_level - 1,
            },
        )
    }

    /// In-place variant of `mod_switch_to_next_plaintext`; on failure
    /// the destination is left unchanged.
    pub fn mod_switch_to_next_inplace_plaintext(&self, a: &mut Plaintext) -> (r: Result<
        (),
        Error,
    >)
        requires
            evaluator_wf(self),
            plaintext_wf(old(a)),
        ensures
            match r {
                Ok(()) => {
                    &&& plaintext_matches(old(a), &self.context.params)
                    &&& old(a).is_ntt
                    &&& old(a).chain_level > 0
                    &&& final(a)@ == old(a)@
                    &&& final(a).is_ntt
                    &&& final(a).chain_level == old(a).chain_level - 1
                    &&& plaintext_wf(final(a))
                },
                Err(e) => {
                    &&& e == Error::InvalidOperation
                    &&& !plaintext_matches(old(a), &self.context.params) || !old(a).is_ntt
                        || old(a).chain_level == 0
                    &&& crate::plaintext_ciphertext::plain_same(final(a), old(a))
                },
            },
    {
        match self.mod_switch_to_next_plaintext(a) {
            Ok(p) => {
                *a = p;
                Ok(())
            },
            Err(e) => Err(e),
        }
    }

    /// Adds a plaintext to a ciphertext slot-wise modulo t.  Size, level
    /// and noise budget are preserved.  Fails with `InvalidOperation`
    /// exactly when the ciphertext belongs to another ring or the
    /// plaintext belongs to another ring or differs in form.
    pub fn add_plain(&self, a: &Ciphertext, b: &Plaintext) -> (r: Result<Ciphertext, Error>)
        requires
            evaluator_wf(self),
            ciphertext_wf(a),
            plaintext_wf(b),
        ensures
            match r {
                Ok(c) => {
                    &&& plain_rejection(self, a, b) is None
                    &&& c@ == ew_add(a@, b@, self.context.params.plain_modulus.value)
                    &&& c.size == a.size
                    &&& c.chain_level == a.chain_level
                    &&& c.is_ntt == a.is_ntt
                    &&& c.noise_budget == a.noise_budget
                    &&& ciphertext_in(&c, &self.context.params)
                    &&& ciphertext_wf(&c)
                },
                Err(e) => plain_rejection(self, a, b) == Some(e),
            },
    {
        if !self.check_in(a) {
            return Err(Error::InvalidOperation);
        }
        if b.plain_modulus != self.context.params.plain_modulus.value || b.degree
            != self.context.params.poly_modulus_degree || b.is_ntt != a.is_ntt {
            return Err(Error::InvalidOperation);
        }
        let t = self.context.params.plain_modulus.value;
        Ok(
            Ciphertext {
                slots: ew_add_exec(&a.slots, &b.slots, t),
                params: self.context.params.clone(),
                size: a.size,
                chain_level: a.chain_level,
                is_ntt: a.is_ntt,
                noise_budget: a.noise_budget,
            },
        )
    }

    /// In-place variant of `add_plain`; on failure the destination is
    /// left unchanged.
    pub fn add_plain_inplace(&self, a: &mut Ciphertext, b: &Plaintext) -> (r: Result<(), Error>)
        requires
            evaluator_wf(self),
            ciphertext_wf(old(a)),
            plaintext_wf(b),
        ensures
            match r {
                Ok(()) => {
                    &&& plain_rejection(self, old(a), b) is None
                    &&& final(a)@ == ew_add(old(a)@, b@, self.context.params.plain_modulus.value)
                    &&& final(a).size == old(a).size
                    &&& final(a).chain_level == old(a).chain_level
                    &&& final(a).is_ntt == old(a).is_ntt
                    &&& final(a).noise_budget == old(a).noise_budget
                    &&& ciphertext_wf(final(a))
                    &&& ciphertext_in(final(a), &self.context.params)
                },
                Err(e) => {
                    &&& plain_rejection(self, old(a), b) == Some(e)
                    &&& cipher_same(final(a), old(a))
                },
            },
    {
        match self.add_plain(a, b) {
            Ok(c) => {
                *a = c;
                Ok(())
            },
            Err(e) => Err(e),
        }
    }

    /// Subtracts a plaintext from a ciphertext slot-wise modulo t;
    /// otherwise as `add_plain`.
    pub fn sub_plain(&self, a: &Ciphertext, b: &Plaintext) -> (r: Result<Ciphertext, Error>)
        requires
            evaluator_wf(self),
            ciphertext_wf(a),
            plaintext_wf(b),
        ensures
            match r {
                Ok(c) => {
                    &&& plain_rejection(self, a, b) is None
                    &&& c@ == ew_sub(a@, b@, self.context.params.plain_modulus.value)
                    &&& c.size == a.size
                    &&& c.chain_level == a.chain_level
                    &&& c.is_ntt == a.is_ntt
                    &&& c.noise_budget == a.noise_budget
                    &&& ciphertext_in(&c, &self.context.params)
                    &&& ciphertext_wf(&c)
                },
                Err(e) => plain_rejection(self, a, b) == Some(e),
            },
    {
        if !self.check_in(a) {
            return Err(Error::InvalidOperation);
        }
        if b.plain_modulus != self.context.params.plain_modulus.value || b.degree
            != self.context.params.poly_modulus_degree || b.is_ntt != a.is_ntt {
            return Err(Error::InvalidOperation);
        }
        let t = self.context.params.plain_modulus.value;
        Ok(
            Ciphertext {
                slots: ew_sub_exec(&a.slots, &b.slots, t),
                params: self.context.params.clone(),
                size: a.size,
                chain_level: a.chain_level,
                is_ntt: a.is_ntt,
                noise_budget: a.noise_budget,
            },
        )
    }

    /// In-place variant of `sub_plain`; on failure the destination is
    /// left unchanged.
    pub fn sub_plain_inplace(&self, a: &mut Ciphertext, b: &Plaintext) -> (r: Result<(), Error>)
        requires
            evaluator_wf(self),
            ciphertext_wf(old(a)),
            plaintext_wf(b),
        ensures
            match r {
                Ok(()) => {
                    &&& plain_rejection(self, old(a), b) is None
                    &&& final(a)@ == ew_sub(old(a)@, b@, self.context.params.plain_modulus.value)
                    &&& final(a).size == old(a).size
                    &&& final(a).chain_level == old(a).chain_level
                    &&& final(a).is_ntt == old(a).is_ntt
                    &&& final(a).noise_budget == old(a).noise_budget
                    &&& ciphertext_wf(final(a))
                    &&& ciphertext_in(final(a), &self.context.params)
                },
                Err(e) => {
                    &&& plain_rejection(self, old(a), b) == Some(e)
                    &&& cipher_same(final(a), old(a))
                },
            },
    {
        match self.sub_plain(a, b) {
            Ok(c) => {
                *a = c;
                Ok(())
            },
            Err(e) => Err(e),
        }
    }

    /// Why a plain multiplication is rejected, if it is: the checks of
    /// every plain operation, and additionally a plaintext that is
    /// identically zero, whose product would be a transparent
    /// ciphertext.
    pub open spec fn multiply_plain_rejection(
        &self,
        a: &Ciphertext,
        p: &Plaintext,
    ) -> Option<Error> {
        if plain_rejection(self, a, p) is Some {
            plain_rejection(self, a, p)
        } else if all_zero(p@) {
            Some(Error::InvalidOperation)
        } else {
            None
        }
    }

    /// Multiplies a ciphertext by a plaintext slot-wise modulo t.  The
    /// size and level are preserved and a small noise cost is paid.
    /// Fails as the other plain operations do, and additionally with
    /// `InvalidOperation` when the plaintext is identically zero: the
    /// product would decrypt to zero independently of the ciphertext,
    /// a transparent result the scheme refuses to produce.
    pub fn multiply_plain(&self, a: &Ciphertext, b: &Plaintext) -> (r: Result<Ciphertext, Error>)
        requires
            evaluator_wf(self),
            ciphertext_wf(a),
            plaintext_wf(b),
        ensures
            match r {
                Ok(c) => {
                    &&& self.multiply_plain_rejection(a, b) is None
                    &&& c@ == ew_mul(a@, b@, self.context.params.plain_modulus.value)
                    &&& c.size == a.size
                    &&& c.chain_level == a.chain_level
                    &&& c.is_ntt == a.is_ntt
                    &&& c.noise_budget == nb_after(a.noise_budget, 1)
                    &&& ciphertext_in(&c, &self.context.params)
                    &&& ciphertext_wf(&c)
                },
                Err(e) => self.multiply_plain_rejection(a, b) == Some(e),
            },
    {
        if !self.check_in(a) {
            return Err(Error::InvalidOperation);
        }
        if b.plain_modulus != self.context.params.plain_modulus.value || b.degree
            != self.context.params.poly_modulus_degree || b.is_ntt != a.is_ntt {
            return Err(Error::InvalidOperation);
        }
        let mut nonzero = false;
        let mut i: usize = 0;
        while i < b.slots.len()
            invariant
                i <= b.slots@.len(),
                nonzero == !all_zero(b.slots@.take(i as int)),
            decreases b.slots@.len() - i,
        {
            proof {
                if nonzero {
                    let j = choose|j: int| 0 <= j < i && b.slots@.take(i as int)[j] != 0;
                    assert(b.slots@.take(i + 1)[j] != 0);
                }
            }
            if b.slots[i] != 0 {
                nonzero = true;
                proof {
                    assert(b.slots@.take(i + 1)[i as int] != 0);
                }
            }
            i = i + 1;
        }
        proof {
            assert(b.slots@.take(b.slots@.len() as int) =~= b.slots@);
        }
        if !nonzero {
            return Err(Error::InvalidOperation);
        }
        let t = self.context.params.plain_modulus.value;
        Ok(
            Ciphertext {
                slots: ew_mul_exec(&a.slots, &b.slots, t),
                params: self.context.params.clone(),
                size: a.size,
                chain_level: a.chain_level,
                is_ntt: a.is_ntt,
                noise_budget: nb_sub_exec(a.noise_budget, 1),
            },
        )
    }

    /// In-place variant of `multiply_plain`; on failure the destination
    /// is left unchanged.
    pub fn multiply_plain_inplace(&self, a: &mut Ciphertext, b: &Plaintext) -> (r: Result<
        (),
        Error,
    >)
        requires
            evaluator_wf(self),
            ciphertext_wf(old(a)),
            plaintext_wf(b),
        ensures
            match r {
                Ok(()) => {
                    &&& self.multiply_plain_rejection(old(a), b) is None
                    &&& final(a)@ == ew_mul(old(a)@, b@, self.context.params.plain_modulus.value)
                    &&& final(a).size == old(a).size
                    &&& final(a).chain_level == old(a).chain_level
                    &&& final(a).is_ntt == old(a).is_ntt
                    &&& final(a).noise_budget == nb_after(old(a).noise_budget, 1)
                    &&& ciphertext_wf(final(a))
                    &&& ciphertext_in(final(a), &self.context.params)
                },
                Err(e) => {
                    &&& self.multiply_plain_rejection(old(a), b) == Some(e)
                    &&& cipher_same(final(a), old(a))
                },
            },
    {
        match self.multiply_plain(a, b) {
            Ok(c) => {
                *a = c;
                Ok(())
            },
            Err(e) => Err(e),
        }
    }
}

/// The slot views of a list of ciphertexts.
pub open spec fn views_of(s: Seq<Ciphertext>) -> Seq<Seq<u64>> {
    s.map_values(|c: Ciphertext| c.slots@)
}

/// The sizes of a list of ciphertexts.
pub open spec fn sizes_of(s: Seq<Ciphertext>) -> Seq<u64> {
    s.map_values(|c: Ciphertext| c.size)
}

/// The largest size in a non-empty list of ciphertexts.
pub open spec fn max_size_of(s: Seq<Ciphertext>) -> u64
    recommends
        s.len() >= 1,
    decreases s.len(),
{
    if s.len() <= 1 {
        s[0].size
    } else {
        let m = max_size_of(s.drop_last());
        if s.last().size >= m {
            s.last().size
        } else {
            m
        }
    }
}

/// The smallest noise budget in a non-empty list of ciphertexts.
pub open spec fn min_noise_of(s: Seq<Ciphertext>) -> u64
    recommends
        s.len() >= 1,
    decreases s.len(),
{
    if s.len() <= 1 {
        s[0].noise_budget
    } else {
        min_nb(min_noise_of(s.drop_last()), s.last().noise_budget)
    }
}

/// Element `i` of the list fits an addition reduction led by element 0:
/// same ring, same form, same level.
pub open spec fn add_compat(ev: &Evaluator, s: Seq<Ciphertext>, i: int) -> bool {
    &&& ciphertext_in(&s[i], &ev.context.params)
    &&& s[i].is_ntt == s[0].is_ntt
    &&& s[i].chain_level == s[0].chain_level
}

/// Why an addition reduction is rejected, if it is.
pub open spec fn add_many_rejection(ev: &Evaluator, s: Seq<Ciphertext>) -> Option<Error> {
    if s.len() == 0 {
        Some(Error::InvalidArgument)
    } else if !(forall|i: int| 0 <= i < s.len() ==> #[trigger] add_compat(ev, s, i)) {
        Some(Error::InvalidOperation)
    } else {
        None
    }
}

/// Element `i` of the list fits a multiplication reduction: same ring,
/// coefficient form, same level as element 0.
pub open spec fn mul_compat(ev: &Evaluator, s: Seq<Ciphertext>, i: int) -> bool {
    &&& ciphertext_in(&s[i], &ev.context.params)
    &&& !s[i].is_ntt
    &&& s[i].chain_level == s[0].chain_level
}

/// The number of relinearization component keys a left-fold
/// multiplication reduction over operands of the given sizes needs:
/// the first product has size `sizes[0] + sizes[1] - 1` and every later
/// one `sizes[i] + 1`, and each is reduced back to size 2.
pub open spec fn mm_needed(sizes: Seq<u64>) -> int
    decreases sizes.len(),
{
    if sizes.len() <= 1 {
        0
    } else if sizes.len() == 2 {
        sizes[0] + sizes[1] - 3
    } else {
        vstd::math::max(mm_needed(sizes.drop_last()), sizes.last() - 1)
    }
}

/// The noise budget left by a left-fold multiplication reduction with
/// relinearization after every product.
pub open spec fn mm_noise(s: Seq<Ciphertext>) -> u64
    recommends
        s.len() >= 1,
    decreases s.len(),
{
    if s.len() <= 1 {
        s[0].noise_budget
    } else {
        let prev = mm_noise(s.drop_last());
        let acc_size: int = if s.len() == 2 {
            s[0].size as int
        } else {
            2
        };
        nb_after(min_nb(prev, s.last().noise_budget), acc_size + s.last().size - 2)
    }
}

/// Why a multiplication reduction is rejected, if it is.
pub open spec fn multiply_many_rejection(
    ev: &Evaluator,
    s: Seq<Ciphertext>,
    rk: &RelinearizationKeys,
) -> Option<Error> {
    if s.len() == 0 {
        Some(Error::InvalidArgument)
    } else if !(forall|i: int| 0 <= i < s.len() ==> #[trigger] mul_compat(ev, s, i)) {
        Some(Error::InvalidOperation)
    } else if !params_equal(&rk.params, &ev.context.params) {
        Some(Error::KeyMismatch)
    } else if s.len() >= 2 && rk.key_count < mm_needed(sizes_of(s)) {
        Some(Error::KeyMismatch)
    } else {
        None
    }
}

/// The number of multiplications depth-optimal exponentiation by `e`
/// performs: one squaring per binary digit after the first, plus one
/// multiplication per set low-order digit.
pub open spec fn pow_mul_count(e: int) -> nat
    decreases e,
{
    if e <= 1 {
        0
    } else {
        pow_mul_count(e / 2) + 1 + (if e % 2 == 1 {
            1nat
        } else {
            0nat
        })
    }
}

/// The component keys needed to reduce a ciphertext of size `s` to the
/// minimal size before exponentiating: at least one, since every
/// squaring is relinearized.
pub open spec fn exp_keys_needed(s: u64) -> int {
    if s >= 3 {
        s - 2
    } else {
        1
    }
}

/// Why an exponentiation is rejected, if it is.
pub open spec fn exponentiate_rejection(
    ev: &Evaluator,
    a: &Ciphertext,
    e: u64,
    rk: &RelinearizationKeys,
) -> Option<Error> {
    if e == 0 {
        Some(Error::InvalidArgument)
    } else if !ciphertext_in(a, &ev.context.params) || a.is_ntt {
        Some(Error::InvalidOperation)
    } else if !params_equal(&rk.params, &ev.context.params) {
        Some(Error::KeyMismatch)
    } else if e >= 2 && rk.key_count < exp_keys_needed(a.size) {
        Some(Error::KeyMismatch)
    } else {
        None
    }
}

/// Saturating subtraction composes: paying two costs in sequence is
/// paying their sum.
pub proof fn lemma_nb_compose(b: u64, c1: int, c2: int)
    requires
        c1 >= 0,
        c2 >= 0,
    ensures
        nb_after(nb_after(b, c1), c2) == nb_after(b, c1 + c2),
{
}

impl Evaluator {
    /// Sums a non-empty list of ciphertexts slot-wise modulo t, folding
    /// from the left.  The result's size is the largest operand size and
    /// its noise budget the smallest.  Fails with `InvalidArgument` on an
    /// empty list, and with `InvalidOperation` exactly when an element
    /// belongs to another ring or differs from the first in form or
    /// level.
    pub fn add_many(&self, a: &Vec<Ciphertext>) -> (r: Result<Ciphertext, Error>)
        requires
            evaluator_wf(self),
            forall|i: int| 0 <= i < a@.len() ==> ciphertext_wf(#[trigger] &a@[i]),
        ensures
            match r {
                Ok(c) => {
                    &&& add_many_rejection(self, a@) is None
                    &&& c@ == ew_add_all(views_of(a@), self.context.params.plain_modulus.value)
                    &&& c.size == max_size_of(a@)
                    &&& c.chain_level == a@[0].chain_level
                    &&& c.is_ntt == a@[0].is_ntt
                    &&& c.noise_budget == min_noise_of(a@)
                    &&& ciphertext_in(&c, &self.context.params)
                    &&& ciphertext_wf(&c)
                },
                Err(e) => add_many_rejection(self, a@) == Some(e),
            },
    {
        if a.len() == 0 {
            return Err(Error::InvalidArgument);
        }
        let first_ntt = a[0].is_ntt;
        let first_level = a[0].chain_level;
        let mut i: usize = 0;
        while i < a.len()
            invariant
                i <= a@.len(),
                a@.len() >= 1,
                first_ntt == a@[0].is_ntt,
                first_level == a@[0].chain_level,
                forall|j: int| 0 <= j < i ==> #[trigger] add_compat(self, a@, j),
            decreases a@.len() - i,
        {
            let ci = &a[i];
            if !self.check_in(ci) || ci.is_ntt != first_ntt || ci.chain_level != first_level {
                proof {
                    assert(!add_compat(self, a@, i as int));
                }
                return Err(Error::InvalidOperation);
            }
            i = i + 1;
        }
        let t = self.context.params.plain_modulus.value;
        let ghost vs = views_of(a@);
        proof {
            assert(add_compat(self, a@, 0));
            assert(ciphertext_wf(&a@[0]));
        }
        let mut slots = crate::slots::clone_slots(&a[0].slots);
        let mut size = a[0].size;
        let mut noise = a[0].noise_budget;
        let mut k: usize = 1;
        proof {
            assert(vs.take(1) =~= seq![a@[0].slots@]);
            assert(a@.take(1) =~= seq![a@[0]]);
        }
        while k < a.len()
            invariant
                1 <= k <= a@.len(),
                evaluator_wf(self),
                t == self.context.params.plain_modulus.value,
                vs == views_of(a@),
                forall|j: int| 0 <= j < a@.len() ==> ciphertext_wf(#[trigger] &a@[j]),
                forall|j: int| 0 <= j < a@.len() ==> #[trigger] add_compat(self, a@, j),
                slots@ == ew_add_all(vs.take(k as int), t),
                slots@.len() <= self.context.params.poly_modulus_degree,
                slots_reduced(slots@, t),
                size == max_size_of(a@.take(k as int)),
                noise == min_noise_of(a@.take(k as int)),
            decreases a@.len() - k,
        {
            let ck = &a[k];
            proof {
                assert(add_compat(self, a@, k as int));
                assert(ciphertext_wf(&a@[k as int]));
            }
            slots = ew_add_exec(&slots, &ck.slots, t);
            if ck.size > size {
                size = ck.size;
            }
            noise = min_nb_exec(noise, ck.noise_budget);
            proof {
                assert(vs.take(k + 1).drop_last() =~= vs.take(k as int));
                assert(vs.take(k + 1).last() == a@[k as int].slots@);
                assert(a@.take(k + 1).drop_last() =~= a@.take(k as int));
                assert(a@.take(k + 1).last() == a@[k as int]);
            }
            k = k + 1;
        }
        proof {
            assert(vs.take(a@.len() as int) =~= vs);
            assert(a@.take(a@.len() as int) =~= a@);
        }
        Ok(
            Ciphertext {
                slots,
                params: self.context.params.clone(),
                size,
                chain_level: first_level,
                is_ntt: first_ntt,
                noise_budget: noise,
            },
        )
    }

    /// Multiplies a non-empty list of ciphertexts slot-wise modulo t,
    /// folding from the left and relinearizing after every product, so
    /// the result has the minimal size 2 (a single operand is returned
    /// unchanged).  Fails with `InvalidArgument` on an empty list, with
    /// `InvalidOperation` exactly when an element belongs to another
    /// ring, is in NTT form or differs from the first in level, and with
    /// `KeyMismatch` when the keys belong to another ring or hold fewer
    /// component keys than the reduction needs.
    pub fn multiply_many(&self, a: &Vec<Ciphertext>, relin_keys: &RelinearizationKeys) -> (r:
        Result<Ciphertext, Error>)
        requires
            evaluator_wf(self),
            forall|i: int| 0 <= i < a@.len() ==> ciphertext_wf(#[trigger] &a@[i]),
            forall|i: int|
                0 <= i < a@.len() ==> (#[trigger] a@[i].size) <= 0x7fffffffffffffff,
        ensures
            match r {
                Ok(c) => {
                    &&& multiply_many_rejection(self, a@, relin_keys) is None
                    &&& c@ == ew_mul_all(views_of(a@), self.context.params.plain_modulus.value)
                    &&& c.size == if a@.len() == 1 {
                        a@[0].size
                    } else {
                        2u64
                    }
                    &&& c.chain_level == a@[0].chain_level
                    &&& !c.is_ntt
                    &&& c.noise_budget == mm_noise(a@)
                    &&& ciphertext_in(&c, &self.context.params)
                    &&& ciphertext_wf(&c)
                },
                Err(e) => multiply_many_rejection(self, a@, relin_keys) == Some(e),
            },
    {
        if a.len() == 0 {
            return Err(Error::InvalidArgument);
        }
        let first_level = a[0].chain_level;
        let mut i: usize = 0;
        while i < a.len()
            invariant
                i <= a@.len(),
                a@.len() >= 1,
                first_level == a@[0].chain_level,
                forall|j: int| 0 <= j < i ==> #[trigger] mul_compat(self, a@, j),
            decreases a@.len() - i,
        {
            let ci = &a[i];
            if !self.check_in(ci) || ci.is_ntt || ci.chain_level != first_level {
                proof {
                    assert(!mul_compat(self, a@, i as int));
                }
                return Err(Error::InvalidOperation);
            }
            i = i + 1;
        }
        if !params_eq_exec(&relin_keys.params, &self.context.params) {
            return Err(Error::KeyMismatch);
        }
        let ghost szs = sizes_of(a@);
        if a.len() >= 2 {
            let mut need: u64 = (a[0].size - 1) + (a[1].size - 2);
            proof {
                assert(szs.take(2).drop_last() =~= szs.take(1));
                assert(need == mm_needed(szs.take(2)));
            }
            let mut j: usize = 2;
            while j < a.len()
                invariant
                    2 <= j <= a@.len(),
                    a@.len() >= 2,
                    szs == sizes_of(a@),
                    forall|jj: int|
                        0 <= jj < a@.len() ==> (#[trigger] a@[jj].size) <= 0x7fffffffffffffff,
                    forall|jj: int| 0 <= jj < a@.len() ==> ciphertext_wf(#[trigger] &a@[jj]),
                    need == mm_needed(szs.take(j as int)),
                decreases a@.len() - j,
            {
                let nj = a[j].size - 1;
                proof {
                    assert(szs.take(j + 1).drop_last() =~= szs.take(j as int));
                    assert(szs.take(j + 1).last() == a@[j as int].size);
                }
                if nj > need {
                    need = nj;
                }
                j = j + 1;
            }
            proof {
                assert(szs.take(a@.len() as int) =~= szs);
            }
            if relin_keys.key_count < need {
                return Err(Error::KeyMismatch);
            }
        }
        let t = self.context.params.plain_modulus.value;
        let ghost vs = views_of(a@);
        proof {
            assert(mul_compat(self, a@, 0));
            assert(ciphertext_wf(&a@[0]));
        }
        let mut slots = crate::slots::clone_slots(&a[0].slots);
        let mut noise = a[0].noise_budget;
        let first_size = a[0].size;
        let mut k: usize = 1;
        proof {
            assert(vs.take(1) =~= seq![a@[0].slots@]);
            assert(a@.take(1) =~= seq![a@[0]]);
        }
        while k < a.len()
            invariant
                1 <= k <= a@.len(),
                evaluator_wf(self),
                t == self.context.params.plain_modulus.value,
                vs == views_of(a@),
                first_size == a@[0].size,
                forall|j: int| 0 <= j < a@.len() ==> ciphertext_wf(#[trigger] &a@[j]),
                forall|j: int| 0 <= j < a@.len() ==> #[trigger] mul_compat(self, a@, j),
                forall|j: int|
                    0 <= j < a@.len() ==> (#[trigger] a@[j].size) <= 0x7fffffffffffffff,
                slots@ == ew_mul_all(vs.take(k as int), t),
                slots@.len() <= self.context.params.poly_modulus_degree,
                slots_reduced(slots@, t),
                noise == mm_noise(a@.take(k as int)),
            decreases a@.len() - k,
        {
            let ck = &a[k];
            proof {
                assert(mul_compat(self, a@, k as int));
                assert(ciphertext_wf(&a@[k as int]));
            }
            let acc_size: u64 = if k == 1 {
                first_size
            } else {
                2
            };
            let cost = (acc_size - 1) + (ck.size - 1);
            slots = ew_mul_exec(&slots, &ck.slots, t);
            noise = nb_sub_exec(min_nb_exec(noise, ck.noise_budget), cost);
            proof {
                assert(vs.take(k + 1).drop_last() =~= vs.take(k as int));
                assert(vs.take(k + 1).last() == a@[k as int].slots@);
                assert(a@.take(k + 1).drop_last() =~= a@.take(k as int));
                assert(a@.take(k + 1).last() == a@[k as int]);
            }
            k = k + 1;
        }
        proof {
            assert(vs.take(a@.len() as int) =~= vs);
            assert(a@.take(a@.len() as int) =~= a@);
        }
        let out_size: u64 = if a.len() == 1 {
            first_size
        } else {
            2
        };
        Ok(
            Ciphertext {
                slots,
                params: self.context.params.clone(),
                size: out_size,
                chain_level: first_level,
                is_ntt: false,
                noise_budget: noise,
            },
        )
    }

    /// The square-and-multiply core of exponentiation, over a minimal
    /// ciphertext, relinearizing after every multiplication.
    fn pow_core(&self, base: &Ciphertext, e: u64) -> (r: Ciphertext)
        requires
            evaluator_wf(self),
            ciphertext_wf(base),
            ciphertext_in(base, &self.context.params),
            !base.is_ntt,
            base.size == 2,
            e >= 1,
        ensures
            r@ == ew_pow(base@, e, self.context.params.plain_modulus.value),
            r@.len() == base@.len(),
            r.size == 2,
            r.chain_level == base.chain_level,
            !r.is_ntt,
            r.noise_budget == nb_after(base.noise_budget, 2 * pow_mul_count(e as int) as int),
            ciphertext_in(&r, &self.context.params),
            ciphertext_wf(&r),
        decreases e,
    {
        let t = self.context.params.plain_modulus.value;
        if e == 1 {
            proof {
                crate::slots::lemma_ew_pow_one(base.slots@, t);
            }
            return base.clone();
        }
        let half = self.pow_core(base, e / 2);
        proof {
            crate::slots::lemma_ew_pow_split(base.slots@, e, t);
        }
        let sq = ew_mul_exec(&half.slots, &half.slots, t);
        let nb1 = nb_sub_exec(half.noise_budget, 2);
        if e % 2 == 1 {
            let m = ew_mul_exec(&sq, &base.slots, t);
            let nb2 = nb_sub_exec(nb1, 2);
            proof {
                lemma_nb_compose(base.noise_budget, 2 * pow_mul_count(e as int / 2) as int, 2);
                lemma_nb_compose(base.noise_budget, 2 * pow_mul_count(e as int / 2) as int + 2, 2);
            }
            Ciphertext {
                slots: m,
                params: self.context.params.clone(),
                size: 2,
                chain_level: base.chain_level,
                is_ntt: false,
                noise_budget: nb2,
            }
        } else {
            proof {
                lemma_nb_compose(base.noise_budget, 2 * pow_mul_count(e as int / 2) as int, 2);
            }
            Ciphertext {
                slots: sq,
                params: self.context.params.clone(),
                size: 2,
                chain_level: base.chain_level,
                is_ntt: false,
                noise_budget: nb1,
            }
        }
    }

    /// Raises a ciphertext to the `exponent`-th power slot-wise modulo
    /// t, by depth-optimal repeated squaring and multiplication with
    /// relinearization after every multiplication, so the result has the
    /// minimal size 2 (exponent 1 returns a copy).  Fails with
    /// `InvalidArgument` on exponent 0, with `InvalidOperation` when the
    /// ciphertext belongs to another ring or is in NTT form, and with
    /// `KeyMismatch` when the keys belong to another ring or are too few.
    pub fn exponentiate(
        &self,
        a: &Ciphertext,
        exponent: u64,
        relin_keys: &RelinearizationKeys,
    ) -> (r: Result<Ciphertext, Error>)
        requires
            evaluator_wf(self),
            ciphertext_wf(a),
        ensures
            match r {
                Ok(c) => {
                    &&& exponentiate_rejection(self, a, exponent, relin_keys) is None
                    &&& exponent == 1 ==> cipher_same(&c, a)
                    &&& exponent >= 2 ==> {
                        &&& c@ == ew_pow(a@, exponent, self.context.params.plain_modulus.value)
                        &&& c@.len() == a@.len()
                        &&& c.size == 2
                        &&& c.noise_budget == nb_after(
                            a.noise_budget,
                            2 * pow_mul_count(exponent as int) as int,
                        )
                    }
                    &&& c.chain_level == a.chain_level
                    &&& !c.is_ntt
                    &&& ciphertext_in(&c, &self.context.params)
                    &&& ciphertext_wf(&c)
                },
                Err(e) => exponentiate_rejection(self, a, exponent, relin_keys) == Some(e),
            },
    {
        if exponent == 0 {
            return Err(Error::InvalidArgument);
        }
        if !self.check_in(a) || a.is_ntt {
            return Err(Error::InvalidOperation);
        }
        if !params_eq_exec(&relin_keys.params, &self.context.params) {
            return Err(Error::KeyMismatch);
        }
        if exponent == 1 {
            return Ok(a.clone());
        }
        let need: u64 = if a.size >= 3 {
            a.size - 2
        } else {
            1
        };
        if relin_keys.key_count < need {
            return Err(Error::KeyMismatch);
        }
        // Key switching first reduces the operand to the minimal size;
        // it changes no slot and costs no noise in this model.
        let base = Ciphertext {
            slots: crate::slots::clone_slots(&a.slots),
            params: self.context.params.clone(),
            size: 2,
            chain_level: a.chain_level,
            is_ntt: false,
            noise_budget: a.noise_budget,
        };
        Ok(self.pow_core(&base, exponent))
    }

    /// In-place variant of `exponentiate`; on failure the destination is
    /// left unchanged.
    pub fn exponentiate_inplace(
        &self,
        a: &mut Ciphertext,
        exponent: u64,
        relin_keys: &RelinearizationKeys,
    ) -> (r: Result<(), Error>)
        requires
            evaluator_wf(self),
            ciphertext_wf(old(a)),
        ensures
            match r {
                Ok(()) => {
                    &&& exponentiate_rejection(self, old(a), exponent, relin_keys) is None
                    &&& exponent == 1 ==> cipher_same(final(a), old(a))
                    &&& exponent >= 2 ==> {
                        &&& final(a)@ == ew_pow(
                            old(a)@,
                            exponent,
                            self.context.params.plain_modulus.value,
                        )
                        &&& final(a).size == 2
                        &&& final(a).noise_budget == nb_after(
                            old(a).noise_budget,
                            2 * pow_mul_count(exponent as int) as int,
                        )
                    }
                    &&& final(a).chain_level == old(a).chain_level
                    &&& !final(a).is_ntt
                    &&& ciphertext_wf(final(a))
                    &&& ciphertext_in(final(a), &self.context.params)
                },
                Err(e) => {
                    &&& exponentiate_rejection(self, old(a), exponent, relin_keys) == Some(e)
                    &&& cipher_same(final(a), old(a))
                },
            },
    {
        match self.exponentiate(a, exponent, relin_keys) {
            Ok(c) => {
                *a = c;
                Ok(())
            },
            Err(e) => Err(e),
        }
    }
}

/// Why a relinearization is rejected, if it is: a foreign or NTT-form
/// ciphertext, keys from another ring, or too few component keys to
/// reduce from the ciphertext's size.
pub open spec fn relinearize_rejection(
    ev: &Evaluator,
    a: &Ciphertext,
    rk: &RelinearizationKeys,
) -> Option<Error> {
    if !ciphertext_in(a, &ev.context.params) || a.is_ntt {
        Some(Error::InvalidOperation)
    } else if !params_equal(&rk.params, &ev.context.params) {
        Some(Error::KeyMismatch)
    } else if rk.key_count < a.size - 2 {
        Some(Error::KeyMismatch)
    } else {
        None
    }
}

/// Why a row rotation is rejected, if it is: a foreign, NTT-form or
/// non-minimal ciphertext or a context without batching
/// (`InvalidOperation`); a step outside (-(N/2 - 1), N/2 - 1)
/// (`InvalidArgument`); keys from another ring (`KeyMismatch`).
pub open spec fn rotate_rows_rejection(
    ev: &Evaluator,
    a: &Ciphertext,
    steps: i32,
    gk: &GaloisKeys,
) -> Option<Error> {
    let half = ev.context.params.poly_modulus_degree as int / 2;
    if !ciphertext_in(a, &ev.context.params)
        || !crate::encryption_parameters::spec_batching_enabled(&ev.context.params) || a.is_ntt
        || a.size != 2 {
        Some(Error::InvalidOperation)
    } else if steps <= -half || steps >= half {
        Some(Error::InvalidArgument)
    } else if !params_equal(&gk.params, &ev.context.params) {
        Some(Error::KeyMismatch)
    } else {
        None
    }
}

/// Why a column rotation is rejected, if it is: as for rows, without a
/// step.
pub open spec fn rotate_columns_rejection(
    ev: &Evaluator,
    a: &Ciphertext,
    gk: &GaloisKeys,
) -> Option<Error> {
    if !ciphertext_in(a, &ev.context.params)
        || !crate::encryption_parameters::spec_batching_enabled(&ev.context.params) || a.is_ntt
        || a.size != 2 {
        Some(Error::InvalidOperation)
    } else if !params_equal(&gk.params, &ev.context.params) {
        Some(Error::KeyMismatch)
    } else {
        None
    }
}

/// Cyclic row rotation of a stored slot vector, padded to the full
/// width `n`.
fn rotate_rows_exec(a: &Vec<u64>, n: usize, steps: i64, t: u64) -> (r: Vec<u64>)
    requires
        2 <= n <= 32768,
        n % 2 == 0,
        a@.len() <= n,
        2 <= t,
        slots_reduced(a@, t),
        -(n as int / 2) < steps < n as int / 2,
    ensures
        r@ == rotate_rows_spec(a@, n as nat, steps as int),
        r@.len() == n,
        slots_reduced(r@, t),
{
    let half: usize = n / 2;
    let shift: usize = if steps >= 0 {
        steps as usize
    } else {
        half - ((-steps) as usize)
    };
    let mut r: Vec<u64> = Vec::new();
    let mut i: usize = 0;
    while i < n
        invariant
            i <= n,
            2 <= n <= 32768,
            n % 2 == 0,
            half == n / 2,
            shift < half,
            shift == if steps >= 0 {
                steps as int
            } else {
                half + steps
            },
            -(n as int / 2) < steps < n as int / 2,
            a@.len() <= n,
            2 <= t,
            slots_reduced(a@, t),
            r@.len() == i,
            forall|j: int|
                0 <= j < i ==> r@[j] == rotate_rows_spec(a@, n as nat, steps as int)[j]
                    && r@[j] < t,
        decreases n - i,
    {
        let (base, j) = if i < half {
            (0usize, i)
        } else {
            (half, i - half)
        };
        let jdx = base + (j + shift) % half;
        let val = if jdx < a.len() {
            a[jdx]
        } else {
            0
        };
        proof {
            if steps < 0 {
                vstd::arithmetic::div_mod::lemma_mod_add_multiples_vanish(
                    j + steps,
                    half as int,
                );
            }
            assert((j + shift) as int % (half as int) == (j + steps) % (half as int));
            assert(val == slot(a@, base + (j + steps) % (half as int)));
            assert(rotate_rows_spec(a@, n as nat, steps as int)[i as int] == slot(
                a@,
                base + (j + steps) % (half as int),
            ));
        }
        r.push(val);
        i = i + 1;
    }
    proof {
        assert(r@ =~= rotate_rows_spec(a@, n as nat, steps as int));
    }
    r
}

/// Column rotation (row swap) of a stored slot vector, padded to the
/// full width `n`.
fn rotate_columns_exec(a: &Vec<u64>, n: usize, t: u64) -> (r: Vec<u64>)
    requires
        2 <= n <= 32768,
        n % 2 == 0,
        a@.len() <= n,
        2 <= t,
        slots_reduced(a@, t),
    ensures
        r@ == rotate_columns_spec(a@, n as nat),
        r@.len() == n,
        slots_reduced(r@, t),
{
    let half: usize = n / 2;
    let mut r: Vec<u64> = Vec::new();
    let mut i: usize = 0;
    while i < n
        invariant
            i <= n,
            2 <= n <= 32768,
            n % 2 == 0,
            half == n / 2,
            a@.len() <= n,
            2 <= t,
            slots_reduced(a@, t),
            r@.len() == i,
            forall|j: int|
                0 <= j < i ==> r@[j] == rotate_columns_spec(a@, n as nat)[j] && r@[j] < t,
        decreases n - i,
    {
        let jdx = if i < half {
            i + half
        } else {
            i - half
        };
        let val = if jdx < a.len() {
            a[jdx]
        } else {
            0
        };
        r.push(val);
        i = i + 1;
    }
    proof {
        assert(r@ =~= rotate_columns_spec(a@, n as nat));
    }
    r
}

/// The BFV-specific extension of the evaluator: relinearization and
/// Galois-based slot rotation, composed with a generic `Evaluator` over
/// the same context.
pub struct BFVEvaluator {
    pub base: Evaluator,
}

impl BFVEvaluator {
    /// Binds a scheme evaluator to a context.
    pub fn new(ctx: &Context) -> (r: Result<BFVEvaluator, Error>)
        requires
            context_wf(ctx),
        ensures
            match r {
                Ok(v) => {
                    &&& params_equal(&v.base.context.params, &ctx.params)
                    &&& v.base.context.expand_mod_chain == ctx.expand_mod_chain
                    &&& evaluator_wf(&v.base)
                },
                Err(_) => false,
            },
    {
        match Evaluator::new(ctx) {
            Ok(base) => Ok(BFVEvaluator { base }),
            Err(e) => Err(e),
        }
    }

    /// The generic evaluator this extension is composed with.
    pub fn evaluator(&self) -> (e: &Evaluator)
        ensures
            e == &self.base,
    {
        &self.base
    }

    /// Reduces a ciphertext to the minimal size 2 by key switching; the
    /// decrypted value, level and noise budget are unchanged.  Fails
    /// with `InvalidOperation` when the ciphertext belongs to another
    /// ring or is in NTT form, and with `KeyMismatch` when the keys
    /// belong to another ring or hold fewer than `size - 2` component
    /// keys.
    pub fn relinearize(&self, a: &Ciphertext, relin_keys: &RelinearizationKeys) -> (r: Result<
        Ciphertext,
        Error,
    >)
        requires
            evaluator_wf(&self.base),
            ciphertext_wf(a),
        ensures
            match r {
                Ok(c) => {
                    &&& relinearize_rejection(&self.base, a, relin_keys) is None
                    &&& c@ == a@
                    &&& c.size == 2
                    &&& c.chain_level == a.chain_level
                    &&& !c.is_ntt
                    &&& c.noise_budget == a.noise_budget
                    &&& ciphertext_in(&c, &self.base.context.params)
                    &&& ciphertext_wf(&c)
                },
                Err(e) => relinearize_rejection(&self.base, a, relin_keys) == Some(e),
            },
    {
        if !self.base.check_in(a) || a.is_ntt {
            return Err(Error::InvalidOperation);
        }
        if !params_eq_exec(&relin_keys.params, &self.base.context.params) {
            return Err(Error::KeyMismatch);
        }
        if relin_keys.key_count < a.size - 2 {
            return Err(Error::KeyMismatch);
        }
        Ok(
            Ciphertext {
                slots: crate::slots::clone_slots(&a.slots),
                params: self.base.context.params.clone(),
                size: 2,
                chain_level: a.chain_level,
                is_ntt: false,
                noise_budget: a.noise_budget,
            },
        )
    }

    /// In-place variant of `relinearize`; on failure the destination is
    /// left unchanged.
    pub fn relinearize_inplace(&self, a: &mut Ciphertext, relin_keys: &RelinearizationKeys) -> (r:
        Result<(), Error>)
        requires
            evaluator_wf(&self.base),
            ciphertext_wf(old(a)),
        ensures
            match r {
                Ok(()) => {
                    &&& relinearize_rejection(&self.base, old(a), relin_keys) is None
                    &&& final(a)@ == old(a)@
                    &&& final(a).size == 2
                    &&& final(a).chain_level == old(a).chain_level
                    &&& !final(a).is_ntt
                    &&& final(a).noise_budget == old(a).noise_budget
                    &&& ciphertext_wf(final(a))
                    &&& ciphertext_in(final(a), &self.base.context.params)
                },
                Err(e) => {
                    &&& relinearize_rejection(&self.base, old(a), relin_keys) == Some(e)
                    &&& cipher_same(final(a), old(a))
                },
            },
    {
        match self.relinearize(a, relin_keys) {
            Ok(c) => {
                *a = c;
                Ok(())
            },
            Err(e) => Err(e),
        }
    }

    /// Rotates the two rows of the batching matrix cyclically by
    /// `steps` slots, positive to the left and negative to the right;
    /// step 0 is the identity on the zero-padded slot matrix.  The
    /// result carries the full N slots.  Fails as `rotate_rows_rejection`
    /// says: `InvalidArgument` exactly when |steps| exceeds N/2 - 1.
    pub fn rotate_rows(&self, a: &Ciphertext, steps: i32, galois_keys: &GaloisKeys) -> (r: Result<
        Ciphertext,
        Error,
    >)
        requires
            evaluator_wf(&self.base),
            ciphertext_wf(a),
        ensures
            match r {
                Ok(c) => {
                    &&& rotate_rows_rejection(&self.base, a, steps, galois_keys) is None
                    &&& c@ == rotate_rows_spec(
                        a@,
                        self.base.context.params.poly_modulus_degree as nat,
                        steps as int,
                    )
                    &&& c@.len() == self.base.context.params.poly_modulus_degree
                    &&& c.size == 2
                    &&& c.chain_level == a.chain_level
                    &&& !c.is_ntt
                    &&& c.noise_budget == a.noise_budget
                    &&& ciphertext_in(&c, &self.base.context.params)
                    &&& ciphertext_wf(&c)
                },
                Err(e) => rotate_rows_rejection(&self.base, a, steps, galois_keys) == Some(e),
            },
    {
        if !self.base.check_in(a) || !self.base.context.batching_enabled() || a.is_ntt || a.size
            != 2 {
            return Err(Error::InvalidOperation);
        }
        let n = self.base.context.params.poly_modulus_degree;
        let half_i64: i64 = (n / 2) as i64;
        let steps_i64: i64 = steps as i64;
        if steps_i64 <= -half_i64 || steps_i64 >= half_i64 {
            return Err(Error::InvalidArgument);
        }
        if !params_eq_exec(&galois_keys.params, &self.base.context.params) {
            return Err(Error::KeyMismatch);
        }
        let t = self.base.context.params.plain_modulus.value;
        Ok(
            Ciphertext {
                slots: rotate_rows_exec(&a.slots, n as usize, steps_i64, t),
                params: self.base.context.params.clone(),
                size: 2,
                chain_level: a.chain_level,
                is_ntt: false,
                noise_budget: a.noise_budget,
            },
        )
    }

    /// In-place variant of `rotate_rows`; on failure the destination is
    /// left unchanged.
    pub fn rotate_rows_inplace(
        &self,
        a: &mut Ciphertext,
        steps: i32,
        galois_keys: &GaloisKeys,
    ) -> (r: Result<(), Error>)
        requires
            evaluator_wf(&self.base),
            ciphertext_wf(old(a)),
        ensures
            match r {
                Ok(()) => {
                    &&& rotate_rows_rejection(&self.base, old(a), steps, galois_keys) is None
                    &&& final(a)@ == rotate_rows_spec(
                        old(a)@,
                        self.base.context.params.poly_modulus_degree as nat,
                        steps as int,
                    )
                    &&& final(a).size == 2
                    &&& final(a).chain_level == old(a).chain_level
                    &&& !final(a).is_ntt
                    &&& final(a).noise_budget == old(a).noise_budget
                    &&& ciphertext_wf(final(a))
                    &&& ciphertext_in(final(a), &self.base.context.params)
                },
                Err(e) => {
                    &&& rotate_rows_rejection(&self.base, old(a), steps, galois_keys) == Some(e)
                    &&& cipher_same(final(a), old(a))
                },
            },
    {
        match self.rotate_rows(a, steps, galois_keys) {
            Ok(c) => {
                *a = c;
                Ok(())
            },
            Err(e) => Err(e),
        }
    }

    /// Swaps the two rows of the batching matrix; applying it twice
    /// restores the zero-padded slot matrix.  The result carries the
    /// full N slots.
    pub fn rotate_columns(&self, a: &Ciphertext, galois_keys: &GaloisKeys) -> (r: Result<
        Ciphertext,
        Error,
    >)
        requires
            evaluator_wf(&self.base),
            ciphertext_wf(a),
        ensures
            match r {
                Ok(c) => {
                    &&& rotate_columns_rejection(&self.base, a, galois_keys) is None
                    &&& c@ == rotate_columns_spec(
                        a@,
                        self.base.context.params.poly_modulus_degree as nat,
                    )
                    &&& c@.len() == self.base.context.params.poly_modulus_degree
                    &&& c.size == 2
                    &&& c.chain_level == a.chain_level
                    &&& !c.is_ntt
                    &&& c.noise_budget == a.noise_budget
                    &&& ciphertext_in(&c, &self.base.context.params)
                    &&& ciphertext_wf(&c)
                },
                Err(e) => rotate_columns_rejection(&self.base, a, galois_keys) == Some(e),
            },
    {
        if !self.base.check_in(a) || !self.base.context.batching_enabled() || a.is_ntt || a.size
            != 2 {
            return Err(Error::InvalidOperation);
        }
        if !params_eq_exec(&galois_keys.params, &self.base.context.params) {
            return Err(Error::KeyMismatch);
        }
        let n = self.base.context.params.poly_modulus_degree;
        let t = self.base.context.params.plain_modulus.value;
        Ok(
            Ciphertext {
                slots: rotate_columns_exec(&a.slots, n as usize, t),
                params: self.base.context.params.clone(),
                size: 2,
                chain_level: a.chain_level,
                is_ntt: false,
                noise_budget: a.noise_budget,
            },
        )
    }

    /// In-place variant of `rotate_columns`; on failure the destination
    /// is left unchanged.
    pub fn rotate_columns_inplace(&self, a: &mut Ciphertext, galois_keys: &GaloisKeys) -> (r:
        Result<(), Error>)
        requires
            evaluator_wf(&self.base),
            ciphertext_wf(old(a)),
        ensures
            match r {
                Ok(()) => {
                    &&& rotate_columns_rejection(&self.base, old(a), galois_keys) is None
                    &&& final(a)@ == rotate_columns_spec(
                        old(a)@,
                        self.base.context.params.poly_modulus_degree as nat,
                    )
                    &&& final(a).size == 2
                    &&& final(a).chain_level == old(a).chain_level
                    &&& !final(a).is_ntt
                    &&& final(a).noise_budget == old(a).noise_budget
                    &&& ciphertext_wf(final(a))
                    &&& ciphertext_in(final(a), &self.base.context.params)
                },
                Err(e) => {
                    &&& rotate_columns_rejection(&self.base, old(a), galois_keys) == Some(e)
                    &&& cipher_same(final(a), old(a))
                },
            },
    {
        match self.rotate_columns(a, galois_keys) {
            Ok(c) => {
                *a = c;
                Ok(())
            },
            Err(e) => Err(e),
        }
    }
}

} // verus!
