//! The algebraic laws of the batching view, stated once over the spec
//! functions the operation contracts use and proved for every input.
//!
//! Together with the evaluator's contracts these say: encoding is
//! invertible, homomorphic addition and multiplication decrypt to the
//! elementwise sum and product (exactly so in the centered signed
//! reading, while sums and products stay in range), reductions decrypt
//! to sums and products of whole lists, row and column rotations are
//! invertible, exponentiation is repeated multiplication, and
//! relinearizing a squaring chain consumes strictly less noise budget
//! than letting the sizes grow.

use vstd::prelude::*;
use vstd::arithmetic::power::pow;

use crate::evaluator::{mm_noise, nb_after};
use crate::plaintext_ciphertext::Ciphertext;
use crate::slots::{
    centered, decode_signed_spec, encode_signed_spec, ew_add, ew_add_all, ew_mul, ew_mul_all,
    ew_pow, lemma_ew_pow_one, residue_of_signed, rotate_columns_spec, rotate_rows_spec,
    signed_in_range, signed_of_residue, slot, slots_reduced,
};

verus! {

/// A centered value survives reduction modulo t: taking its residue in
/// [0, t) and reading that residue back in the centered system yields
/// the value again.
pub proof fn lemma_centered_mod_round_trip(v: int, t: u64)
    requires
        t >= 2,
        t % 2 == 1,
        centered(v, t),
    ensures
        0 <= v % (t as int) < t,
        signed_of_residue((v % (t as int)) as u64, t) == v,
{
    let ti = t as int;
    crate::encoder::lemma_half_of_odd(t);
    if v >= 0 {
        vstd::arithmetic::div_mod::lemma_small_mod(v as nat, t as nat);
    } else {
        vstd::arithmetic::div_mod::lemma_mod_add_multiples_vanish(v, ti);
        vstd::arithmetic::div_mod::lemma_small_mod((v + ti) as nat, t as nat);
    }
}

/// The residue that encodes a signed value is congruent to it modulo t.
pub proof fn lemma_residue_congruent(v: i64, t: u64)
    requires
        t >= 2,
        signed_in_range(v, t),
    ensures
        residue_of_signed(v, t) % (t as int) == (v as int) % (t as int),
{
    if v < 0 {
        vstd::arithmetic::div_mod::lemma_mod_add_multiples_vanish(v as int, t as int);
    }
}

/// Round trip of the centered signed encoding: decoding an encoded
/// vector yields the vector, exactly, for every vector of representable
/// values.  (The unsigned encoding stores each value as its own
/// residue, so its round trip is immediate from the encoder's
/// contracts.)
pub proof fn lemma_signed_round_trip(vs: Seq<i64>, t: u64)
    requires
        t >= 2,
        t % 2 == 1,
        forall|i: int| 0 <= i < vs.len() ==> #[trigger] signed_in_range(vs[i], t),
    ensures
        decode_signed_spec(encode_signed_spec(vs, t), t) == vs,
{
    let enc = encode_signed_spec(vs, t);
    assert forall|i: int| 0 <= i < vs.len() implies decode_signed_spec(enc, t)[i] == vs[i] by {
        crate::slots::lemma_signed_residue_round_trip(vs[i], t);
    }
    assert(decode_signed_spec(enc, t) =~= vs);
}

/// Additive homomorphism, read in the centered signed system: adding
/// two encoded vectors slot-wise modulo t and decoding yields the
/// elementwise integer sum, whenever every sum is itself representable.
pub proof fn lemma_signed_additive_homomorphism(a: Seq<i64>, b: Seq<i64>, t: u64)
    requires
        t >= 2,
        t % 2 == 1,
        a.len() == b.len(),
        forall|i: int| 0 <= i < a.len() ==> #[trigger] signed_in_range(a[i], t),
        forall|i: int| 0 <= i < b.len() ==> #[trigger] signed_in_range(b[i], t),
        forall|i: int| 0 <= i < a.len() ==> #[trigger] centered(a[i] + b[i], t),
    ensures
        decode_signed_spec(ew_add(encode_signed_spec(a, t), encode_signed_spec(b, t), t), t)
            == Seq::new(a.len(), |i: int| (a[i] + b[i]) as i64),
{
    let ti = t as int;
    let ea = encode_signed_spec(a, t);
    let eb = encode_signed_spec(b, t);
    let sum = ew_add(ea, eb, t);
    assert forall|i: int| 0 <= i < a.len() implies decode_signed_spec(sum, t)[i] == (a[i]
        + b[i]) as i64 by {
        let x = a[i] as int;
        let y = b[i] as int;
        let rx = residue_of_signed(a[i], t);
        let ry = residue_of_signed(b[i], t);
        crate::slots::lemma_signed_residue_round_trip(a[i], t);
        crate::slots::lemma_signed_residue_round_trip(b[i], t);
        assert(rx + ry == x + y || rx + ry == x + y + ti || rx + ry == x + y + 2 * ti);
        vstd::arithmetic::div_mod::lemma_mod_add_multiples_vanish(x + y, ti);
        vstd::arithmetic::div_mod::lemma_mod_add_multiples_vanish(x + y + ti, ti);
        assert((rx + ry) % ti == (x + y) % ti);
        lemma_centered_mod_round_trip(x + y, t);
    }
    assert(decode_signed_spec(sum, t) =~= Seq::new(a.len(), |i: int| (a[i] + b[i]) as i64));
}

/// Multiplicative homomorphism, read in the centered signed system:
/// multiplying two encoded vectors slot-wise modulo t and decoding
/// yields the elementwise integer product, whenever every product is
/// itself representable.
pub proof fn lemma_signed_multiplicative_homomorphism(a: Seq<i64>, b: Seq<i64>, t: u64)
    requires
        t >= 2,
        t % 2 == 1,
        a.len() == b.len(),
        forall|i: int| 0 <= i < a.len() ==> #[trigger] signed_in_range(a[i], t),
        forall|i: int| 0 <= i < b.len() ==> #[trigger] signed_in_range(b[i], t),
        forall|i: int| 0 <= i < a.len() ==> #[trigger] centered(a[i] * b[i], t),
    ensures
        decode_signed_spec(ew_mul(encode_signed_spec(a, t), encode_signed_spec(b, t), t), t)
            == Seq::new(a.len(), |i: int| (a[i] * b[i]) as i64),
{
    let ti = t as int;
    let ea = encode_signed_spec(a, t);
    let eb = encode_signed_spec(b, t);
    let prod = ew_mul(ea, eb, t);
    assert forall|i: int| 0 <= i < a.len() implies decode_signed_spec(prod, t)[i] == (a[i]
        * b[i]) as i64 by {
        let x = a[i] as int;
        let y = b[i] as int;
        let rx = residue_of_signed(a[i], t);
        let ry = residue_of_signed(b[i], t);
        crate::slots::lemma_signed_residue_round_trip(a[i], t);
        crate::slots::lemma_signed_residue_round_trip(b[i], t);
        lemma_residue_congruent(a[i], t);
        lemma_residue_congruent(b[i], t);
        vstd::arithmetic::div_mod::lemma_mul_mod_noop_general(rx, ry, ti);
        vstd::arithmetic::div_mod::lemma_mul_mod_noop_general(x, y, ti);
        assert((rx * ry) % ti == (x * y) % ti);
        lemma_centered_mod_round_trip(x * y, t);
    }
    assert(decode_signed_spec(prod, t) =~= Seq::new(a.len(), |i: int| (a[i] * b[i]) as i64));
}

/// Slot-wise addition is commutative.
pub proof fn lemma_ew_add_commutes(a: Seq<u64>, b: Seq<u64>, t: u64)
    requires
        t >= 2,
    ensures
        ew_add(a, b, t) == ew_add(b, a, t),
{
    assert(ew_add(a, b, t) =~= ew_add(b, a, t));
}

/// Slot-wise multiplication is commutative.
pub proof fn lemma_ew_mul_commutes(a: Seq<u64>, b: Seq<u64>, t: u64)
    requires
        t >= 2,
    ensures
        ew_mul(a, b, t) == ew_mul(b, a, t),
{
    assert forall|i: int|
        0 <= i < ew_mul(a, b, t).len() implies ew_mul(a, b, t)[i] == ew_mul(b, a, t)[i] by {
        vstd::arithmetic::mul::lemma_mul_is_commutative(slot(a, i) as int, slot(b, i) as int);
    }
    assert(ew_mul(a, b, t) =~= ew_mul(b, a, t));
}

/// The integer sum of slot `i` across a list of stored vectors.
pub open spec fn sum_at(ss: Seq<Seq<u64>>, i: int) -> int
    recommends
        ss.len() >= 1,
    decreases ss.len(),
{
    if ss.len() <= 1 {
        slot(ss[0], i) as int
    } else {
        sum_at(ss.drop_last(), i) + slot(ss.last(), i)
    }
}

/// The integer product of slot `i` across a list of stored vectors.
pub open spec fn prod_at(ss: Seq<Seq<u64>>, i: int) -> int
    recommends
        ss.len() >= 1,
    decreases ss.len(),
{
    if ss.len() <= 1 {
        slot(ss[0], i) as int
    } else {
        prod_at(ss.drop_last(), i) * slot(ss.last(), i)
    }
}

/// Reduction consistency for addition: the fold the evaluator's
/// `add_many` computes holds, in every slot, the sum of all the
/// operands' slots modulo t.
pub proof fn lemma_add_all_is_elementwise_sum(ss: Seq<Seq<u64>>, t: u64, i: int)
    requires
        t >= 2,
        ss.len() >= 1,
        forall|k: int| 0 <= k < ss.len() ==> slots_reduced(#[trigger] ss[k], t),
    ensures
        slot(ew_add_all(ss, t), i) as int == sum_at(ss, i) % (t as int),
    decreases ss.len(),
{
    let ti = t as int;
    if ss.len() <= 1 {
        if 0 <= i < ss[0].len() {
            vstd::arithmetic::div_mod::lemma_small_mod(ss[0][i] as nat, t as nat);
        } else {
            vstd::arithmetic::div_mod::lemma_small_mod(0nat, t as nat);
        }
    } else {
        let prefix = ss.drop_last();
        lemma_add_all_is_elementwise_sum(prefix, t, i);
        let acc = ew_add_all(prefix, t);
        let last = ss.last();
        if 0 <= i < vstd::math::max(acc.len() as int, last.len() as int) {
            assert(slot(ew_add_all(ss, t), i) as int == (slot(acc, i) + slot(last, i)) % ti);
            vstd::arithmetic::div_mod::lemma_add_mod_noop(sum_at(prefix, i), slot(last, i) as int, ti);
            vstd::arithmetic::div_mod::lemma_small_mod(slot(last, i) as nat, t as nat);
            assert(slot(last, i) < t) by {
                if 0 <= i < last.len() {
                    assert(last[i] < t);
                }
            }
        } else {
            assert(slot(ew_add_all(ss, t), i) == 0);
            assert(slot(acc, i) == 0 && slot(last, i) == 0);
            vstd::arithmetic::div_mod::lemma_small_mod(0nat, t as nat);
            vstd::arithmetic::div_mod::lemma_add_mod_noop(sum_at(prefix, i), 0, ti);
        }
    }
}

/// Reduction consistency for multiplication: the relinearizing fold the
/// evaluator's `multiply_many` computes holds, in every slot, the
/// product of all the operands' slots modulo t.
pub proof fn lemma_mul_all_is_elementwise_product(ss: Seq<Seq<u64>>, t: u64, i: int)
    requires
        t >= 2,
        ss.len() >= 1,
        forall|k: int| 0 <= k < ss.len() ==> slots_reduced(#[trigger] ss[k], t),
    ensures
        slot(ew_mul_all(ss, t), i) as int == prod_at(ss, i) % (t as int),
    decreases ss.len(),
{
    let ti = t as int;
    if ss.len() <= 1 {
        if 0 <= i < ss[0].len() {
            vstd::arithmetic::div_mod::lemma_small_mod(ss[0][i] as nat, t as nat);
        } else {
            vstd::arithmetic::div_mod::lemma_small_mod(0nat, t as nat);
        }
    } else {
        let prefix = ss.drop_last();
        lemma_mul_all_is_elementwise_product(prefix, t, i);
        let acc = ew_mul_all(prefix, t);
        let last = ss.last();
        if 0 <= i < vstd::math::max(acc.len() as int, last.len() as int) {
            assert(slot(ew_mul_all(ss, t), i) as int == (slot(acc, i) * slot(last, i)) % ti);
            vstd::arithmetic::div_mod::lemma_mul_mod_noop_general(
                prod_at(prefix, i),
                slot(last, i) as int,
                ti,
            );
            vstd::arithmetic::div_mod::lemma_small_mod(slot(last, i) as nat, t as nat);
            assert(slot(last, i) < t) by {
                if 0 <= i < last.len() {
                    assert(last[i] < t);
                }
            }
        } else {
            assert(slot(ew_mul_all(ss, t), i) == 0);
            assert(slot(acc, i) == 0 && slot(last, i) == 0);
            vstd::arithmetic::div_mod::lemma_small_mod(0nat, t as nat);
            vstd::arithmetic::div_mod::lemma_mul_mod_noop_general(prod_at(prefix, i), 0, ti);
        }
    }
}

/// Rotation inverse law: rotating the rows by `s` and then by `-s`
/// restores every full-width slot vector.
pub proof fn lemma_rotate_rows_inverse(a: Seq<u64>, n: nat, s: int)
    requires
        n >= 2,
        n % 2 == 0,
        a.len() == n,
        -(n as int / 2) < s < n as int / 2,
    ensures
        rotate_rows_spec(rotate_rows_spec(a, n, s), n, -s) == a,
{
    let half = n as int / 2;
    let r1 = rotate_rows_spec(a, n, s);
    let r2 = rotate_rows_spec(r1, n, -s);
    assert forall|i: int| 0 <= i < n implies r2[i] == a[i] by {
        vstd::arithmetic::div_mod::lemma_mod_division_less_than_divisor(i - s, half);
        vstd::arithmetic::div_mod::lemma_mod_division_less_than_divisor(i - half - s, half);
        if i < half {
            let j = (i + (-s)) % half;
            assert(r2[i] == slot(r1, j));
            assert(r1[j] == slot(a, (j + s) % half));
            assert(((i - s) % half + s) % half == i % half) by {
                vstd::arithmetic::div_mod::lemma_add_mod_noop_right(s, i - s, half);
            }
            vstd::arithmetic::div_mod::lemma_small_mod(i as nat, half as nat);
        } else {
            let j = (i - half + (-s)) % half;
            assert(r2[i] == slot(r1, half + j));
            assert(r1[half + j] == slot(a, half + (j + s) % half));
            assert(((i - half - s) % half + s) % half == (i - half) % half) by {
                vstd::arithmetic::div_mod::lemma_add_mod_noop_right(s, i - half - s, half);
            }
            vstd::arithmetic::div_mod::lemma_small_mod((i - half) as nat, half as nat);
        }
    }
    assert(r2 =~= a);
}

/// Column rotation is an involution: swapping the rows twice restores
/// every full-width slot vector.
pub proof fn lemma_rotate_columns_involution(a: Seq<u64>, n: nat)
    requires
        n >= 2,
        n % 2 == 0,
        a.len() == n,
    ensures
        rotate_columns_spec(rotate_columns_spec(a, n), n) == a,
{
    assert(rotate_columns_spec(rotate_columns_spec(a, n), n) =~= a);
}

/// `e`-fold repeated multiplication of a vector by itself, slot-wise
/// modulo t.
pub open spec fn repeated_mul(s: Seq<u64>, e: nat, t: u64) -> Seq<u64>
    recommends
        e >= 1,
    decreases e,
{
    if e <= 1 {
        s
    } else {
        ew_mul(repeated_mul(s, (e - 1) as nat, t), s, t)
    }
}

/// Exponentiation law: the power map the evaluator's `exponentiate`
/// computes equals plain repeated multiplication, slot for slot.
pub proof fn lemma_exponentiate_matches_repeated_multiply(s: Seq<u64>, e: u64, t: u64)
    requires
        t >= 2,
        e >= 1,
        slots_reduced(s, t),
    ensures
        ew_pow(s, e, t) == repeated_mul(s, e as nat, t),
    decreases e,
{
    if e == 1 {
        lemma_ew_pow_one(s, t);
    } else {
        lemma_exponentiate_matches_repeated_multiply(s, (e - 1) as u64, t);
        let prev = ew_pow(s, (e - 1) as u64, t);
        assert forall|i: int| 0 <= i < s.len() implies ew_mul(prev, s, t)[i] == ew_pow(
            s,
            e,
            t,
        )[i] by {
            let x = slot(s, i) as int;
            vstd::arithmetic::power::lemma_pow_adds(x, (e - 1) as nat, 1);
            vstd::arithmetic::power::lemma_pow1(x);
            vstd::arithmetic::div_mod::lemma_mul_mod_noop_left(
                pow(x, (e - 1) as nat),
                x,
                t as int,
            );
        }
        assert(ew_mul(prev, s, t) =~= ew_pow(s, e, t));
    }
}

/// The noise budget a relinearizing multiplication reduction leaves
/// when it starts from minimal ciphertexts of one common budget: every
/// one of its `k - 1` products is between minimal ciphertexts and so
/// costs exactly 2.
pub proof fn lemma_multiply_many_noise_minimal(s: Seq<Ciphertext>, b: u64)
    requires
        s.len() >= 1,
        forall|i: int| 0 <= i < s.len() ==> #[trigger] s[i].size == 2,
        forall|i: int| 0 <= i < s.len() ==> #[trigger] s[i].noise_budget == b,
    ensures
        mm_noise(s) == nb_after(b, 2 * (s.len() - 1)),
    decreases s.len(),
{
    if s.len() <= 1 {
        assert(s[0].noise_budget == b);
    } else {
        let prefix = s.drop_last();
        assert forall|i: int| 0 <= i < prefix.len() implies #[trigger] prefix[i].size == 2
            && prefix[i].noise_budget == b by {
            assert(s[i].size == 2 && s[i].noise_budget == b);
        }
        lemma_multiply_many_noise_minimal(prefix, b);
        assert(s.last().size == 2 && s.last().noise_budget == b);
        crate::evaluator::lemma_nb_compose(b, 2 * (s.len() - 2), 2);
    }
}

/// The total noise cost of folding `k` minimal ciphertexts into a
/// product without any relinearization: the accumulator's size grows by
/// one at each step, so the `j`-th product costs `j + 1`.
pub open spec fn chain_mul_cost(k: nat) -> int
    decreases k,
{
    if k <= 1 {
        0
    } else {
        chain_mul_cost((k - 1) as nat) + k
    }
}

/// Reduction-noise law for the multiplication reduction: over three or
/// more operands, the relinearizing fold's total cost of `2 * (k - 1)`
/// is strictly below the cost of the same fold without relinearization.
pub proof fn lemma_relinearized_reduction_cheaper(k: nat)
    requires
        k >= 3,
    ensures
        2 * (k - 1) < chain_mul_cost(k),
    decreases k,
{
    if k == 3 {
        assert(chain_mul_cost(1) == 0);
        assert(chain_mul_cost(2) == 2);
        assert(chain_mul_cost(3) == 5);
    } else {
        lemma_relinearized_reduction_cheaper((k - 1) as nat);
    }
}

/// The representation size after `m` unrelinearized squarings of a
/// minimal ciphertext: it doubles (less one) at every step.
pub open spec fn square_chain_size(m: nat) -> int
    decreases m,
{
    if m == 0 {
        2
    } else {
        2 * square_chain_size((m - 1) as nat) - 1
    }
}

/// The total noise cost of `m` squarings without relinearization,
/// under this crate's accounting: each squaring pays the evaluator's
/// multiplication cost, `size + size - 2`, at the chain's current size.
pub open spec fn square_chain_cost(m: nat) -> int
    decreases m,
{
    if m == 0 {
        0
    } else {
        square_chain_cost((m - 1) as nat) + 2 * (square_chain_size((m - 1) as nat) - 1)
    }
}

/// The unrelinearized size after `m` squarings is `2^m + 1`.
pub proof fn lemma_square_chain_size(m: nat)
    ensures
        square_chain_size(m) == vstd::arithmetic::power2::pow2(m) + 1,
    decreases m,
{
    if m == 0 {
        assert(vstd::arithmetic::power2::pow2(0) == 1) by {
            vstd::arithmetic::power2::lemma2_to64();
        }
    } else {
        lemma_square_chain_size((m - 1) as nat);
        vstd::arithmetic::power2::lemma_pow2_unfold(m);
    }
}

/// Reduction-noise law: relinearizing after every squaring, which
/// keeps every multiplication at the minimal size and so at cost 2,
/// consumes strictly less noise budget over `m >= 2` squarings than
/// the same chain without relinearization.
pub proof fn lemma_relinearized_chain_cheaper(m: nat)
    requires
        m >= 2,
    ensures
        2 * m < square_chain_cost(m),
    decreases m,
{
    lemma_square_chain_size((m - 1) as nat);
    if m == 2 {
        assert(square_chain_size(0) == 2);
        assert(square_chain_size(1) == 3);
        assert(square_chain_cost(0) == 0);
        assert(square_chain_cost(1) == 2);
        assert(square_chain_cost(2) == 6);
    } else {
        lemma_relinearized_chain_cheaper((m - 1) as nat);
        assert(vstd::arithmetic::power2::pow2((m - 1) as nat) >= 2) by {
            vstd::arithmetic::power2::lemma_pow2_strictly_increases(0, (m - 1) as nat);
            vstd::arithmetic::power2::lemma2_to64();
        }
    }
}

} // verus!

