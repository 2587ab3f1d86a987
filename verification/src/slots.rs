//! The slot-vector algebra of the batching view.
//!
//! A plaintext (and, through decryption, a ciphertext) is viewed as a
//! vector of integer slots modulo the plaintext modulus `t`.  A stored
//! vector may be shorter than the ring degree; the missing trailing slots
//! are zero.  The spec functions here define what every homomorphic
//! operation does to that view, and the lemmas relate them to the signed
//! (centered) reading of the slots.

use vstd::prelude::*;
use vstd::arithmetic::power::pow;

verus! {

/// Slot `i` of a stored vector, with the implicit zero padding.
pub open spec fn slot(s: Seq<u64>, i: int) -> u64 {
    if 0 <= i < s.len() {
        s[i]
    } else {
        0u64
    }
}

/// The length of the elementwise combination of two stored vectors.
pub open spec fn join_len(a: Seq<u64>, b: Seq<u64>) -> nat {
    vstd::math::max(a.len() as int, b.len() as int) as nat
}

/// Every stored slot is zero: the batched value is identically zero.
pub open spec fn all_zero(s: Seq<u64>) -> bool {
    forall|i: int| 0 <= i < s.len() ==> s[i] == 0
}

/// All stored slots lie below the plaintext modulus.
pub open spec fn slots_reduced(s: Seq<u64>, t: u64) -> bool {
    forall|i: int| 0 <= i < s.len() ==> s[i] < t
}

/// Elementwise negation modulo `t`.
pub open spec fn ew_neg(a: Seq<u64>, t: u64) -> Seq<u64> {
    Seq::new(a.len(), |i: int| (((t - slot(a, i)) % (t as int)) as u64))
}

/// Elementwise sum modulo `t`; the shorter operand is zero-padded.
pub open spec fn ew_add(a: Seq<u64>, b: Seq<u64>, t: u64) -> Seq<u64> {
    Seq::new(join_len(a, b), |i: int| (((slot(a, i) + slot(b, i)) % (t as int)) as u64))
}

/// Elementwise difference modulo `t`; the shorter operand is zero-padded.
pub open spec fn ew_sub(a: Seq<u64>, b: Seq<u64>, t: u64) -> Seq<u64> {
    Seq::new(join_len(a, b), |i: int| (((slot(a, i) - slot(b, i)) % (t as int)) as u64))
}

/// Elementwise product modulo `t`; the shorter operand is zero-padded.
pub open spec fn ew_mul(a: Seq<u64>, b: Seq<u64>, t: u64) -> Seq<u64> {
    Seq::new(join_len(a, b), |i: int| (((slot(a, i) * slot(b, i)) % (t as int)) as u64))
}

/// Elementwise `e`-th power modulo `t`.
pub open spec fn ew_pow(a: Seq<u64>, e: u64, t: u64) -> Seq<u64> {
    Seq::new(a.len(), |i: int| ((pow(slot(a, i) as int, e as nat) % (t as int)) as u64))
}

/// The elementwise sum modulo `t` of a non-empty list of stored vectors,
/// folded from the left.
pub open spec fn ew_add_all(ss: Seq<Seq<u64>>, t: u64) -> Seq<u64>
    recommends
        ss.len() >= 1,
    decreases ss.len(),
{
    if ss.len() <= 1 {
        ss[0]
    } else {
        ew_add(ew_add_all(ss.drop_last(), t), ss.last(), t)
    }
}

/// The elementwise product modulo `t` of a non-empty list of stored
/// vectors, folded from the left.
pub open spec fn ew_mul_all(ss: Seq<Seq<u64>>, t: u64) -> Seq<u64>
    recommends
        ss.len() >= 1,
    decreases ss.len(),
{
    if ss.len() <= 1 {
        ss[0]
    } else {
        ew_mul(ew_mul_all(ss.drop_last(), t), ss.last(), t)
    }
}

/// The stored vector padded with zeros up to the full slot count `n`.
pub open spec fn padded(a: Seq<u64>, n: nat) -> Seq<u64> {
    Seq::new(n, |i: int| slot(a, i))
}

/// Cyclic row rotation of the 2 x (n/2) slot matrix: each row is shifted
/// `steps` positions to the left (negative steps shift to the right).
pub open spec fn rotate_rows_spec(a: Seq<u64>, n: nat, steps: int) -> Seq<u64>
    recommends
        n >= 2,
        n % 2 == 0,
{
    let half = n as int / 2;
    Seq::new(
        n,
        |i: int|
            if i < half {
                slot(a, (i + steps) % half)
            } else {
                slot(a, half + (i - half + steps) % half)
            },
    )
}

/// Column rotation of the 2 x (n/2) slot matrix: the two rows swap.
pub open spec fn rotate_columns_spec(a: Seq<u64>, n: nat) -> Seq<u64>
    recommends
        n >= 2,
        n % 2 == 0,
{
    let half = n as int / 2;
    Seq::new(n, |i: int| if i < half { slot(a, i + half) } else { slot(a, i - half) })
}

/// Whether an integer is representable in the centered residue system
/// modulo `t`.
pub open spec fn centered(v: int, t: u64) -> bool {
    -(t as int / 2) <= v <= (t as int - 1) / 2
}

/// Whether a signed value is representable in the centered residue
/// system modulo `t`.
pub open spec fn signed_in_range(v: i64, t: u64) -> bool {
    centered(v as int, t)
}

/// The residue modulo `t` that encodes a signed value: non-negative
/// values map to themselves, negative values are taken from the top of
/// the range.
pub open spec fn residue_of_signed(v: i64, t: u64) -> int {
    if v >= 0 {
        v as int
    } else {
        v + t
    }
}

/// The centered signed reading of a residue modulo `t`.
pub open spec fn signed_of_residue(r: u64, t: u64) -> int {
    if r <= (t as int - 1) / 2 {
        r as int
    } else {
        r - t
    }
}

/// The residue vector that encodes a signed slot vector.
pub open spec fn encode_signed_spec(vs: Seq<i64>, t: u64) -> Seq<u64> {
    Seq::new(vs.len(), |i: int| residue_of_signed(vs[i], t) as u64)
}

/// The signed reading of a residue vector.
pub open spec fn decode_signed_spec(rs: Seq<u64>, t: u64) -> Seq<i64> {
    Seq::new(rs.len(), |i: int| signed_of_residue(rs[i], t) as i64)
}

/// Copies a stored slot vector.
pub fn clone_slots(v: &Vec<u64>) -> (r: Vec<u64>)
    ensures
        r@ == v@,
{
    let mut r: Vec<u64> = Vec::new();
    let mut i: usize = 0;
    while i < v.len()
        invariant
            i <= v@.len(),
            r@ == v@.take(i as int),
        decreases v@.len() - i,
    {
        r.push(v[i]);
        proof {
            assert(r@ =~= v@.take(i + 1));
        }
        i = i + 1;
    }
    proof {
        assert(v@.take(v@.len() as int) =~= v@);
    }
    r
}

/// A reduced vector is its own first power.
pub proof fn lemma_ew_pow_one(s: Seq<u64>, t: u64)
    requires
        t >= 2,
        slots_reduced(s, t),
    ensures
        ew_pow(s, 1, t) == s,
{
    assert forall|i: int| 0 <= i < s.len() implies ew_pow(s, 1, t)[i] == s[i] by {
        vstd::arithmetic::power::lemma_pow1(slot(s, i) as int);
        vstd::arithmetic::div_mod::lemma_small_mod(s[i] as nat, t as nat);
    }
    assert(ew_pow(s, 1, t) =~= s);
}

/// Square-and-multiply step: the e-th power modulo t of a reduced
/// vector is the product of two copies of its (e/2)-th power, times the
/// vector itself when e is odd.
pub proof fn lemma_ew_pow_split(s: Seq<u64>, e: u64, t: u64)
    requires
        t >= 2,
        e >= 2,
        slots_reduced(s, t),
    ensures
        e % 2 == 0 ==> ew_pow(s, e, t) == ew_mul(
            ew_pow(s, e / 2, t),
            ew_pow(s, e / 2, t),
            t,
        ),
        e % 2 == 1 ==> ew_pow(s, e, t) == ew_mul(
            ew_mul(ew_pow(s, e / 2, t), ew_pow(s, e / 2, t), t),
            s,
            t,
        ),
{
    let e2 = (e / 2) as nat;
    let p = ew_pow(s, e / 2, t);
    let sq = ew_mul(p, p, t);
    assert forall|i: int| 0 <= i < s.len() implies {
        &&& (e % 2 == 0 ==> sq[i] == ew_pow(s, e, t)[i])
        &&& (e % 2 == 1 ==> ew_mul(sq, s, t)[i] == ew_pow(s, e, t)[i])
    } by {
        let x = slot(s, i) as int;
        let pw = pow(x, e2);
        vstd::arithmetic::power::lemma_pow_adds(x, e2, e2);
        vstd::arithmetic::div_mod::lemma_mul_mod_noop_general(pw, pw, t as int);
        if e % 2 == 0 {
            assert(e as nat == e2 + e2);
        } else {
            assert(e as nat == (e2 + e2) + 1);
            vstd::arithmetic::power::lemma_pow_adds(x, e2 + e2, 1);
            vstd::arithmetic::power::lemma_pow1(x);
            vstd::arithmetic::div_mod::lemma_mul_mod_noop_left(
                pow(x, e2 + e2),
                x,
                t as int,
            );
        }
    }
    if e % 2 == 0 {
        assert(ew_pow(s, e, t) =~= sq);
    } else {
        assert(ew_pow(s, e, t) =~= ew_mul(sq, s, t));
    }
}

/// Encoding a representable signed value yields a reduced residue, and
/// reading it back yields the value: the signed round trip is exact.
pub proof fn lemma_signed_residue_round_trip(v: i64, t: u64)
    requires
        t >= 2,
        signed_in_range(v, t),
    ensures
        0 <= residue_of_signed(v, t) < t,
        signed_of_residue(residue_of_signed(v, t) as u64, t) == v as int,
{
}

} // verus!
