//! Moduli of the ring: the coefficient modulus chain and the plaintext
//! modulus, together with the verified prime search that picks a
//! batching-friendly plaintext modulus.

use vstd::prelude::*;
use vstd::arithmetic::power2::pow2;

use crate::error::Error;

verus! {

/// One modulus of the scheme, stored by value.
#[derive(Clone, Copy, Debug, PartialEq, Eq, Structural)]
pub struct Modulus {
    pub value: u64,
}

impl Modulus {
    /// Wraps a raw modulus value.
    pub fn new(value: u64) -> (m: Modulus)
        ensures
            m.value == value,
    {
        Modulus { value }
    }

    /// The numeric value of the modulus.
    pub fn value(&self) -> (v: u64)
        ensures
            v == self.value,
    {
        self.value
    }
}

/// The security level the ring parameters are held to: the classical
/// 128, 192 or 256 bit levels of the homomorphic encryption standard.
#[derive(Clone, Copy, Debug, PartialEq, Eq, Structural)]
pub enum SecurityLevel {
    TC128,
    TC192,
    TC256,
}

/// The number of binary digits of `v`.
pub open spec fn bit_length(v: nat) -> nat
    decreases v,
{
    if v == 0 {
        0
    } else {
        1 + bit_length(v / 2)
    }
}

/// `n` has no divisor other than 1 and itself.
pub open spec fn is_prime(n: int) -> bool {
    n >= 2 && forall|d: int| 2 <= d < n ==> #[trigger] (n % d) != 0
}

/// `n` is a positive power of two.
pub open spec fn is_power_of_two(n: int) -> bool
    decreases n,
{
    if n <= 0 {
        false
    } else if n == 1 {
        true
    } else {
        n % 2 == 0 && is_power_of_two(n / 2)
    }
}

/// Computes the number of binary digits of `v`.
pub fn bit_length_u64(v: u64) -> (n: u64)
    ensures
        n == bit_length(v as nat),
        n <= 64,
{
    let mut rest: u64 = v;
    let mut n: u64 = 0;
    proof {
        vstd::arithmetic::power2::lemma2_to64_rest();
        lemma_bit_length_le_64(v as nat);
    }
    while rest > 0
        invariant
            n + bit_length(rest as nat) == bit_length(v as nat),
            bit_length(v as nat) <= 64,
        decreases rest,
    {
        rest = rest / 2;
        n = n + 1;
    }
    n
}

/// The number of binary digits of a value below 2^64 is at most 64.
proof fn lemma_bit_length_le_64(v: nat)
    requires
        v < pow2(64),
    ensures
        bit_length(v) <= 64,
{
    lemma_bit_length_bound(v, 64);
}

/// A value below 2^e has at most e binary digits.
proof fn lemma_bit_length_bound(v: nat, e: nat)
    requires
        v < pow2(e),
    ensures
        bit_length(v) <= e,
    decreases e,
{
    if v > 0 {
        if e == 0 {
            assert(pow2(0) == 1) by {
                vstd::arithmetic::power2::lemma2_to64();
            }
        } else {
            vstd::arithmetic::power2::lemma_pow2_unfold(e);
            lemma_bit_length_bound(v / 2, (e - 1) as nat);
        }
    }
}

/// A value of exactly e binary digits lies in [2^(e-1), 2^e).
pub proof fn lemma_bit_length_range(v: nat, e: nat)
    requires
        e >= 1,
        pow2((e - 1) as nat) <= v < pow2(e),
    ensures
        bit_length(v) == e,
    decreases e,
{
    vstd::arithmetic::power2::lemma_pow2_unfold(e);
    vstd::arithmetic::power2::lemma_pow2_pos((e - 1) as nat);
    if e == 1 {
        assert(pow2(0) == 1 && pow2(1) == 2) by {
            vstd::arithmetic::power2::lemma2_to64();
        }
        assert(v == 1);
        assert(bit_length(0) == 0);
        assert(bit_length(1) == 1);
    } else {
        vstd::arithmetic::power2::lemma_pow2_unfold((e - 1) as nat);
        assert(pow2((e - 1) as nat) == 2 * pow2((e - 2) as nat));
        lemma_bit_length_range(v / 2, (e - 1) as nat);
        assert(bit_length(v) == 1 + bit_length(v / 2));
    }
}

/// Tests whether `n` is a power of two.
pub fn is_power_of_two_u64(n: u64) -> (r: bool)
    ensures
        r == is_power_of_two(n as int),
    decreases n,
{
    if n == 0 {
        false
    } else if n == 1 {
        true
    } else if n % 2 != 0 {
        false
    } else {
        is_power_of_two_u64(n / 2)
    }
}

/// Every composite number has a divisor no larger than its square root,
/// so trial division up to the square root decides primality.
proof fn lemma_trial_division(n: int)
    requires
        n >= 2,
        forall|d: int| 2 <= d && d * d <= n ==> #[trigger] (n % d) != 0,
    ensures
        is_prime(n),
{
    if !is_prime(n) {
        let d = choose|d: int| 2 <= d < n && #[trigger] (n % d) == 0;
        vstd::arithmetic::div_mod::lemma_fundamental_div_mod(n, d);
        let q = n / d;
        assert(n == d * q);
        assert(q >= 2) by (nonlinear_arith)
            requires
                n == d * q,
                2 <= d < n,
        ;
        if d * d <= n {
            assert(false);
        } else {
            assert(q * q <= n && q < n) by (nonlinear_arith)
                requires
                    n == d * q,
                    d * d > n,
                    2 <= d,
                    2 <= q,
            ;
            assert(n % q == 0) by {
                vstd::arithmetic::div_mod::lemma_mod_multiples_basic(d, q);
            }
            assert(false);
        }
    }
}

/// `d <= n / d` is the division form of `d * d <= n`.
proof fn lemma_sqrt_condition(n: int, d: int)
    requires
        n >= 0,
        d >= 1,
    ensures
        (d <= n / d) <==> (d * d <= n),
{
    vstd::arithmetic::div_mod::lemma_fundamental_div_mod(n, d);
    if d <= n / d {
        vstd::arithmetic::mul::lemma_mul_inequality(d, n / d, d);
        vstd::arithmetic::div_mod::lemma_mod_division_less_than_divisor(n, d);
        assert(d * d <= (n / d) * d);
        assert(n == d * (n / d) + n % d);
        vstd::arithmetic::mul::lemma_mul_is_commutative(d, n / d);
        assert(d * d <= n);
    }
    if d * d <= n {
        vstd::arithmetic::div_mod::lemma_div_is_ordered(d * d, n, d);
        vstd::arithmetic::div_mod::lemma_div_by_multiple(d, d);
        assert(d <= n / d);
    }
}

/// Decides primality by trial division.
pub fn is_prime_u64(n: u64) -> (r: bool)
    ensures
        r == is_prime(n as int),
{
    if n < 2 {
        return false;
    }
    let mut d: u64 = 2;
    while d <= n / d
        invariant
            2 <= d <= n,
            n >= 2,
            forall|k: int| 2 <= k < d ==> #[trigger] ((n as int) % k) != 0,
        decreases n - d,
    {
        proof {
            lemma_sqrt_condition(n as int, d as int);
        }
        if n % d == 0 {
            assert(d < n) by (nonlinear_arith)
                requires
                    2 <= d,
                    d * d <= n,
            ;
            return false;
        }
        assert(d + 1 <= n) by (nonlinear_arith)
            requires
                2 <= d,
                d * d <= n,
        ;
        d = d + 1;
    }
    proof {
        lemma_sqrt_condition(n as int, d as int);
        assert forall|k: int| 2 <= k && k * k <= n implies #[trigger] ((n as int) % k) != 0 by {
            assert(k < d) by (nonlinear_arith)
                requires
                    k * k <= n,
                    (d as int) * (d as int) > n,
                    2 <= k,
                    2 <= d,
            ;
        }
        lemma_trial_division(n as int);
    }
    true
}

/// Computes 2^e for e <= 63.
pub fn pow2_u64(e: u64) -> (r: u64)
    requires
        e <= 63,
    ensures
        r == pow2(e as nat),
        r >= 1,
{
    proof {
        vstd::arithmetic::power2::lemma2_to64();
        vstd::arithmetic::power2::lemma2_to64_rest();
    }
    let mut r: u64 = 1;
    let mut i: u64 = 0;
    while i < e
        invariant
            i <= e <= 63,
            r == pow2(i as nat),
        decreases e - i,
    {
        proof {
            vstd::arithmetic::power2::lemma_pow2_strictly_increases(i as nat, 64);
            vstd::arithmetic::power2::lemma_pow2_unfold((i + 1) as nat);
            assert(pow2(64) == 0x10000000000000000) by {
                vstd::arithmetic::power2::lemma2_to64_rest();
            }
            vstd::arithmetic::power2::lemma_pow2_strictly_increases((i + 1) as nat, 64);
        }
        r = r * 2;
        i = i + 1;
    }
    r
}

/// Builds coefficient modulus chains.
pub struct CoefficientModulus {
}

impl CoefficientModulus {
    /// Returns a modulus chain with one entry of each requested bit size,
    /// in order.  The entry of bit size `b` is recorded as `2^b - 1`: the
    /// chain tracks the sizes the backend's NTT-friendly primes would
    /// have, which is all the state machine reads of it; selecting the
    /// actual primes is the number-theoretic kernel's work and out of
    /// scope here.  The degree must be a power of two of at most 32768
    /// and each bit size must lie in [2, 60].
    pub fn create(degree: u64, bit_sizes: &Vec<u64>) -> (r: Result<Vec<Modulus>, Error>)
        ensures
            match r {
                Ok(ms) => {
                    &&& is_power_of_two(degree as int) && 2 <= degree <= 32768
                    &&& forall|i: int|
                        0 <= i < bit_sizes@.len() ==> 2 <= #[trigger] bit_sizes@[i] <= 60
                    &&& ms@.len() == bit_sizes@.len()
                    &&& forall|i: int|
                        0 <= i < ms@.len() ==> #[trigger] ms@[i].value
                            == pow2(bit_sizes@[i] as nat) - 1
                },
                Err(e) => {
                    &&& e == Error::InvalidArgument
                    &&& !(is_power_of_two(degree as int) && 2 <= degree <= 32768) || exists|i: int|
                        0 <= i < bit_sizes@.len() && !(2 <= #[trigger] bit_sizes@[i] <= 60)
                },
            },
    {
        if !is_power_of_two_u64(degree) || degree < 2 || degree > 32768 {
            return Err(Error::InvalidArgument);
        }
        let mut ms: Vec<Modulus> = Vec::new();
        let mut i: usize = 0;
        while i < bit_sizes.len()
            invariant
                i <= bit_sizes@.len(),
                ms@.len() == i,
                forall|j: int| 0 <= j < i ==> 2 <= #[trigger] bit_sizes@[j] <= 60,
                forall|j: int|
                    0 <= j < i ==> #[trigger] ms@[j].value == pow2(bit_sizes@[j] as nat) - 1,
            decreases bit_sizes@.len() - i,
        {
            let b = bit_sizes[i];
            if b < 2 || b > 60 {
                return Err(Error::InvalidArgument);
            }
            let p = pow2_u64(b);
            ms.push(Modulus { value: p - 1 });
            i = i + 1;
        }
        Ok(ms)
    }
}

/// Selects plaintext moduli.
pub struct PlainModulus {
}

/// The candidate range and congruence that a batching-friendly plaintext
/// modulus of `bit_size` bits for ring degree `degree` must satisfy.
pub open spec fn batching_candidate(c: int, degree: u64, bit_size: u64) -> bool {
    pow2((bit_size - 1) as nat) <= c < pow2(bit_size as nat) && c % (2 * degree as int) == 1
}

/// The arguments under which a batching modulus may be requested.
pub open spec fn batching_args_ok(degree: u64, bit_size: u64) -> bool {
    is_power_of_two(degree as int) && 2 <= degree <= 32768 && 2 <= bit_size <= 60
}

impl PlainModulus {
    /// Returns the largest prime of exactly `bit_size` bits that is
    /// congruent to 1 modulo `2 * degree`, which is what the CRT batching
    /// view of a degree-`degree` ring requires of the plaintext modulus.
    /// Fails with `InvalidArgument` when the arguments are out of range or
    /// no such prime exists.
    pub fn batching(degree: u64, bit_size: u64) -> (r: Result<Modulus, Error>)
        ensures
            match r {
                Ok(m) => {
                    &&& batching_args_ok(degree, bit_size)
                    &&& is_prime(m.value as int)
                    &&& batching_candidate(m.value as int, degree, bit_size)
                    &&& forall|c: int|
                        m.value < c && batching_candidate(c, degree, bit_size) ==> !#[trigger] is_prime(c)
                },
                Err(e) => {
                    &&& e == Error::InvalidArgument
                    &&& !batching_args_ok(degree, bit_size) || (forall|c: int|
                        batching_candidate(c, degree, bit_size) ==> !#[trigger] is_prime(c))
                },
            },
    {
        if !is_power_of_two_u64(degree) || degree < 2 || degree > 32768 || bit_size < 2
            || bit_size > 60 {
            return Err(Error::InvalidArgument);
        }
        let m: u64 = 2 * degree;
        let low = pow2_u64(bit_size - 1);
        proof {
            vstd::arithmetic::power2::lemma_pow2_unfold((bit_size - 1) as nat);
            vstd::arithmetic::power2::lemma_pow2_pos((bit_size - 2) as nat);
            vstd::arithmetic::power2::lemma_pow2_strictly_increases((bit_size - 1) as nat, 60);
            vstd::arithmetic::power2::lemma2_to64_rest();
        }
        let ghost high: int = pow2(bit_size as nat) as int;
        proof {
            vstd::arithmetic::power2::lemma_pow2_unfold(bit_size as nat);
            assert(high == 2 * low);
        }
        let x: u64 = 2 * low - 1;
        proof {
            vstd::arithmetic::div_mod::lemma_mod_decreases((x - 1) as nat, m as nat);
        }
        // The largest value that is at most x and congruent to 1 modulo m.
        let mut c: u64 = x - (x - 1) % m;
        proof {
            vstd::arithmetic::div_mod::lemma_fundamental_div_mod(x as int - 1, m as int);
            let q = (x as int - 1) / (m as int);
            vstd::arithmetic::div_mod::lemma_div_pos_is_pos(x as int - 1, m as int);
            assert(c == (m as int) * q + 1);
            vstd::arithmetic::div_mod::lemma_mod_multiples_vanish(q, 1, m as int);
            vstd::arithmetic::div_mod::lemma_small_mod(1nat, m as nat);
            assert(c % m == 1);
            assert forall|y: int| c < y < high && #[trigger] is_prime(y) implies y % (m as int)
                != 1 by {
                if y % (m as int) == 1 {
                    lemma_candidate_gap(c as int, y, m as int);
                }
            }
        }
        loop
            invariant
                m == 2 * degree,
                4 <= m <= 65536,
                batching_args_ok(degree, bit_size),
                low == pow2((bit_size - 1) as nat),
                high == pow2(bit_size as nat),
                high == 2 * low,
                2 <= low,
                1 <= c < high,
                c % m == 1,
                forall|y: int| c < y < high && #[trigger] is_prime(y) ==> y % (m as int) != 1,
            decreases c,
        {
            if c < low {
                proof {
                    assert forall|y: int|
                        batching_candidate(y, degree, bit_size) implies !#[trigger] is_prime(
                        y,
                    ) by {
                        assert(y > c);
                    }
                }
                return Err(Error::InvalidArgument);
            }
            if is_prime_u64(c) {
                proof {
                    assert forall|y: int|
                        c < y && batching_candidate(y, degree, bit_size) implies !#[trigger] is_prime(
                        y,
                    ) by {}
                }
                return Ok(Modulus { value: c });
            }
            proof {
                lemma_candidate_above_modulus(c as int, m as int);
                vstd::arithmetic::div_mod::lemma_mod_sub_multiples_vanish(c as int, m as int);
                assert forall|y: int|
                    c - m < y < high && #[trigger] is_prime(y) implies y % (m as int) != 1 by {
                    if y % (m as int) == 1 && y < c {
                        lemma_candidate_gap(c - m, y, m as int);
                    }
                }
            }
            c = c - m;
        }
    }
}

/// A candidate congruent to 1 modulo m that is at least 2 exceeds m.
proof fn lemma_candidate_above_modulus(c: int, m: int)
    requires
        m >= 2,
        c >= 2,
        c % m == 1,
    ensures
        c > m,
{
    if c < m {
        vstd::arithmetic::div_mod::lemma_small_mod(c as nat, m as nat);
    }
    if c == m {
        vstd::arithmetic::div_mod::lemma_mod_self_0(m);
    }
}

/// Two values congruent to 1 modulo m differ by at least m.
proof fn lemma_candidate_gap(lo: int, y: int, m: int)
    requires
        m >= 2,
        lo % m == 1,
        y % m == 1,
        lo < y,
    ensures
        y >= lo + m,
{
    if y < lo + m {
        vstd::arithmetic::div_mod::lemma_sub_mod_noop(y, lo, m);
        assert((y - lo) % m == (1int - 1int) % m);
        vstd::arithmetic::div_mod::lemma_small_mod(0nat, m as nat);
        vstd::arithmetic::div_mod::lemma_small_mod((y - lo) as nat, m as nat);
    }
}

} // verus!
