//! Modular exponentiation, primality and primitive-root tests.

use vstd::prelude::*;
use vstd::arithmetic::power::*;
use vstd::arithmetic::div_mod::*;
use vstd::arithmetic::mul::*;

verus! {

/// `b^e mod m`, the value that `mod_pow` computes.
pub open spec fn mod_pow_spec(b: int, e: nat, m: int) -> int {
    pow(b, e) % m
}

proof fn lemma_square_step(r: int, b: int, e: nat, m: int)
    requires
        m > 0,
    ensures
        (r * pow(b, e)) % m == ((if e % 2 == 1 { (r * b) % m } else { r }) * pow((b * b) % m, e / 2)) % m,
{
    let k = e / 2;
    assert(e == 2 * k + e % 2);
    lemma_pow_adds(b, 2 * k, e % 2);
    lemma_pow_multiplies(b, 2, k);
    lemma_square_is_pow2(b);
    lemma_pow_mod_noop(b * b, k, m);
    let p = pow(b * b, k);
    let q = pow((b * b) % m, k);
    assert(q % m == p % m);
    if e % 2 == 1 {
        lemma_pow1(b);
        assert(pow(b, e % 2) == b);
        assert(pow(b, e) == p * b) by {
            lemma_mul_is_commutative(p, b);
        }
        // (r * (p * b)) % m == ((r*b)%m * q) % m
        assert(r * (p * b) == (r * b) * p) by (nonlinear_arith);
        lemma_mul_mod_noop_general(r * b, p, m);
        lemma_mul_mod_noop_general(r * b, q, m);
    } else {
        lemma_pow0(b);
        assert(pow(b, e % 2) == 1);
        assert(pow(b, e) == p);
        lemma_mul_mod_noop_general(r, p, m);
        lemma_mul_mod_noop_general(r, q, m);
    }
}

/// Square-and-multiply modular exponentiation: `base^exponent mod modulus`.
/// The exponent is 128 bits wide so that a proof-of-knowledge response
/// `n1 + n2 * s` of two 64-bit factors never has to wrap.
pub fn mod_pow(base: u64, exponent: u128, modulus: u64) -> (r: u64)
    requires
        modulus > 0,
    ensures
        r == mod_pow_spec(base as int, exponent as nat, modulus as int),
        r < modulus,
{
    let m = modulus as u128;
    let mut result: u128 = 1 % m;
    let mut b: u128 = (base as u128) % m;
    let mut e: u128 = exponent;
    proof {
        lemma_pow_mod_noop(base as int, exponent as nat, m as int);
        lemma_mul_mod_noop_general(1, pow(b as int, e as nat), m as int);
    }
    while e > 0
        invariant
            m == modulus as u128,
            m > 0,
            result < m,
            b < m,
            (result * pow(b as int, e as nat)) % (m as int) == pow(base as int, exponent as nat) % (m as int),
        decreases e,
    {
        proof {
            lemma_square_step(result as int, b as int, e as nat, m as int);
            assert(result * b < 0x1_0000_0000_0000_0000_0000_0000_0000_0000) by (nonlinear_arith)
                requires result < m, b < m, m <= 0x1_0000_0000_0000_0000;
            assert(b * b < 0x1_0000_0000_0000_0000_0000_0000_0000_0000) by (nonlinear_arith)
                requires b < m, m <= 0x1_0000_0000_0000_0000;
        }
        if e % 2 == 1 {
            result = (result * b) % m;
        }
        e = e / 2;
        b = (b * b) % m;
    }
    proof {
        lemma_pow0(b as int);
        assert(result * 1 == result);
        lemma_small_mod(result as nat, m as nat);
    }
    result as u64
}

/// `mod_pow` with a zero exponent yields one for every modulus above one.
pub proof fn lemma_mod_pow_zero_exponent(b: int, m: int)
    requires
        m > 1,
    ensures
        mod_pow_spec(b, 0, m) == 1,
{
    lemma_pow0(b);
    lemma_small_mod(1, m as nat);
}

/// Modulo one every power is zero.
pub proof fn lemma_mod_pow_unit_modulus(b: int, e: nat)
    ensures
        mod_pow_spec(b, e, 1) == 0,
{
}

/// Reducing the base first does not change the result:
/// `b^e mod m == (b mod m)^e mod m`.
pub proof fn lemma_mod_pow_reduced_base(b: int, e: nat, m: int)
    requires
        m > 0,
    ensures
        mod_pow_spec(b, e, m) == mod_pow_spec(b % m, e, m),
{
    lemma_pow_mod_noop(b, e, m);
}

/// `n` is prime: at least two, and no number strictly between one and `n`
/// divides it.
pub open spec fn is_prime_spec(n: int) -> bool {
    n >= 2 && forall|d: int| 2 <= d < n ==> #[trigger] (n % d) != 0
}

/// `g^((p-1)/q) mod p != 1` for every prime divisor `q` of `p - 1`; for a
/// prime `p` and `0 < g < p` this says that `g` generates the multiplicative
/// group modulo `p`.
pub open spec fn is_primitive_root_spec(g: int, p: int) -> bool {
    forall|q: int|
        #[trigger] is_prime_spec(q) && (p - 1) % q == 0 ==> mod_pow_spec(g, ((p - 1) / q) as nat, p) != 1
}

/// The group parameters are sound: a prime modulus and a generator of its
/// multiplicative group.
pub open spec fn valid_group(modulus: int, generator: int) -> bool {
    is_prime_spec(modulus) && 0 < generator < modulus && is_primitive_root_spec(generator, modulus)
}

proof fn lemma_divides_transitive(n: int, d: int, f: int)
    requires
        d > 0,
        f > 0,
        n % d == 0,
        d % f == 0,
    ensures
        n % f == 0,
{
    lemma_fundamental_div_mod(n, d);
    lemma_fundamental_div_mod(d, f);
    let k = (d / f) * (n / d);
    assert(n == k * f) by (nonlinear_arith)
        requires n == d * (n / d), d == f * (d / f), k == (d / f) * (n / d);
    lemma_mod_multiples_basic(k, f);
}

/// The cofactor of a divisor at or above `i` lies below `i` once `i * i > m`.
proof fn lemma_cofactor_small(m: int, q: int, i: int)
    requires
        m >= 1,
        q >= i,
        i >= 1,
        i * i > m,
        m % q == 0,
    ensures
        m / q < i,
        (m / q) * q == m,
{
    lemma_fundamental_div_mod(m, q);
    let c = m / q;
    lemma_mul_is_commutative(q, c);
    assert(c * q == m);
    assert(c < i) by (nonlinear_arith)
        requires c * q == m, q >= i, i >= 1, i * i > m;
}

proof fn lemma_no_small_divisor(n: int, i: int)
    requires
        n >= 2,
        i >= 2,
        i * i > n,
        forall|d: int| 2 <= d < i ==> #[trigger] (n % d) != 0,
    ensures
        is_prime_spec(n),
{
    assert forall|d: int| 2 <= d < n implies #[trigger] (n % d) != 0 by {
        if d >= i && n % d == 0 {
            lemma_cofactor_small(n, d, i);
            let c = n / d;
            assert(c >= 2) by (nonlinear_arith)
                requires c * d == n, d < n, d >= 2;
            lemma_mod_multiples_basic(d, c);
            assert(d * c == n) by (nonlinear_arith)
                requires c * d == n;
            assert(n % c == 0);
        }
    }
}

/// Whether `i * i <= n`, computed without overflow.
fn square_at_most(i: u64, n: u64) -> (r: bool)
    ensures
        r == ((i as int) * (i as int) <= n as int),
{
    let w = i as u128;
    assert(w * w <= 0xffff_ffff_ffff_ffff * 0xffff_ffff_ffff_ffffint) by (nonlinear_arith)
        requires w <= 0xffff_ffff_ffff_ffff;
    w * w <= n as u128
}

/// Primality by trial division over `6k - 1` and `6k + 1`.
pub fn is_prime(n: u64) -> (r: bool)
    ensures
        r == is_prime_spec(n as int),
{
    if n <= 1 {
        return false;
    }
    if n <= 3 {
        assert(n == 3 ==> 3int % 2 != 0);
        return true;
    }
    if n % 2 == 0 || n % 3 == 0 {
        return false;
    }
    let mut i: u64 = 5;
    proof {
        if n % 4 == 0 {
            lemma_divides_transitive(n as int, 4, 2);
        }
    }
    while square_at_most(i, n)
        invariant
            n > 3,
            5 <= i <= n + 6,
            i % 6 == 5,
            n % 2 != 0,
            n % 3 != 0,
            forall|d: int| 2 <= d < i ==> #[trigger] ((n as int) % d) != 0,
        decreases n + 6 - i,
    {
        assert(i + 2 < n) by (nonlinear_arith)
            requires i * i <= n, i >= 5;
        if n % i == 0 || n % (i + 2) == 0 {
            return false;
        }
        proof {
            assert forall|d: int| 2 <= d < i + 6 implies #[trigger] ((n as int) % d) != 0 by {
                if d >= i && d != i && d != i + 2 && (n as int) % d == 0 {
                    if d == i + 4 {
                        lemma_divides_transitive(n as int, d, 3);
                    } else {
                        lemma_divides_transitive(n as int, d, 2);
                    }
                }
            }
        }
        i = i + 6;
    }
    proof {
        lemma_no_small_divisor(n as int, i as int);
    }
    true
}

/// Whether `g` passes the primitive-root test modulo `p`: the prime divisors
/// of `p - 1` are found in pairs `(i, (p-1)/i)` with `i * i <= p - 1`.
pub fn is_generator(g: u64, p: u64) -> (r: bool)
    requires
        p >= 2,
    ensures
        r == is_primitive_root_spec(g as int, p as int),
{
    let m: u64 = p - 1;
    let mut i: u64 = 1;
    proof {
        assert forall|q: int| #[trigger] is_prime_spec(q) && (m as int) % q == 0 implies (m as int) / q >= 1 by {
            lemma_fundamental_div_mod(m as int, q);
        }
    }
    while square_at_most(i, m)
        invariant
            m == p - 1,
            m >= 1,
            1 <= i <= m + 1,
            forall|q: int|
                #[trigger] is_prime_spec(q) && (m as int) % q == 0 && (q < i || (m as int) / q < i)
                    ==> mod_pow_spec(g as int, ((m as int) / q) as nat, p as int) != 1,
        decreases m + 1 - i,
    {
        assert(i <= m) by (nonlinear_arith)
            requires i * i <= m, i >= 1;
        if m % i == 0 {
            let c: u64 = m / i;
            proof {
                lemma_fundamental_div_mod(m as int, i as int);
            }
            if is_prime(i) && mod_pow(g, (m / i) as u128, p) == 1 {
                return false;
            }
            if is_prime(c) {
                proof {
                    lemma_mod_multiples_basic(i as int, c as int);
                    assert(c * i == m) by (nonlinear_arith)
                        requires m == i * c;
                    assert(m / c == i) by {
                        lemma_fundamental_div_mod(m as int, c as int);
                        lemma_div_multiples_vanish(i as int, c as int);
                        assert(c * i == m) by (nonlinear_arith)
                            requires m == i * c;
                    }
                }
                if mod_pow(g, i as u128, p) == 1 {
                    return false;
                }
            }
        }
        proof {
            assert forall|q: int|
                #[trigger] is_prime_spec(q) && (m as int) % q == 0 && (q < i + 1 || (m as int) / q < i + 1)
                implies mod_pow_spec(g as int, ((m as int) / q) as nat, p as int) != 1 by {
                if !(q < i || (m as int) / q < i) {
                    let mi = m as int;
                    let ii = i as int;
                    if mi / q == ii && q != ii {
                        lemma_fundamental_div_mod(mi, q);
                        assert(q * ii == mi) by (nonlinear_arith)
                            requires mi == q * (mi / q), mi / q == ii;
                        lemma_mod_multiples_basic(q, ii);
                        lemma_div_multiples_vanish(q, ii);
                        assert(ii * q == mi) by (nonlinear_arith)
                            requires q * ii == mi;
                    }
                }
            }
        }
        i = i + 1;
    }
    proof {
        assert forall|q: int|
            #[trigger] is_prime_spec(q) && (m as int) % q == 0
            implies mod_pow_spec(g as int, ((m as int) / q) as nat, p as int) != 1 by {
            if q >= i {
                lemma_cofactor_small(m as int, q, i as int);
            }
        }
    }
    true
}

} // verus!
