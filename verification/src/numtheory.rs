//! Greatest common divisors and the facts about them that exact fractions
//! in lowest terms depend on.
use vstd::arithmetic::div_mod::{lemma_fundamental_div_mod, lemma_mod_multiples_basic};
use vstd::arithmetic::mul::lemma_mul_is_commutative;
use vstd::prelude::*;

verus! {

/// The greatest common divisor of two naturals, by Euclid's recursion.
/// `gcd(0, 0)` is `0`.
pub open spec fn gcd(a: nat, b: nat) -> nat
    decreases b,
{
    if b == 0 {
        a
    } else {
        gcd(b, a % b)
    }
}

/// The positive number `k` divides `n`.
pub open spec fn divides(k: int, n: int) -> bool {
    k > 0 && n % k == 0
}

/// The absolute value of an integer.
pub open spec fn abs(n: int) -> nat {
    if n < 0 {
        (-n) as nat
    } else {
        n as nat
    }
}

/// First coefficient of Bezout's identity for `a` and `b`.
pub open spec fn bezout_x(a: nat, b: nat) -> int
    decreases b,
{
    if b == 0 {
        1
    } else {
        bezout_y(b, a % b)
    }
}

/// Second coefficient of Bezout's identity for `a` and `b`.
pub open spec fn bezout_y(a: nat, b: nat) -> int
    decreases b,
{
    if b == 0 {
        0
    } else {
        bezout_x(b, a % b) - (a / b) * bezout_y(b, a % b)
    }
}

/// A number divisible by `k` is `k` times its quotient.
pub proof fn lemma_divides_quotient(k: int, n: int)
    requires
        k > 0,
    ensures
        divides(k, n) <==> n == k * (n / k),
{
    lemma_fundamental_div_mod(n, k);
    if n == k * (n / k) {
        lemma_multiple_divides(k, n / k);
    }
}

/// A multiple of `k` is divisible by `k`, with the other factor as quotient.
pub proof fn lemma_multiple_divides(k: int, m: int)
    requires
        k > 0,
    ensures
        divides(k, k * m),
        (k * m) / k == m,
{
    let n = k * m;
    lemma_mul_is_commutative(k, m);
    lemma_mod_multiples_basic(m, k);
    lemma_fundamental_div_mod(n, k);
    assert(n / k == m) by (nonlinear_arith)
        requires
            k * (n / k) == k * m,
            k > 0,
    ;
}

/// Bezout's identity: the gcd is an integer combination of its arguments.
pub proof fn lemma_bezout(a: nat, b: nat)
    ensures
        a * bezout_x(a, b) + b * bezout_y(a, b) == gcd(a, b),
    decreases b,
{
    if b != 0 {
        let r: nat = a % b;
        let q: int = a as int / b as int;
        lemma_bezout(b, r);
        lemma_fundamental_div_mod(a as int, b as int);
        let x1 = bezout_x(b, r);
        let y1 = bezout_y(b, r);
        assert(a * y1 + b * (x1 - q * y1) == b * x1 + r * y1) by (nonlinear_arith)
            requires
                a == b * q + r,
        ;
    }
}

/// The gcd divides both of its arguments, and is positive unless both are 0.
pub proof fn lemma_gcd_divides(a: nat, b: nat)
    ensures
        a > 0 || b > 0 ==> gcd(a, b) > 0,
        gcd(a, b) > 0 ==> divides(gcd(a, b) as int, a as int),
        gcd(a, b) > 0 ==> divides(gcd(a, b) as int, b as int),
        a == 0 && b == 0 ==> gcd(a, b) == 0,
    decreases b,
{
    if b != 0 {
        let r: nat = a % b;
        lemma_gcd_divides(b, r);
        let g = gcd(a, b) as int;
        lemma_fundamental_div_mod(a as int, b as int);
        lemma_divides_quotient(g, b as int);
        lemma_divides_quotient(g, r as int);
        let q: int = a as int / b as int;
        let kb: int = b as int / g;
        let kr: int = r as int / g;
        assert(a == g * (kb * q + kr)) by (nonlinear_arith)
            requires
                a == b * q + r,
                b == g * kb,
                r == g * kr,
        ;
        lemma_multiple_divides(g, kb * q + kr);
    } else if a > 0 {
        lemma_multiple_divides(a as int, 1);
        lemma_multiple_divides(a as int, 0);
    }
}

/// Every common divisor of `a` and `b` divides their gcd.
pub proof fn lemma_common_divisor(k: int, a: nat, b: nat)
    requires
        k > 0,
        divides(k, a as int),
        divides(k, b as int),
    ensures
        divides(k, gcd(a, b) as int),
{
    lemma_bezout(a, b);
    lemma_divides_quotient(k, a as int);
    lemma_divides_quotient(k, b as int);
    let x = bezout_x(a, b);
    let y = bezout_y(a, b);
    let ka: int = a as int / k;
    let kb: int = b as int / k;
    assert(a * x + b * y == k * (ka * x + kb * y)) by (nonlinear_arith)
        requires
            a == k * ka,
            b == k * kb,
    ;
    lemma_multiple_divides(k, ka * x + kb * y);
}

/// Dividing two numbers by their gcd leaves them coprime.
pub proof fn lemma_reduced_is_coprime(a: nat, b: nat)
    requires
        a > 0 || b > 0,
    ensures
        gcd(a, b) > 0,
        gcd(a / gcd(a, b), b / gcd(a, b)) == 1,
{
    lemma_gcd_divides(a, b);
    let g = gcd(a, b) as int;
    let a1: nat = a / (g as nat);
    let b1: nat = b / (g as nat);
    lemma_divides_quotient(g, a as int);
    lemma_divides_quotient(g, b as int);
    lemma_gcd_divides(a1, b1);
    let h = gcd(a1, b1) as int;
    lemma_divides_quotient(h, a1 as int);
    lemma_divides_quotient(h, b1 as int);
    let a2: int = a1 as int / h;
    let b2: int = b1 as int / h;
    assert(a == (h * g) * a2) by (nonlinear_arith)
        requires
            a == g * a1,
            a1 == h * a2,
    ;
    assert(b == (h * g) * b2) by (nonlinear_arith)
        requires
            b == g * b1,
            b1 == h * b2,
    ;
    lemma_multiple_divides(h * g, a2);
    lemma_multiple_divides(h * g, b2);
    lemma_common_divisor(h * g, a, b);
    lemma_divides_quotient(h * g, g);
    let m: int = g / (h * g);
    assert(h == 1) by (nonlinear_arith)
        requires
            g == (h * g) * m,
            h > 0,
            g > 0,
    ;
}

/// Gauss's lemma: a number coprime to `p` that divides `p * m` divides `m`.
pub proof fn lemma_coprime_divides(q: nat, p: nat, m: int)
    requires
        q > 0,
        gcd(q, p) == 1,
        divides(q as int, p * m),
    ensures
        divides(q as int, m),
{
    lemma_bezout(q, p);
    let x = bezout_x(q, p);
    let y = bezout_y(q, p);
    lemma_divides_quotient(q as int, p * m);
    let k: int = (p * m) / (q as int);
    assert(m == q * (x * m + k * y)) by (nonlinear_arith)
        requires
            q * x + p * y == 1,
            p * m == q * k,
    ;
    lemma_multiple_divides(q as int, x * m + k * y);
}

/// Two positive numbers that divide each other are equal.
pub proof fn lemma_divides_antisymmetric(a: int, b: int)
    requires
        a > 0,
        b > 0,
        divides(a, b),
        divides(b, a),
    ensures
        a == b,
{
    lemma_divides_quotient(a, b);
    lemma_divides_quotient(b, a);
    let k: int = b / a;
    let l: int = a / b;
    assert(a == b) by (nonlinear_arith)
        requires
            b == a * k,
            a == b * l,
            a > 0,
            b > 0,
    ;
}

/// If `k` divides `n` it divides `-n` and `|n|`.
pub proof fn lemma_divides_abs(k: int, n: int)
    requires
        k > 0,
    ensures
        divides(k, n) <==> divides(k, abs(n) as int),
{
    lemma_divides_quotient(k, n);
    lemma_divides_quotient(k, -n);
    if divides(k, n) {
        let m: int = n / k;
        assert(-n == k * (-m)) by (nonlinear_arith)
            requires
                n == k * m,
        ;
        lemma_multiple_divides(k, -m);
    }
    if divides(k, -n) {
        let m: int = (-n) / k;
        assert(n == k * (-m)) by (nonlinear_arith)
            requires
                -n == k * m,
        ;
        lemma_multiple_divides(k, -m);
    }
}

} // verus!
