//! Exact rational numbers in lowest terms.
//!
//! [`Ratio`] is the mathematical model: a fraction of two unbounded
//! integers. [`Rational`] is the machine value, whose numerator and
//! denominator are `isize`; its arithmetic is checked, and says exactly when
//! the exact result can be held.
use crate::numtheory::{
    abs, divides, gcd, lemma_coprime_divides, lemma_divides_abs, lemma_divides_antisymmetric,
    lemma_divides_quotient, lemma_gcd_divides, lemma_multiple_divides, lemma_reduced_is_coprime,
};
use vstd::arithmetic::div_mod::lemma_fundamental_div_mod;
use vstd::prelude::*;

verus! {

/// A fraction `num / den` of mathematical integers.
pub struct Ratio {
    pub num: int,
    pub den: int,
}

/// Rounds the quotient `n / d` toward zero (`d > 0`).
pub open spec fn trunc_div(n: int, d: int) -> int {
    if n >= 0 {
        n / d
    } else {
        -((-n) / d)
    }
}

/// The remainder that goes with [`trunc_div`]: it has the sign of `n`.
pub open spec fn trunc_rem(n: int, d: int) -> int {
    n - d * trunc_div(n, d)
}

impl Ratio {
    /// In lowest terms, with a positive denominator.
    pub open spec fn wf(self) -> bool {
        self.den > 0 && gcd(abs(self.num), self.den as nat) == 1
    }

    /// Both parts can be held in an `isize`.
    pub open spec fn fits(self) -> bool {
        isize::MIN <= self.num <= isize::MAX && isize::MIN <= self.den <= isize::MAX
    }

    /// The fraction `n / d` in lowest terms, for `d > 0`.
    pub open spec fn reduce(n: int, d: int) -> Ratio
        recommends
            d > 0,
    {
        let g = gcd(abs(n), d as nat) as int;
        Ratio { num: n / g, den: d / g }
    }

    /// The fraction `n / d` in lowest terms, for `d != 0`.
    pub open spec fn of(n: int, d: int) -> Ratio
        recommends
            d != 0,
    {
        if d > 0 {
            Ratio::reduce(n, d)
        } else {
            Ratio::reduce(-n, -d)
        }
    }

    /// The whole number `n`.
    pub open spec fn from_int(n: int) -> Ratio {
        Ratio { num: n, den: 1 }
    }

    /// Two fractions denote the same number.
    pub open spec fn same(self, other: Ratio) -> bool {
        self.num * other.den == other.num * self.den
    }

    /// The sum, in lowest terms.
    pub open spec fn add(self, other: Ratio) -> Ratio {
        Ratio::reduce(self.num * other.den + other.num * self.den, self.den * other.den)
    }

    /// The difference, in lowest terms.
    pub open spec fn sub(self, other: Ratio) -> Ratio {
        Ratio::reduce(self.num * other.den - other.num * self.den, self.den * other.den)
    }

    /// The product, in lowest terms.
    pub open spec fn mul(self, other: Ratio) -> Ratio {
        Ratio::reduce(self.num * other.num, self.den * other.den)
    }

    /// The quotient, for a divisor other than zero.
    pub open spec fn div(self, other: Ratio) -> Ratio
        recommends
            other.num != 0,
    {
        Ratio::of(self.num * other.den, self.den * other.num)
    }

    /// The remainder of the division rounded toward zero, for a divisor
    /// other than zero: `self - other * trunc(self / other)`.
    pub open spec fn rem(self, other: Ratio) -> Ratio
        recommends
            other.num != 0,
    {
        Ratio::reduce(
            trunc_rem(self.num * other.den, abs(other.num * self.den) as int),
            self.den * other.den,
        )
    }

    /// The number with the opposite sign.
    pub open spec fn neg(self) -> Ratio {
        Ratio { num: -self.num, den: self.den }
    }

    /// Whether the number is smaller than `other`, for positive
    /// denominators.
    pub open spec fn lt(self, other: Ratio) -> bool {
        self.num * other.den < other.num * self.den
    }

    /// Whether the number is at most `other`, for positive denominators.
    pub open spec fn le(self, other: Ratio) -> bool {
        self.num * other.den <= other.num * self.den
    }

    /// Whether a fraction in lowest terms is a whole number.
    pub open spec fn is_integer(self) -> bool {
        self.den == 1
    }

    /// The integer part: the value rounded toward zero.
    pub open spec fn trunc(self) -> int {
        trunc_div(self.num, self.den)
    }

    /// The nearest integer; a value half way between two integers goes away
    /// from zero.
    pub open spec fn round(self) -> int {
        if self.num >= 0 {
            (2 * self.num + self.den) / (2 * self.den)
        } else {
            -((2 * (-self.num) + self.den) / (2 * self.den))
        }
    }
}

/// `reduce` gives a fraction in lowest terms that denotes the same number.
pub proof fn lemma_reduce(n: int, d: int)
    requires
        d > 0,
    ensures
        Ratio::reduce(n, d).wf(),
        Ratio::reduce(n, d).same(Ratio { num: n, den: d }),
        gcd(abs(n), d as nat) > 0,
        n == gcd(abs(n), d as nat) * Ratio::reduce(n, d).num,
        d == gcd(abs(n), d as nat) * Ratio::reduce(n, d).den,
        abs(Ratio::reduce(n, d).num) == abs(n) / gcd(abs(n), d as nat),
{
    let a = abs(n);
    let b = d as nat;
    lemma_reduced_is_coprime(a, b);
    lemma_gcd_divides(a, b);
    let g = gcd(a, b) as int;
    lemma_divides_abs(g, n);
    lemma_divides_quotient(g, n);
    lemma_divides_quotient(g, d);
    lemma_divides_quotient(g, a as int);
    let n1 = n / g;
    let d1 = d / g;
    if n < 0 {
        assert(a == g * (-n1)) by (nonlinear_arith)
            requires
                n == g * n1,
                a == -n,
        ;
        lemma_multiple_divides(g, -n1);
    }
    assert(d1 > 0) by (nonlinear_arith)
        requires
            d == g * d1,
            g > 0,
            d > 0,
    ;
    assert(n1 * d == n * d1) by (nonlinear_arith)
        requires
            n == g * n1,
            d == g * d1,
    ;
}

/// Two fractions in lowest terms that denote the same number are the same
/// fraction.
pub proof fn lemma_lowest_terms_unique(a: Ratio, b: Ratio)
    requires
        a.wf(),
        b.wf(),
        a.same(b),
    ensures
        a == b,
{
    let p1 = abs(a.num);
    let p2 = abs(b.num);
    // a.den divides a.num * b.den, and is coprime to a.num
    lemma_multiple_divides(a.den, b.num);
    lemma_divides_abs(a.den, a.num * b.den);
    assert(abs(a.num * b.den) == p1 * b.den) by (nonlinear_arith)
        requires
            p1 == abs(a.num),
            b.den > 0,
    ;
    lemma_gcd_swap(p1, a.den as nat);
    lemma_coprime_divides(a.den as nat, p1, b.den);
    lemma_multiple_divides(b.den, a.num);
    lemma_divides_abs(b.den, b.num * a.den);
    assert(abs(b.num * a.den) == p2 * a.den) by (nonlinear_arith)
        requires
            p2 == abs(b.num),
            a.den > 0,
    ;
    lemma_gcd_swap(p2, b.den as nat);
    lemma_coprime_divides(b.den as nat, p2, a.den);
    lemma_divides_antisymmetric(a.den, b.den);
}

/// Coprimality does not depend on the order of the two numbers.
proof fn lemma_gcd_swap(a: nat, b: nat)
    requires
        b > 0,
        gcd(a, b) == 1,
    ensures
        gcd(b, a) == 1,
{
    lemma_gcd_divides(b, a);
    let h = gcd(b, a) as int;
    crate::numtheory::lemma_common_divisor(h, a, b);
    lemma_divides_quotient(h, 1);
    let m: int = 1int / h;
    assert(h == 1) by (nonlinear_arith)
        requires
            1 == h * m,
            h > 0,
    ;
}

/// Fractions that denote the same number reduce to the same fraction.
pub proof fn lemma_reduce_same(n1: int, d1: int, n2: int, d2: int)
    requires
        d1 > 0,
        d2 > 0,
        n1 * d2 == n2 * d1,
    ensures
        Ratio::reduce(n1, d1) == Ratio::reduce(n2, d2),
{
    lemma_reduce(n1, d1);
    lemma_reduce(n2, d2);
    let r1 = Ratio::reduce(n1, d1);
    let r2 = Ratio::reduce(n2, d2);
    let g1 = gcd(abs(n1), d1 as nat) as int;
    let g2 = gcd(abs(n2), d2 as nat) as int;
    assert((g1 * g2) * (r1.num * r2.den) == (g1 * g2) * (r2.num * r1.den)) by (nonlinear_arith)
        requires
            n1 * d2 == n2 * d1,
            n1 == g1 * r1.num,
            d1 == g1 * r1.den,
            n2 == g2 * r2.num,
            d2 == g2 * r2.den,
    ;
    assert(r1.num * r2.den == r2.num * r1.den) by (nonlinear_arith)
        requires
            (g1 * g2) * (r1.num * r2.den) == (g1 * g2) * (r2.num * r1.den),
            g1 > 0,
            g2 > 0,
    ;
    lemma_lowest_terms_unique(r1, r2);
}

/// The product of two positive numbers is positive.
proof fn lemma_positive_product(x: int, y: int)
    requires
        x > 0,
        y > 0,
    ensures
        x * y > 0,
{
    assert(x * y > 0) by (nonlinear_arith)
        requires
            x > 0,
            y > 0,
    ;
}

/// The product of two numbers of at most 64 bits takes at most 127 bits.
proof fn lemma_product_bound(x: int, y: int)
    requires
        -0x8000_0000_0000_0000 <= x <= 0x8000_0000_0000_0000,
        -0x8000_0000_0000_0000 <= y <= 0x8000_0000_0000_0000,
    ensures
        -0x4000_0000_0000_0000_0000_0000_0000_0000 <= x * y
            <= 0x4000_0000_0000_0000_0000_0000_0000_0000,
{
    assert(-0x4000_0000_0000_0000_0000_0000_0000_0000 <= x * y
        <= 0x4000_0000_0000_0000_0000_0000_0000_0000) by (nonlinear_arith)
        requires
            -0x8000_0000_0000_0000 <= x <= 0x8000_0000_0000_0000,
            -0x8000_0000_0000_0000 <= y <= 0x8000_0000_0000_0000,
    ;
}

/// An exact rational number: a fraction of two `isize` in lowest terms with
/// a positive denominator.
#[derive(Clone, Copy, Debug, PartialEq, Eq, Hash)]
pub struct Rational {
    numer: isize,
    denom: isize,
}

impl View for Rational {
    type V = Ratio;

    closed spec fn view(&self) -> Ratio {
        Ratio { num: self.numer as int, den: self.denom as int }
    }
}

/// The fraction, if a [`Rational`] can hold it.
pub open spec fn fit(q: Ratio) -> Option<Ratio> {
    if q.fits() {
        Some(q)
    } else {
        None
    }
}

/// The fraction that an optional [`Rational`] holds.
pub open spec fn held(r: Option<Rational>) -> Option<Ratio> {
    match r {
        Some(q) => Some(q@),
        None => None,
    }
}

/// `Ratio::new` of `num_rational`, on `i128`: the fraction in lowest terms
/// with a positive denominator. It panics on a zero denominator, and its
/// changes of sign need both parts above the least `i128`.
#[verifier::external_body]
fn ratio_new(n: i128, d: i128) -> (r: (i128, i128))
    requires
        d != 0,
        n > i128::MIN,
        d > i128::MIN,
    ensures
        (Ratio { num: r.0 as int, den: r.1 as int }) == Ratio::of(n as int, d as int),
{
    let q = num_rational::Ratio::<i128>::new(n, d);
    (*q.numer(), *q.denom())
}

/// `+` of `num_rational` on two fractions with positive denominators,
/// computed in `i128`, where parts of an `isize` cannot overflow: the sum in
/// lowest terms.
#[verifier::external_body]
fn ratio_add(an: isize, ad: isize, bn: isize, bd: isize) -> (r: (i128, i128))
    requires
        ad > 0,
        bd > 0,
    ensures
        (Ratio { num: r.0 as int, den: r.1 as int }) == (Ratio {
            num: an as int,
            den: ad as int,
        }).add(Ratio { num: bn as int, den: bd as int }),
{
    let x = num_rational::Ratio::<i128>::new_raw(an as i128, ad as i128);
    let y = num_rational::Ratio::<i128>::new_raw(bn as i128, bd as i128);
    let q = x + y;
    (*q.numer(), *q.denom())
}

/// `-` of `num_rational` on two fractions with positive denominators,
/// computed in `i128`: the difference in lowest terms.
#[verifier::external_body]
fn ratio_sub(an: isize, ad: isize, bn: isize, bd: isize) -> (r: (i128, i128))
    requires
        ad > 0,
        bd > 0,
    ensures
        (Ratio { num: r.0 as int, den: r.1 as int }) == (Ratio {
            num: an as int,
            den: ad as int,
        }).sub(Ratio { num: bn as int, den: bd as int }),
{
    let x = num_rational::Ratio::<i128>::new_raw(an as i128, ad as i128);
    let y = num_rational::Ratio::<i128>::new_raw(bn as i128, bd as i128);
    let q = x - y;
    (*q.numer(), *q.denom())
}

/// `*` of `num_rational` on two fractions with positive denominators,
/// computed in `i128`: the product in lowest terms.
#[verifier::external_body]
fn ratio_mul(an: isize, ad: isize, bn: isize, bd: isize) -> (r: (i128, i128))
    requires
        ad > 0,
        bd > 0,
    ensures
        (Ratio { num: r.0 as int, den: r.1 as int }) == (Ratio {
            num: an as int,
            den: ad as int,
        }).mul(Ratio { num: bn as int, den: bd as int }),
{
    let x = num_rational::Ratio::<i128>::new_raw(an as i128, ad as i128);
    let y = num_rational::Ratio::<i128>::new_raw(bn as i128, bd as i128);
    let q = x * y;
    (*q.numer(), *q.denom())
}

/// `/` of `num_rational` on two fractions with positive denominators,
/// computed in `i128`: the quotient in lowest terms with a positive
/// denominator. It panics on a divisor that is zero.
#[verifier::external_body]
fn ratio_div(an: isize, ad: isize, bn: isize, bd: isize) -> (r: (i128, i128))
    requires
        ad > 0,
        bd > 0,
        bn != 0,
    ensures
        (Ratio { num: r.0 as int, den: r.1 as int }) == (Ratio {
            num: an as int,
            den: ad as int,
        }).div(Ratio { num: bn as int, den: bd as int }),
{
    let x = num_rational::Ratio::<i128>::new_raw(an as i128, ad as i128);
    let y = num_rational::Ratio::<i128>::new_raw(bn as i128, bd as i128);
    let q = x / y;
    (*q.numer(), *q.denom())
}

/// `%` of `num_rational` on two fractions with positive denominators,
/// computed in `i128`: the remainder of the division rounded toward zero,
/// in lowest terms. It panics on a divisor that is zero.
#[verifier::external_body]
fn ratio_rem(an: isize, ad: isize, bn: isize, bd: isize) -> (r: (i128, i128))
    requires
        ad > 0,
        bd > 0,
        bn != 0,
    ensures
        (Ratio { num: r.0 as int, den: r.1 as int }) == (Ratio {
            num: an as int,
            den: ad as int,
        }).rem(Ratio { num: bn as int, den: bd as int }),
{
    let x = num_rational::Ratio::<i128>::new_raw(an as i128, ad as i128);
    let y = num_rational::Ratio::<i128>::new_raw(bn as i128, bd as i128);
    let q = x % y;
    (*q.numer(), *q.denom())
}

/// The fraction of two parts in lowest terms, where both fit.
fn fitting(n: i128, d: i128) -> (r: Option<Rational>)
    requires
        (Ratio { num: n as int, den: d as int }).wf(),
    ensures
        held(r) == fit(Ratio { num: n as int, den: d as int }),
{
    if d > isize::MAX as i128 || n > isize::MAX as i128 || n < isize::MIN as i128 {
        None
    } else {
        Some(Rational { numer: n as isize, denom: d as isize })
    }
}

/// The fraction `n / d` in lowest terms, where it fits.
pub(crate) fn lowest(n: i128, d: i128) -> (r: Option<Rational>)
    requires
        d > 0,
        n > i128::MIN,
    ensures
        held(r) == fit(Ratio::reduce(n as int, d as int)),
{
    proof {
        lemma_reduce(n as int, d as int);
    }
    let q = ratio_new(n, d);
    fitting(q.0, q.1)
}

impl Rational {
    /// Every value of the type is in lowest terms.
    #[verifier::type_invariant]
    pub open spec fn valid(self) -> bool {
        self@.wf() && self@.fits()
    }

    /// The fraction `numer / denom` in lowest terms. There is none with a
    /// zero denominator, and none where a part would leave `isize`.
    pub fn new(numer: isize, denom: isize) -> (r: Option<Rational>)
        ensures
            held(r) == if denom == 0 {
                None
            } else {
                fit(Ratio::of(numer as int, denom as int))
            },
    {
        if denom == 0 {
            None
        } else if denom > 0 {
            lowest(numer as i128, denom as i128)
        } else {
            lowest(-(numer as i128), -(denom as i128))
        }
    }

    /// The whole number `n`.
    pub fn from_integer(n: isize) -> (r: Rational)
        ensures
            r@ == Ratio::from_int(n as int),
    {
        assert(gcd(abs(n as int), 1) == 1) by {
            reveal_with_fuel(gcd, 3);
        }
        Rational { numer: n, denom: 1 }
    }

    /// The number zero.
    pub fn zero() -> (r: Rational)
        ensures
            r@ == Ratio::from_int(0),
    {
        Rational::from_integer(0)
    }

    /// The number one.
    pub fn one() -> (r: Rational)
        ensures
            r@ == Ratio::from_int(1),
    {
        Rational::from_integer(1)
    }

    /// The numerator of the fraction in lowest terms.
    pub fn numer(&self) -> (n: isize)
        ensures
            n == self@.num,
    {
        self.numer
    }

    /// The denominator of the fraction in lowest terms, which is positive.
    pub fn denom(&self) -> (d: isize)
        ensures
            d == self@.den,
            d > 0,
    {
        proof {
            use_type_invariant(self);
        }
        self.denom
    }

    /// Whether two values are the same fraction.
    pub fn same(&self, other: &Rational) -> (b: bool)
        ensures
            b == (self@ == other@),
    {
        self.numer == other.numer && self.denom == other.denom
    }

    /// Whether the number is zero.
    pub fn is_zero(&self) -> (b: bool)
        ensures
            b == (self@.num == 0),
    {
        self.numer == 0
    }

    /// Whether the number is below zero.
    pub fn is_negative(&self) -> (b: bool)
        ensures
            b == (self@.num < 0),
    {
        self.numer < 0
    }

    /// Whether the number is a whole number.
    pub fn is_integer(&self) -> (b: bool)
        ensures
            b == self@.is_integer(),
    {
        self.denom == 1
    }

    /// The integer part: the value rounded toward zero.
    pub fn to_integer(&self) -> (n: isize)
        ensures
            n == self@.trunc(),
    {
        proof {
            use_type_invariant(self);
        }
        let d: i128 = self.denom as i128;
        let n: i128 = self.numer as i128;
        if n >= 0 {
            let q: i128 = n / d;
            proof {
                vstd::arithmetic::div_mod::lemma_div_nonincreasing(n as int, d as int);
                vstd::arithmetic::div_mod::lemma_div_pos_is_pos(n as int, d as int);
            }
            q as isize
        } else {
            let q: i128 = (-n) / d;
            proof {
                vstd::arithmetic::div_mod::lemma_div_nonincreasing(-n as int, d as int);
                vstd::arithmetic::div_mod::lemma_div_pos_is_pos(-n as int, d as int);
            }
            (-q) as isize
        }
    }

    /// The nearest integer; a value half way between two integers goes away
    /// from zero.
    pub fn round(&self) -> (n: isize)
        ensures
            n == self@.round(),
    {
        proof {
            use_type_invariant(self);
        }
        let d: i128 = self.denom as i128;
        let n: i128 = self.numer as i128;
        let m: i128 = if n >= 0 {
            n
        } else {
            -n
        };
        let q: i128 = (2 * m + d) / (2 * d);
        proof {
            lemma_fundamental_div_mod(2 * m + d, 2 * d);
            vstd::arithmetic::div_mod::lemma_div_pos_is_pos(2 * m + d, 2 * d);
            assert(q <= m) by (nonlinear_arith)
                requires
                    (2 * m + d) == (2 * d) * q + (2 * m + d) % (2 * d),
                    0 <= (2 * m + d) % (2 * d),
                    d >= 1,
                    m >= 0,
                    q >= 0,
            ;
        }
        if n >= 0 {
            q as isize
        } else {
            (-q) as isize
        }
    }

    /// The sum, if it fits.
    pub fn checked_add(&self, other: &Rational) -> (r: Option<Rational>)
        ensures
            held(r) == fit(self@.add(other@)),
    {
        proof {
            use_type_invariant(self);
            use_type_invariant(other);
            lemma_positive_product(self@.den, other@.den);
            lemma_reduce(self@.num * other@.den + other@.num * self@.den, self@.den * other@.den);
        }
        let q = ratio_add(self.numer, self.denom, other.numer, other.denom);
        fitting(q.0, q.1)
    }

    /// The difference, if it fits.
    pub fn checked_sub(&self, other: &Rational) -> (r: Option<Rational>)
        ensures
            held(r) == fit(self@.sub(other@)),
    {
        proof {
            use_type_invariant(self);
            use_type_invariant(other);
            lemma_positive_product(self@.den, other@.den);
            lemma_reduce(self@.num * other@.den - other@.num * self@.den, self@.den * other@.den);
        }
        let q = ratio_sub(self.numer, self.denom, other.numer, other.denom);
        fitting(q.0, q.1)
    }

    /// The product, if it fits.
    pub fn checked_mul(&self, other: &Rational) -> (r: Option<Rational>)
        ensures
            held(r) == fit(self@.mul(other@)),
    {
        proof {
            use_type_invariant(self);
            use_type_invariant(other);
            lemma_positive_product(self@.den, other@.den);
            lemma_reduce(self@.num * other@.num, self@.den * other@.den);
        }
        let q = ratio_mul(self.numer, self.denom, other.numer, other.denom);
        fitting(q.0, q.1)
    }

    /// The quotient, if the divisor is not zero and the quotient fits.
    pub fn checked_div(&self, other: &Rational) -> (r: Option<Rational>)
        ensures
            held(r) == if other@.num == 0 {
                None
            } else {
                fit(self@.div(other@))
            },
    {
        proof {
            use_type_invariant(self);
            use_type_invariant(other);
        }
        if other.numer == 0 {
            return None;
        }
        proof {
            let n = self@.num * other@.den;
            let d = self@.den * other@.num;
            if other@.num > 0 {
                lemma_positive_product(self@.den, other@.num);
                lemma_reduce(n, d);
            } else {
                lemma_positive_product(self@.den, -other@.num);
                assert(-d == self@.den * (-other@.num)) by (nonlinear_arith)
                    requires
                        d == self@.den * other@.num,
                ;
                lemma_reduce(-n, -d);
            }
        }
        let q = ratio_div(self.numer, self.denom, other.numer, other.denom);
        fitting(q.0, q.1)
    }

    /// The remainder of the division rounded toward zero, if the divisor is
    /// not zero and the remainder fits.
    pub fn checked_rem(&self, other: &Rational) -> (r: Option<Rational>)
        ensures
            held(r) == if other@.num == 0 {
                None
            } else {
                fit(self@.rem(other@))
            },
    {
        proof {
            use_type_invariant(self);
            use_type_invariant(other);
        }
        if other.numer == 0 {
            return None;
        }
        proof {
            lemma_positive_product(self@.den, other@.den);
            lemma_reduce(
                trunc_rem(self@.num * other@.den, abs(other@.num * self@.den) as int),
                self@.den * other@.den,
            );
        }
        let q = ratio_rem(self.numer, self.denom, other.numer, other.denom);
        fitting(q.0, q.1)
    }

    /// The value with the opposite sign, if it fits.
    pub fn checked_neg(&self) -> (r: Option<Rational>)
        ensures
            held(r) == fit(self@.neg()),
    {
        proof {
            use_type_invariant(self);
        }
        if self.numer == isize::MIN {
            None
        } else {
            Some(Rational { numer: -self.numer, denom: self.denom })
        }
    }

    /// Whether `self` is the smaller number.
    pub fn lt(&self, other: &Rational) -> (b: bool)
        ensures
            b == self@.lt(other@),
    {
        proof {
            use_type_invariant(self);
            use_type_invariant(other);
            lemma_product_bound(self.numer as int, other.denom as int);
            lemma_product_bound(other.numer as int, self.denom as int);
        }
        (self.numer as i128) * (other.denom as i128) < (other.numer as i128) * (
        self.denom as i128)
    }

    /// Whether `self` is at most `other`.
    pub fn le(&self, other: &Rational) -> (b: bool)
        ensures
            b == self@.le(other@),
    {
        proof {
            use_type_invariant(self);
            use_type_invariant(other);
            lemma_product_bound(self.numer as int, other.denom as int);
            lemma_product_bound(other.numer as int, self.denom as int);
        }
        (self.numer as i128) * (other.denom as i128) <= (other.numer as i128) * (
        self.denom as i128)
    }
}

} // verus!
