//! The fractions of the library and those of `num_rational` give the same
//! results, and numbers are written as long division by `num_rational`
//! writes them.
use num_rational::Ratio;
use rsass::format::OutputStyle;
use rsass::rational::Rational;
use rsass::unit::Unit;
use rsass::value::Value;

fn grid() -> Vec<(isize, isize)> {
    let mut all = Vec::new();
    for n in -12..=12 {
        for d in [1, 2, 3, 4, 5, 6, 7, 8, 9, 10, 16, 25, 100, -1, -3, -10] {
            all.push((n, d));
        }
    }
    for (n, d) in [(255, 1), (255, 2), (1000, 3), (-1000, 7), (123456, 1000), (1, 100000), (99999, 100000), (999999, 1000000)] {
        all.push((n, d));
    }
    all
}

fn pair(r: &Rational) -> (isize, isize) {
    (r.numer(), r.denom())
}

fn pair_of(r: &Ratio<isize>) -> (isize, isize) {
    (*r.numer(), *r.denom())
}

#[test]
fn lowest_terms_agree() {
    for (n, d) in grid() {
        assert_eq!(pair(&Rational::new(n, d).unwrap()), pair_of(&Ratio::new(n, d)));
    }
}

#[test]
fn arithmetic_agrees() {
    let all = grid();
    for &(n1, d1) in &all {
        let (a, x) = (Rational::new(n1, d1).unwrap(), Ratio::new(n1, d1));
        for &(n2, d2) in &all {
            let (b, y) = (Rational::new(n2, d2).unwrap(), Ratio::new(n2, d2));
            assert_eq!(pair(&a.checked_add(&b).unwrap()), pair_of(&(x + y)));
            assert_eq!(pair(&a.checked_sub(&b).unwrap()), pair_of(&(x - y)));
            assert_eq!(pair(&a.checked_mul(&b).unwrap()), pair_of(&(x * y)));
            if n2 == 0 {
                assert_eq!(a.checked_div(&b), None);
                assert_eq!(a.checked_rem(&b), None);
            } else {
                assert_eq!(pair(&a.checked_div(&b).unwrap()), pair_of(&(x / y)));
                assert_eq!(pair(&a.checked_rem(&b).unwrap()), pair_of(&(x % y)));
            }
            assert_eq!(a.lt(&b), x < y);
            assert_eq!(a.le(&b), x <= y);
            assert_eq!(a.same(&b), x == y);
        }
    }
}

#[test]
fn rounding_agrees() {
    for (n, d) in grid() {
        let (a, x) = (Rational::new(n, d).unwrap(), Ratio::new(n, d));
        assert_eq!(a.round(), x.round().to_integer());
        assert_eq!(a.to_integer(), x.to_integer());
        assert_eq!(a.is_integer(), x.is_integer());
        assert_eq!(a.is_zero(), *x.numer() == 0);
        assert_eq!(a.is_negative(), x < Ratio::from_integer(0));
        assert_eq!(pair(&a.checked_neg().unwrap()), pair_of(&-x));
    }
}

/// A number written by long division on fractions of `num_rational`.
fn decimals(r: Ratio<isize>, with_sign: bool, skip_zero: bool) -> String {
    let zero = Ratio::from_integer(0);
    let size = if r < zero { -r } else { r };
    let whole = size.to_integer();
    let mut f = size.fract();
    let mut digits = String::new();
    for _ in 0..4 {
        if f == zero {
            break;
        }
        f = f * Ratio::from_integer(10);
        digits.push_str(&f.to_integer().to_string());
        f = f.fract();
    }
    if f != zero {
        let fifth = (f * Ratio::from_integer(10)).round().to_integer();
        digits.push_str(&fifth.min(9).to_string());
    }
    let mut out = String::new();
    if r < zero {
        out.push('-');
    } else if with_sign {
        out.push('+');
    }
    if !(whole == 0 && skip_zero && !digits.is_empty()) {
        out.push_str(&whole.to_string());
    }
    if !digits.is_empty() {
        out.push('.');
        out.push_str(&digits);
    }
    out
}

#[test]
fn numbers_are_written_alike() {
    for (n, d) in grid() {
        for with_sign in [false, true] {
            let v = Value::Numeric(Rational::new(n, d).unwrap(), Unit::Unitless, with_sign, false);
            assert_eq!(v.format(OutputStyle::Expanded), decimals(Ratio::new(n, d), with_sign, false));
            assert_eq!(v.format(OutputStyle::Compressed), decimals(Ratio::new(n, d), with_sign, true));
        }
    }
}
