use rsass::rational::Rational;

fn r(n: isize, d: isize) -> Rational {
    Rational::new(n, d).unwrap()
}

#[test]
fn new_reduces_to_lowest_terms() {
    let q = r(6, -8);
    assert_eq!((q.numer(), q.denom()), (-3, 4));
    let z = r(0, 5);
    assert_eq!((z.numer(), z.denom()), (0, 1));
}

#[test]
fn new_refuses_zero_denominator() {
    assert!(Rational::new(1, 0).is_none());
}

#[test]
fn new_refuses_what_does_not_fit() {
    assert!(Rational::new(1, isize::MIN).is_none());
    assert!(Rational::new(isize::MIN, -1).is_none());
    assert!(Rational::new(isize::MIN, isize::MIN).is_some());
}

#[test]
fn sum_difference_product_quotient() {
    assert_eq!(r(1, 2).checked_add(&r(1, 3)), Some(r(5, 6)));
    assert_eq!(r(1, 2).checked_sub(&r(1, 3)), Some(r(1, 6)));
    assert_eq!(r(2, 3).checked_mul(&r(3, 4)), Some(r(1, 2)));
    assert_eq!(r(2, 3).checked_div(&r(-4, 9)), Some(r(-3, 2)));
}

#[test]
fn division_by_zero_has_no_result() {
    assert_eq!(r(1, 2).checked_div(&Rational::zero()), None);
    assert_eq!(r(1, 2).checked_rem(&Rational::zero()), None);
}

#[test]
fn remainder_has_the_sign_of_the_dividend() {
    assert_eq!(r(7, 1).checked_rem(&r(3, 1)), Some(r(1, 1)));
    assert_eq!(r(-7, 1).checked_rem(&r(3, 1)), Some(r(-1, 1)));
    assert_eq!(r(7, 2).checked_rem(&r(-1, 1)), Some(r(1, 2)));
}

#[test]
fn overflow_has_no_result() {
    let max = Rational::from_integer(isize::MAX);
    assert_eq!(max.checked_add(&Rational::one()), None);
    assert_eq!(max.checked_mul(&Rational::from_integer(2)), None);
    assert_eq!(Rational::from_integer(isize::MIN).checked_neg(), None);
    assert_eq!(max.checked_neg(), Some(Rational::from_integer(-isize::MAX)));
}

#[test]
fn sums_do_not_depend_on_grouping() {
    let (a, b, c) = (r(1, 3), r(1, 6), r(5, 7));
    let left = a.checked_add(&b).unwrap().checked_add(&c).unwrap();
    let right = a.checked_add(&b.checked_add(&c).unwrap()).unwrap();
    assert_eq!(left, right);
    assert_eq!(left, r(17, 14));
}

#[test]
fn rounding_goes_away_from_zero_at_the_half() {
    assert_eq!(r(5, 2).round(), 3);
    assert_eq!(r(-5, 2).round(), -3);
    assert_eq!(r(7, 3).round(), 2);
    assert_eq!(r(-7, 3).round(), -2);
    assert_eq!(r(255, 4).round(), 64);
}

#[test]
fn integer_part_rounds_toward_zero() {
    assert_eq!(r(7, 2).to_integer(), 3);
    assert_eq!(r(-7, 2).to_integer(), -3);
    assert!(r(4, 2).is_integer());
    assert!(!r(1, 2).is_integer());
}

#[test]
fn order_of_fractions() {
    assert!(r(1, 3).lt(&r(1, 2)));
    assert!(!r(1, 2).lt(&r(1, 2)));
    assert!(r(1, 2).le(&r(2, 4)));
    assert!(r(-1, 2).lt(&r(1, 3)));
    assert!(r(3, 6).same(&r(1, 2)));
}
