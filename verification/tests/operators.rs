use rsass::error::Error;
use rsass::operator::Operator;
use rsass::rational::Rational;
use rsass::unit::Unit;
use rsass::value::{ListSeparator, Quotes, Value};

fn r(n: isize, d: isize) -> Rational {
    Rational::new(n, d).unwrap()
}

fn num(n: isize, d: isize, unit: Unit) -> Value {
    Value::Numeric(r(n, d), unit, false, false)
}

fn calc(n: isize, d: isize, unit: Unit) -> Value {
    Value::Numeric(r(n, d), unit, false, true)
}

fn lit(s: &str, q: Quotes) -> Value {
    Value::Literal(s.to_string(), q)
}

fn symbolic(a: Value, op: Operator, b: Value) -> Value {
    Value::BinOp(Box::new(a), op, Box::new(b))
}

#[test]
fn numbers_without_units() {
    assert_eq!(Operator::Plus.eval(num(1, 2, Unit::Unitless), num(1, 3, Unit::Unitless)), Ok(calc(5, 6, Unit::Unitless)));
    assert_eq!(Operator::Minus.eval(num(1, 1, Unit::Unitless), num(3, 1, Unit::Unitless)), Ok(calc(-2, 1, Unit::Unitless)));
    assert_eq!(Operator::Multiply.eval(num(2, 3, Unit::Unitless), num(3, 1, Unit::Unitless)), Ok(calc(2, 1, Unit::Unitless)));
    assert_eq!(Operator::Divide.eval(num(1, 1, Unit::Unitless), num(3, 1, Unit::Unitless)), Ok(calc(1, 3, Unit::Unitless)));
    assert_eq!(Operator::Modulo.eval(num(7, 1, Unit::Unitless), num(3, 1, Unit::Unitless)), Ok(calc(1, 1, Unit::Unitless)));
}

#[test]
fn one_unit_goes_to_the_result() {
    assert_eq!(Operator::Plus.eval(num(1, 1, Unit::Px), num(2, 1, Unit::Unitless)), Ok(calc(3, 1, Unit::Px)));
    assert_eq!(Operator::Plus.eval(num(1, 1, Unit::Unitless), num(2, 1, Unit::Em)), Ok(calc(3, 1, Unit::Em)));
    assert_eq!(Operator::Multiply.eval(num(2, 1, Unit::Unitless), num(2, 1, Unit::Percent)), Ok(calc(4, 1, Unit::Percent)));
    assert_eq!(Operator::Divide.eval(num(500, 1, Unit::Px), num(2, 1, Unit::Unitless)), Ok(calc(250, 1, Unit::Px)));
    assert_eq!(Operator::Modulo.eval(num(7, 1, Unit::Px), num(4, 1, Unit::Unitless)), Ok(calc(3, 1, Unit::Px)));
}

#[test]
fn same_units() {
    assert_eq!(Operator::Plus.eval(num(3, 1, Unit::Px), num(3, 1, Unit::Px)), Ok(calc(6, 1, Unit::Px)));
    assert_eq!(Operator::Minus.eval(num(3, 1, Unit::Px), num(1, 1, Unit::Px)), Ok(calc(2, 1, Unit::Px)));
    assert_eq!(Operator::Divide.eval(num(10, 1, Unit::Px), num(4, 1, Unit::Px)), Ok(calc(5, 2, Unit::Unitless)));
    assert_eq!(
        Operator::Multiply.eval(num(3, 1, Unit::Px), num(3, 1, Unit::Px)),
        Ok(symbolic(num(3, 1, Unit::Px), Operator::Multiply, num(3, 1, Unit::Px)))
    );
    assert_eq!(
        Operator::Modulo.eval(num(3, 1, Unit::Px), num(2, 1, Unit::Px)),
        Ok(symbolic(num(3, 1, Unit::Px), Operator::Modulo, num(2, 1, Unit::Px)))
    );
}

#[test]
fn different_units_stay_symbolic() {
    assert_eq!(
        Operator::Plus.eval(num(1, 1, Unit::Px), num(1, 1, Unit::Em)),
        Ok(symbolic(num(1, 1, Unit::Px), Operator::Plus, num(1, 1, Unit::Em)))
    );
    assert_eq!(
        Operator::Divide.eval(num(1, 1, Unit::Px), num(2, 1, Unit::Em)),
        Ok(Value::Div(Box::new(num(1, 1, Unit::Px)), Box::new(num(2, 1, Unit::Em)), false, false))
    );
}

#[test]
fn division_by_zero_stays_a_division() {
    assert_eq!(
        Operator::Divide.eval(num(500, 1, Unit::Px), num(0, 1, Unit::Unitless)),
        Ok(Value::Div(Box::new(num(500, 1, Unit::Px)), Box::new(num(0, 1, Unit::Unitless)), false, false))
    );
    assert_eq!(
        Operator::Modulo.eval(num(5, 1, Unit::Unitless), num(0, 1, Unit::Unitless)),
        Ok(symbolic(num(5, 1, Unit::Unitless), Operator::Modulo, num(0, 1, Unit::Unitless)))
    );
}

#[test]
fn overflow_stays_symbolic() {
    let max = num(isize::MAX, 1, Unit::Unitless);
    assert_eq!(
        Operator::Plus.eval(max.clone(), num(1, 1, Unit::Unitless)),
        Ok(symbolic(max, Operator::Plus, num(1, 1, Unit::Unitless)))
    );
}

#[test]
fn color_and_number() {
    let c = Value::Color(r(170, 1), r(187, 1), r(204, 1), r(1, 2), Some("#AbC".to_string()));
    assert_eq!(
        Operator::Plus.eval(c.clone(), num(1, 1, Unit::Unitless)),
        Ok(Value::Color(r(171, 1), r(188, 1), r(205, 1), r(1, 2), None))
    );
    assert_eq!(
        Operator::Minus.eval(c.clone(), num(180, 1, Unit::Unitless)),
        Ok(Value::Color(r(0, 1), r(7, 1), r(24, 1), r(1, 2), None))
    );
    assert_eq!(
        Operator::Plus.eval(c.clone(), num(100, 1, Unit::Unitless)),
        Ok(Value::Color(r(255, 1), r(255, 1), r(255, 1), r(1, 2), None))
    );
    assert_eq!(
        Operator::Divide.eval(c.clone(), num(2, 1, Unit::Unitless)),
        Ok(Value::Color(r(85, 1), r(187, 2), r(102, 1), r(1, 2), None))
    );
    assert_eq!(
        Operator::Divide.eval(c.clone(), num(2, 1, Unit::Px)),
        Ok(Value::Div(Box::new(c.clone()), Box::new(num(2, 1, Unit::Px)), false, false))
    );
    assert_eq!(
        Operator::Multiply.eval(c.clone(), num(2, 1, Unit::Unitless)),
        Ok(symbolic(c, Operator::Multiply, num(2, 1, Unit::Unitless)))
    );
}

#[test]
fn color_and_color_take_the_alpha_of_the_left() {
    let a = Value::Color(r(10, 1), r(20, 1), r(250, 1), r(1, 4), Some("x".to_string()));
    let b = Value::Color(r(1, 1), r(30, 1), r(10, 1), r(1, 1), None);
    assert_eq!(
        Operator::Plus.eval(a.clone(), b.clone()),
        Ok(Value::Color(r(11, 1), r(50, 1), r(255, 1), r(1, 4), None))
    );
    assert_eq!(
        Operator::Minus.eval(a, b),
        Ok(Value::Color(r(9, 1), r(0, 1), r(240, 1), r(1, 4), None))
    );
}

#[test]
fn plus_joins_strings() {
    assert_eq!(
        Operator::Plus.eval(lit("a", Quotes::Double), lit("b", Quotes::Unquoted)),
        Ok(lit("ab", Quotes::Double))
    );
    assert_eq!(
        Operator::Plus.eval(lit("a", Quotes::Unquoted), lit("b", Quotes::Single)),
        Ok(lit("ab", Quotes::Unquoted))
    );
    assert_eq!(
        Operator::Plus.eval(lit("w: ", Quotes::Unquoted), num(3, 2, Unit::Px)),
        Ok(lit("w: 1.5px", Quotes::Unquoted))
    );
    assert_eq!(
        Operator::Plus.eval(num(1, 1, Unit::Em), lit("x", Quotes::Double)),
        Ok(lit("1emx", Quotes::Double))
    );
    assert_eq!(
        Operator::Plus.eval(Value::True, lit("!", Quotes::Single)),
        Ok(lit("true!", Quotes::Single))
    );
    assert_eq!(
        Operator::Minus.eval(lit("a", Quotes::Unquoted), lit("b", Quotes::Unquoted)),
        Ok(symbolic(lit("a", Quotes::Unquoted), Operator::Minus, lit("b", Quotes::Unquoted)))
    );
}

#[test]
fn equality() {
    assert_eq!(Operator::Equal.eval(num(17, 1, Unit::Unitless), calc(34, 2, Unit::Unitless)), Ok(Value::True));
    assert_eq!(
        Operator::Equal.eval(Value::Numeric(r(1, 1), Unit::Unitless, true, false), num(1, 1, Unit::Unitless)),
        Ok(Value::True)
    );
    assert_eq!(Operator::Equal.eval(num(1, 1, Unit::Px), num(1, 1, Unit::Em)), Ok(Value::False));
    assert_eq!(Operator::Equal.eval(num(1, 1, Unit::Px), num(1, 1, Unit::Unitless)), Ok(Value::False));
    assert_eq!(Operator::NotEqual.eval(num(1, 1, Unit::Px), num(1, 1, Unit::Em)), Ok(Value::True));
    assert_eq!(Operator::Equal.eval(lit("a", Quotes::Double), lit("a", Quotes::Unquoted)), Ok(Value::True));
    assert_eq!(Operator::Equal.eval(lit("a", Quotes::Double), lit("b", Quotes::Double)), Ok(Value::False));
    assert_eq!(Operator::Equal.eval(Value::True, Value::True), Ok(Value::True));
    assert_eq!(Operator::Equal.eval(Value::Null, Value::False), Ok(Value::False));
    assert_eq!(Operator::Equal.eval(Value::Null, Value::Null), Ok(Value::True));
    assert_eq!(Operator::NotEqual.eval(Value::True, Value::False), Ok(Value::True));
    let list = |q| Value::List(vec![lit("a", q), num(1, 1, Unit::Px)], ListSeparator::Space, false);
    assert_eq!(Operator::Equal.eval(list(Quotes::Double), list(Quotes::Single)), Ok(Value::True));
    assert_eq!(
        Operator::Equal.eval(list(Quotes::Double), Value::List(vec![lit("a", Quotes::Double)], ListSeparator::Space, false)),
        Ok(Value::False)
    );
}

#[test]
fn order_of_numbers() {
    assert_eq!(Operator::Greater.eval(num(3, 1, Unit::Px), num(2, 1, Unit::Px)), Ok(Value::True));
    assert_eq!(Operator::GreaterEqual.eval(num(3, 1, Unit::Px), num(3, 1, Unit::Unitless)), Ok(Value::True));
    assert_eq!(Operator::Lesser.eval(num(3, 1, Unit::Unitless), num(3, 1, Unit::Unitless)), Ok(Value::False));
    assert_eq!(Operator::LesserEqual.eval(num(1, 3, Unit::Unitless), num(1, 2, Unit::Em)), Ok(Value::True));
}

#[test]
fn order_of_anything_else_is_an_error() {
    assert_eq!(
        Operator::Lesser.eval(num(1, 1, Unit::Px), num(2, 1, Unit::Em)),
        Err(Error::BadValue { expected: "number with the same unit".to_string(), got: num(2, 1, Unit::Em) })
    );
    assert_eq!(
        Operator::Greater.eval(num(1, 1, Unit::Px), Value::True),
        Err(Error::BadValue { expected: "number".to_string(), got: Value::True })
    );
    assert_eq!(
        Operator::GreaterEqual.eval(lit("a", Quotes::Unquoted), num(1, 1, Unit::Px)),
        Err(Error::BadValue { expected: "number".to_string(), got: lit("a", Quotes::Unquoted) })
    );
}

#[test]
fn and_or() {
    assert_eq!(Operator::And.eval(Value::True, Value::scalar(2)), Ok(Value::scalar(2)));
    assert_eq!(Operator::And.eval(Value::Null, Value::scalar(2)), Ok(Value::Null));
    assert_eq!(Operator::Or.eval(Value::False, Value::scalar(2)), Ok(Value::scalar(2)));
    assert_eq!(Operator::Or.eval(Value::scalar(0), Value::scalar(2)), Ok(Value::scalar(0)));
}

#[test]
fn partial_order_of_values() {
    assert!(num(1, 2, Unit::Px) < num(2, 3, Unit::Px));
    assert!(num(1, 2, Unit::Px) <= calc(1, 2, Unit::Unitless));
    assert_eq!(num(1, 1, Unit::Px).partial_cmp(&num(1, 1, Unit::Em)), None);
    assert_eq!(num(1, 1, Unit::Px).partial_cmp(&Value::True), None);
    assert_eq!(num(3, 1, Unit::Px).compare(&num(2, 1, Unit::Px)), Some(std::cmp::Ordering::Greater));
}
