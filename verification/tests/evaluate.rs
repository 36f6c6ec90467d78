use rsass::error::Error;
use rsass::functions::{get_builtin_function, SassFunction};
use rsass::operator::Operator;
use rsass::rational::Rational;
use rsass::unit::Unit;
use rsass::value::{ListSeparator, Quotes, Value};
use rsass::variablescope::ScopeImpl;

fn r(n: isize, d: isize) -> Rational {
    Rational::new(n, d).unwrap()
}

fn num(n: isize, d: isize, unit: Unit) -> Value {
    Value::Numeric(r(n, d), unit, false, false)
}

fn calc(n: isize, d: isize, unit: Unit) -> Value {
    Value::Numeric(r(n, d), unit, false, true)
}

fn lit(s: &str, q: Quotes) -> Value {
    Value::Literal(s.to_string(), q)
}

fn div(a: Value, b: Value, s1: bool, s2: bool) -> Value {
    Value::Div(Box::new(a), Box::new(b), s1, s2)
}

fn eval(v: &Value) -> Value {
    v.evaluate(&ScopeImpl::new()).unwrap()
}

#[test]
fn number_keeps_its_flag_outside_arithmetic_context() {
    let scope = ScopeImpl::new();
    assert_eq!(num(1, 1, Unit::Px).do_evaluate(&scope, false), Ok(num(1, 1, Unit::Px)));
    assert_eq!(num(1, 1, Unit::Px).do_evaluate(&scope, true), Ok(calc(1, 1, Unit::Px)));
    assert_eq!(calc(1, 1, Unit::Px).do_evaluate(&scope, false), Ok(calc(1, 1, Unit::Px)));
}

#[test]
fn parentheses_are_arithmetic_context() {
    assert_eq!(eval(&Value::Paren(Box::new(num(1, 1, Unit::Px)))), calc(1, 1, Unit::Px));
    assert_eq!(
        eval(&Value::Paren(Box::new(div(num(500, 1, Unit::Px), num(2, 1, Unit::Unitless), false, false)))),
        calc(250, 1, Unit::Px)
    );
}

#[test]
fn missing_variable_is_null() {
    assert_eq!(eval(&Value::Variable("nothing".to_string())), Value::Null);
}

#[test]
fn variable_is_calculated() {
    let mut scope = ScopeImpl::new();
    scope.set("w", num(1000, 1, Unit::Px), false);
    assert_eq!(Value::Variable("w".to_string()).evaluate(&scope), Ok(calc(1000, 1, Unit::Px)));
    let v = div(Value::Variable("w".to_string()), num(2, 1, Unit::Unitless), false, false);
    assert_eq!(v.evaluate(&scope), Ok(calc(500, 1, Unit::Px)));
}

#[test]
fn list_items_are_evaluated_outside_arithmetic_context() {
    let scope = ScopeImpl::new();
    let list = Value::List(
        vec![num(1, 1, Unit::Unitless), div(num(10, 1, Unit::Px), num(8, 1, Unit::Px), false, false)],
        ListSeparator::Space,
        true,
    );
    assert_eq!(list.do_evaluate(&scope, true), Ok(list.clone()));
}

#[test]
fn plain_division_stays_as_written() {
    let v = div(num(10, 1, Unit::Px), num(8, 1, Unit::Px), true, false);
    assert_eq!(eval(&v), v);
}

#[test]
fn division_in_arithmetic_context() {
    let scope = ScopeImpl::new();
    let v = div(num(10, 1, Unit::Px), num(8, 1, Unit::Px), true, true);
    assert_eq!(v.do_evaluate(&scope, true), Ok(calc(5, 4, Unit::Unitless)));
    let zero = div(num(500, 1, Unit::Px), num(0, 1, Unit::Unitless), true, false);
    assert_eq!(
        zero.do_evaluate(&scope, true),
        Ok(div(calc(500, 1, Unit::Px), calc(0, 1, Unit::Unitless), true, false))
    );
    let mixed = div(num(1, 1, Unit::Px), num(2, 1, Unit::Em), true, true);
    assert_eq!(
        mixed.do_evaluate(&scope, true),
        Ok(div(calc(1, 1, Unit::Px), calc(2, 1, Unit::Em), false, false))
    );
    let words = div(lit("a", Quotes::Unquoted), lit("b", Quotes::Unquoted), true, true);
    assert_eq!(
        words.do_evaluate(&scope, true),
        Ok(div(lit("a", Quotes::Unquoted), lit("b", Quotes::Unquoted), false, false))
    );
}

#[test]
fn calculated_operand_makes_a_division() {
    assert_eq!(eval(&div(calc(15, 1, Unit::Unitless), num(3, 1, Unit::Unitless), true, true)), calc(5, 1, Unit::Unitless));
    let left = Value::BinOp(Box::new(num(1, 1, Unit::Unitless)), Operator::Plus, Box::new(num(2, 1, Unit::Unitless)));
    assert_eq!(eval(&div(num(9, 1, Unit::Unitless), left, false, false)), calc(3, 1, Unit::Unitless));
}

#[test]
fn color_divided_channel_by_channel() {
    let c = Value::Color(r(16, 1), r(16, 1), r(16, 1), r(1, 1), Some("#101010".to_string()));
    let v = Value::Paren(Box::new(div(c, num(7, 1, Unit::Unitless), true, true)));
    assert_eq!(eval(&v), Value::Color(r(16, 7), r(16, 7), r(16, 7), r(1, 1), None));
}

#[test]
fn operation_evaluates_its_operands_in_arithmetic_context() {
    let v = Value::BinOp(
        Box::new(div(num(8, 1, Unit::Px), num(2, 1, Unit::Px), false, false)),
        Operator::Plus,
        Box::new(num(5, 1, Unit::Px)),
    );
    assert_eq!(eval(&v), calc(9, 1, Unit::Px));
}

#[test]
fn unary_operators() {
    assert_eq!(eval(&Value::UnaryOp(Operator::Minus, Box::new(num(2, 1, Unit::Px)))), calc(-2, 1, Unit::Px));
    assert_eq!(
        eval(&Value::UnaryOp(Operator::Plus, Box::new(num(2, 1, Unit::Px)))),
        Value::Numeric(r(2, 1), Unit::Px, true, true)
    );
    assert_eq!(eval(&Value::UnaryOp(Operator::Not, Box::new(Value::True))), Value::False);
    assert_eq!(eval(&Value::UnaryOp(Operator::Not, Box::new(Value::False))), Value::True);
    assert_eq!(
        eval(&Value::UnaryOp(Operator::Minus, Box::new(lit("a", Quotes::Unquoted)))),
        Value::UnaryOp(Operator::Minus, Box::new(lit("a", Quotes::Unquoted)))
    );
    assert_eq!(
        eval(&Value::UnaryOp(Operator::Not, Box::new(Value::Null))),
        Value::UnaryOp(Operator::Not, Box::new(Value::Null))
    );
    assert_eq!(
        eval(&Value::UnaryOp(Operator::Minus, Box::new(num(isize::MIN, 1, Unit::Unitless)))),
        Value::UnaryOp(Operator::Minus, Box::new(calc(isize::MIN, 1, Unit::Unitless)))
    );
}

#[test]
fn not_of_zero_is_false() {
    assert_eq!(eval(&Value::UnaryOp(Operator::Not, Box::new(num(0, 1, Unit::Unitless)))), Value::False);
    assert_eq!(eval(&Value::UnaryOp(Operator::Not, Box::new(num(1, 1, Unit::Unitless)))), Value::False);
}

#[test]
fn interpolation_gives_an_unquoted_string() {
    let i = |v| Value::Interpolation(Box::new(v));
    assert_eq!(eval(&i(Value::Null)), Value::Null);
    assert_eq!(eval(&i(lit("a\\62", Quotes::Double))), lit("a\u{6}2", Quotes::Unquoted));
    assert_eq!(eval(&i(lit("a\\62", Quotes::Unquoted))), lit("a\\62", Quotes::Unquoted));
    assert_eq!(eval(&i(div(num(1, 1, Unit::Unitless), num(2, 1, Unit::Unitless), false, false))), lit("0.5", Quotes::Unquoted));
    assert_eq!(
        eval(&i(Value::List(vec![lit("a", Quotes::Double), num(1, 1, Unit::Px)], ListSeparator::Comma, false))),
        lit("a, 1px", Quotes::Unquoted)
    );
}

#[test]
fn unknown_call_keeps_its_evaluated_arguments() {
    let call = Value::Call(
        "thing".to_string(),
        vec![
            (None, div(num(4, 1, Unit::Unitless), num(2, 1, Unit::Unitless), false, false)),
            (Some("k".to_string()), Value::Variable("nothing".to_string())),
        ],
    );
    assert_eq!(
        eval(&call),
        Value::Call(
            "thing".to_string(),
            vec![(None, calc(2, 1, Unit::Unitless)), (Some("k".to_string()), Value::Null)],
        )
    );
}

#[test]
fn function_failure_is_wrapped() {
    let call = Value::Call("red".to_string(), vec![(None, num(1, 1, Unit::Unitless))]);
    assert_eq!(
        call.evaluate(&ScopeImpl::new()),
        Err(Error::BadCall {
            name: "red".to_string(),
            cause: Box::new(Error::BadValue { expected: "color".to_string(), got: calc(1, 1, Unit::Unitless) }),
        })
    );
    let missing = Value::Call("rgb".to_string(), vec![(None, num(1, 1, Unit::Unitless))]);
    assert_eq!(
        missing.evaluate(&ScopeImpl::new()),
        Err(Error::BadCall {
            name: "rgb".to_string(),
            cause: Box::new(Error::BadValue { expected: "green".to_string(), got: Value::Null }),
        })
    );
}

#[test]
fn function_of_the_scope_comes_first() {
    let mut scope = ScopeImpl::new();
    scope.define_function("Type-Of", SassFunction::Unit);
    let call = Value::Call("type_of".to_string(), vec![(None, num(1, 1, Unit::Px))]);
    assert_eq!(call.evaluate(&scope), Ok(lit("px", Quotes::Double)));
    assert_eq!(call.evaluate(&ScopeImpl::new()), Ok(lit("number", Quotes::Unquoted)));
    let inner = ScopeImpl::sub(scope);
    assert_eq!(inner.get_function("TYPE-OF"), Some(SassFunction::Unit));
}

#[test]
fn builtin_names_ignore_case_and_dashes() {
    assert_eq!(get_builtin_function("type-of"), Some(SassFunction::TypeOf));
    assert_eq!(get_builtin_function("Type_Of"), Some(SassFunction::TypeOf));
    assert_eq!(get_builtin_function("RGBA"), Some(SassFunction::Rgba));
    assert_eq!(get_builtin_function("typeof"), None);
    assert_eq!(get_builtin_function(""), None);
}

#[test]
fn builtin_functions() {
    let color = Value::Color(r(10, 1), r(20, 1), r(30, 1), r(1, 2), None);
    let call = |f: SassFunction, args: Vec<(Option<String>, Value)>| f.call(&args);
    assert_eq!(call(SassFunction::Red, vec![(None, color.clone())]), Ok(calc(10, 1, Unit::Unitless)));
    assert_eq!(call(SassFunction::Green, vec![(None, color.clone())]), Ok(calc(20, 1, Unit::Unitless)));
    assert_eq!(call(SassFunction::Blue, vec![(None, color.clone())]), Ok(calc(30, 1, Unit::Unitless)));
    assert_eq!(call(SassFunction::Alpha, vec![(None, color.clone())]), Ok(calc(1, 2, Unit::Unitless)));
    assert_eq!(
        call(SassFunction::Invert, vec![(None, color.clone())]),
        Ok(Value::Color(r(245, 1), r(235, 1), r(225, 1), r(1, 2), None))
    );
    assert_eq!(
        call(SassFunction::Rgb, vec![(None, num(50, 1, Unit::Percent)), (None, num(300, 1, Unit::Unitless)), (None, num(1, 2, Unit::Unitless))]),
        Ok(Value::Color(r(255, 2), r(255, 1), r(1, 2), r(1, 1), None))
    );
    assert_eq!(
        call(SassFunction::Rgba, vec![(None, color.clone()), (None, num(1, 4, Unit::Unitless))]),
        Ok(Value::Color(r(10, 1), r(20, 1), r(30, 1), r(1, 4), None))
    );
    assert_eq!(call(SassFunction::Quote, vec![(None, lit("a", Quotes::Unquoted))]), Ok(lit("a", Quotes::Double)));
    assert_eq!(call(SassFunction::Quote, vec![(None, num(1, 2, Unit::Px))]), Ok(lit("0.5px", Quotes::Double)));
    assert_eq!(call(SassFunction::Unquote, vec![(None, lit("a\\0", Quotes::Double))]), Ok(lit("a\u{fffd}", Quotes::Unquoted)));
    assert_eq!(call(SassFunction::Unit, vec![(None, num(1, 1, Unit::Unitless))]), Ok(lit("", Quotes::Double)));
    assert_eq!(call(SassFunction::Unitless, vec![(None, num(1, 1, Unit::Unitless))]), Ok(Value::True));
    assert_eq!(call(SassFunction::Unitless, vec![(None, num(1, 1, Unit::Px))]), Ok(Value::False));
    assert_eq!(call(SassFunction::TypeOf, vec![(None, Value::Null)]), Ok(lit("null", Quotes::Unquoted)));
    assert_eq!(
        call(SassFunction::If, vec![(None, Value::Null), (None, Value::scalar(1)), (None, Value::scalar(2))]),
        Ok(Value::scalar(2))
    );
    assert_eq!(
        call(SassFunction::Mix, vec![(None, Value::Color(r(255, 1), r(0, 1), r(0, 1), r(1, 1), None)), (None, Value::Color(r(0, 1), r(0, 1), r(255, 1), r(1, 1), None)), (None, num(25, 1, Unit::Percent))]),
        Ok(Value::Color(r(255, 4), r(0, 1), r(765, 4), r(1, 1), None))
    );
}

#[test]
fn evaluation_leaves_evaluated_values_alone() {
    let scope = ScopeImpl::new();
    let values = vec![
        Value::List(
            vec![num(1, 1, Unit::Px), lit("a", Quotes::Double), Value::Null, Value::black()],
            ListSeparator::Comma,
            true,
        ),
        div(num(10, 1, Unit::Px), num(8, 1, Unit::Px), true, true),
        Value::BinOp(Box::new(calc(1, 1, Unit::Px)), Operator::Plus, Box::new(calc(1, 1, Unit::Em))),
        Value::UnaryOp(Operator::Minus, Box::new(lit("a", Quotes::Unquoted))),
        Value::Call("thing".to_string(), vec![(None, calc(1, 1, Unit::Unitless))]),
        Value::Mapping(vec![(lit("k", Quotes::Unquoted), num(1, 1, Unit::Unitless))]),
    ];
    for v in values {
        let once = v.evaluate(&scope).unwrap();
        assert_eq!(once, v);
        assert_eq!(once.evaluate(&scope), Ok(once.clone()));
    }
}

fn sum(a: Value, b: Value) -> Value {
    Value::BinOp(Box::new(a), Operator::Plus, Box::new(b))
}

#[test]
fn what_evaluation_gives_evaluates_to_itself() {
    let mut scope = ScopeImpl::new();
    scope.define("w", &div(num(1000, 1, Unit::Px), num(3, 1, Unit::Unitless), false, false), false).unwrap();
    scope.define("name", &lit("a b", Quotes::Double), false).unwrap();
    let values = vec![
        Value::Paren(Box::new(sum(num(1, 2, Unit::Px), Value::Variable("w".to_string())))),
        div(Value::Variable("w".to_string()), num(3, 1, Unit::Unitless), true, false),
        Value::Paren(Box::new(div(Value::Variable("w".to_string()), num(0, 1, Unit::Unitless), true, false))),
        div(num(10, 1, Unit::Px), num(8, 1, Unit::Px), false, true),
        sum(num(1, 1, Unit::Px), num(1, 1, Unit::Em)),
        sum(Value::Variable("name".to_string()), num(2, 1, Unit::Unitless)),
        Value::UnaryOp(Operator::Not, Box::new(Value::Variable("nothing".to_string()))),
        Value::UnaryOp(Operator::Minus, Box::new(Value::Paren(Box::new(num(1, 3, Unit::Unitless))))),
        Value::Interpolation(Box::new(Value::Variable("name".to_string()))),
        Value::Call("unquote".to_string(), vec![(None, Value::Variable("name".to_string()))]),
        Value::Call(
            "mix".to_string(),
            vec![(None, Value::black()), (None, lit("white", Quotes::Unquoted))],
        ),
        Value::Call("thing".to_string(), vec![(None, sum(num(1, 1, Unit::Unitless), num(2, 1, Unit::Unitless)))]),
        Value::List(
            vec![Value::Variable("w".to_string()), div(num(1, 1, Unit::Unitless), num(2, 1, Unit::Unitless), false, false)],
            ListSeparator::Space,
            false,
        ),
        Value::Mapping(vec![
            (sum(num(1, 1, Unit::Unitless), num(1, 1, Unit::Unitless)), lit("x", Quotes::Unquoted)),
            (num(2, 1, Unit::Unitless), Value::Variable("w".to_string())),
        ]),
    ];
    for v in values {
        for arithmetic in [false, true] {
            if let Ok(once) = v.do_evaluate(&scope, arithmetic) {
                assert_eq!(once.do_evaluate(&scope, arithmetic), Ok(once.clone()), "{:?}", v);
            }
        }
    }
}

#[test]
fn a_division_whose_dividend_becomes_calculated_marks_its_divisor_later() {
    let v = div(sum(num(1, 1, Unit::Em), num(2, 1, Unit::Em)), num(2, 1, Unit::Px), false, false);
    let once = eval(&v);
    assert_eq!(once, div(calc(3, 1, Unit::Em), num(2, 1, Unit::Px), false, false));
    let twice = eval(&once);
    assert_eq!(twice, div(calc(3, 1, Unit::Em), calc(2, 1, Unit::Px), false, false));
    assert_eq!(once.to_string(), twice.to_string());
    let mut scope = ScopeImpl::new();
    scope.define("w", &num(5, 1, Unit::Px), false).unwrap();
    let v = div(Value::Variable("w".to_string()), num(0, 1, Unit::Unitless), true, false);
    let once = v.evaluate(&scope).unwrap();
    assert_eq!(once, div(calc(5, 1, Unit::Px), num(0, 1, Unit::Unitless), true, false));
    let twice = once.evaluate(&scope).unwrap();
    assert_eq!(twice, div(calc(5, 1, Unit::Px), calc(0, 1, Unit::Unitless), true, false));
}

#[test]
fn sums_evaluate_alike_however_they_are_grouped() {
    let (a, b, c) = (num(1, 10, Unit::Px), num(1, 5, Unit::Px), num(3, 10, Unit::Px));
    let left = sum(sum(a.clone(), b.clone()), c.clone());
    let right = sum(a, sum(b, c));
    for arithmetic in [false, true] {
        let scope = ScopeImpl::new();
        assert_eq!(left.do_evaluate(&scope, arithmetic), Ok(calc(3, 5, Unit::Px)));
        assert_eq!(right.do_evaluate(&scope, arithmetic), Ok(calc(3, 5, Unit::Px)));
    }
}
