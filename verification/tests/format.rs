use rsass::format::OutputStyle;
use rsass::operator::Operator;
use rsass::rational::Rational;
use rsass::unit::Unit;
use rsass::value::{ListSeparator, Quotes, Value};
use rsass::OutputStyle::{Compressed, Expanded};

fn r(n: isize, d: isize) -> Rational {
    Rational::new(n, d).unwrap()
}

fn num(n: isize, d: isize, unit: Unit) -> Value {
    Value::Numeric(r(n, d), unit, false, false)
}

fn lit(s: &str, q: Quotes) -> Value {
    Value::Literal(s.to_string(), q)
}

fn color(red: isize, green: isize, blue: isize, alpha: Rational) -> Value {
    Value::Color(r(red, 1), r(green, 1), r(blue, 1), alpha, None)
}

#[test]
fn integer_prints_plain() {
    assert_eq!(Value::scalar(17).format(OutputStyle::Expanded), "17");
    assert_eq!(Value::scalar(-3).format(OutputStyle::Compressed), "-3");
    assert_eq!(Value::scalar(0).format(OutputStyle::Compressed), "0");
    assert_eq!(Value::scalar(isize::MIN).format(Expanded), isize::MIN.to_string());
    assert_eq!(Value::scalar(isize::MAX).format(Expanded), isize::MAX.to_string());
}

#[test]
fn explicit_sign_is_kept() {
    assert_eq!(Value::Numeric(r(5, 1), Unit::Unitless, true, false).format(Expanded), "+5");
    assert_eq!(Value::Numeric(r(0, 1), Unit::Unitless, true, false).format(Expanded), "+0");
    assert_eq!(Value::Numeric(r(1, 2), Unit::Unitless, true, false).format(Expanded), "+0.5");
    assert_eq!(Value::Numeric(r(1, 2), Unit::Unitless, true, false).format(Compressed), "+.5");
    assert_eq!(Value::Numeric(r(-5, 1), Unit::Unitless, true, false).format(Expanded), "-5");
}

#[test]
fn zero_before_the_point_is_left_out_in_the_compressed_style() {
    assert_eq!(num(-1, 2, Unit::Unitless).format(Expanded), "-0.5");
    assert_eq!(num(-1, 2, Unit::Unitless).format(Compressed), "-.5");
    assert_eq!(num(3, 4, Unit::Unitless).format(Compressed), ".75");
    assert_eq!(num(-5, 4, Unit::Unitless).format(Compressed), "-1.25");
    assert_eq!(num(0, 1, Unit::Unitless).format(Compressed), "0");
    assert_eq!(Value::Numeric(r(0, 1), Unit::Unitless, true, false).format(Compressed), "+0");
}

#[test]
fn fraction_prints_up_to_five_digits() {
    assert_eq!(num(1, 2, Unit::Unitless).format(Expanded), "0.5");
    assert_eq!(num(1, 2, Unit::Unitless).format(Compressed), ".5");
    assert_eq!(num(-1, 2, Unit::Px).format(Compressed), "-.5px");
    assert_eq!(num(1, 3, Unit::Unitless).format(Expanded), "0.33333");
    assert_eq!(num(2, 3, Unit::Percent).format(Expanded), "0.66667%");
    assert_eq!(num(1, 8, Unit::Unitless).format(Expanded), "0.125");
    assert_eq!(num(10001, 10000, Unit::Unitless).format(Expanded), "1.0001");
    assert_eq!(num(100001, 100000, Unit::Unitless).format(Expanded), "1.00001");
    assert_eq!(num(1000001, 1000000, Unit::Unitless).format(Expanded), "1.00000");
    assert_eq!(num(7, 2, Unit::Em).format(Compressed), "3.5em");
}

#[test]
fn a_fifth_digit_that_would_be_ten_is_nine() {
    assert_eq!(num(999999, 1000000, Unit::Unitless).format(Expanded), "0.99999");
    assert_eq!(num(199999, 200000, Unit::Unitless).format(Expanded), "0.99999");
    assert_eq!(num(199999, 200000, Unit::Unitless).format(Compressed), ".99999");
    assert_eq!(num(-199999, 200000, Unit::Unitless).format(Compressed), "-.99999");
    assert_eq!(num(-199999, 200000, Unit::Unitless).format(Expanded), "-0.99999");
    assert_eq!(num(1234996, 1000000, Unit::Unitless).format(Expanded), "1.23499");
    assert_eq!(num(123496, 1000000, Unit::Unitless).format(Expanded), "0.12349");
    assert_eq!(num(123495, 1000000, Unit::Unitless).format(Expanded), "0.12349");
    assert_eq!(num(123494, 1000000, Unit::Unitless).format(Compressed), ".12349");
    assert_eq!(num(123444, 1000000, Unit::Unitless).format(Expanded), "0.12344");
    assert_eq!(num(123445, 1000000, Unit::Unitless).format(Expanded), "0.12345");
    assert_eq!(num(1, 16, Unit::Unitless).format(Expanded), "0.0625");
    assert_eq!(num(1, 32, Unit::Unitless).format(Expanded), "0.03125");
    assert_eq!(num(1, 64, Unit::Unitless).format(Expanded), "0.01563");
}

#[test]
fn units_are_written_behind_the_number() {
    assert_eq!(num(3, 1, Unit::Percent).format(Expanded), "3%");
    assert_eq!(num(3, 1, Unit::Khz).format(Expanded), "3kHz");
    assert_eq!(num(3, 1, Unit::Unknown("foo".to_string(), 1)).format(Expanded), "3foo");
    assert_eq!(num(3, 1, Unit::Unknown("foo".to_string(), 2)).format(Expanded), "3foo^2");
}

#[test]
fn list_of_nulls_is_empty() {
    let l = Value::List(vec![Value::Null, Value::Null], ListSeparator::Comma, false);
    assert!(l.is_null());
    assert_eq!(l.format(OutputStyle::Expanded), "");
    let outer = Value::List(
        vec![Value::scalar(1), l, Value::scalar(2)],
        ListSeparator::Comma,
        false,
    );
    assert_eq!(outer.format(Expanded), "1, 2");
    assert_eq!(outer.format(Compressed), "1,2");
}

#[test]
fn quoted_literal_escapes_its_own_quote() {
    let v = Value::Literal("a\"b".to_string(), Quotes::Double);
    assert_eq!(v.format(OutputStyle::Expanded), "\"a\\\"b\"");
    assert_eq!(lit("it's", Quotes::Single).format(Expanded), "'it\\'s'");
    assert_eq!(lit("it's", Quotes::Double).format(Expanded), "\"it's\"");
    assert_eq!(lit("a\"b'c", Quotes::Unquoted).format(Expanded), "a\"b'c");
}

#[test]
fn color_with_a_name_is_written_as_the_name() {
    let c = Value::Color(r(1, 1), r(2, 1), r(3, 1), r(1, 2), Some("#AbC".to_string()));
    assert_eq!(c.format(Expanded), "#AbC");
    assert_eq!(c.format(Compressed), "#AbC");
}

#[test]
fn opaque_colors() {
    let one = Rational::one();
    assert_eq!(color(255, 0, 0, one).format(Expanded), "red");
    assert_eq!(color(255, 0, 0, one).format(Compressed), "red");
    assert_eq!(color(255, 255, 0, one).format(Expanded), "yellow");
    assert_eq!(color(255, 255, 0, one).format(Compressed), "#ff0");
    assert_eq!(color(17, 34, 51, one).format(Expanded), "#112233");
    assert_eq!(color(17, 34, 51, one).format(Compressed), "#123");
    assert_eq!(color(18, 34, 51, one).format(Compressed), "#122233");
    assert_eq!(color(0, 255, 255, one).format(Compressed), "cyan");
    assert_eq!(color(255, 0, 255, one).format(Expanded), "magenta");
    assert_eq!(color(128, 128, 128, one).format(Expanded), "gray");
    assert_eq!(color(250, 235, 215, one).format(Expanded), "antiquewhite");
    assert_eq!(color(250, 235, 215, one).format(Compressed), "#faebd7");
}

#[test]
fn short_opaque_colors_take_at_most_four_characters() {
    let one = Rational::one();
    for red in 0..16 {
        for green in 0..16 {
            for blue in 0..16 {
                let text = color(red * 17, green * 17, blue * 17, one).format(Compressed);
                assert!(text.len() <= 4, "{}", text);
            }
        }
    }
}

#[test]
fn channels_are_rounded() {
    let c = Value::Color(r(255, 4), r(0, 1), r(765, 4), Rational::one(), None);
    assert_eq!(c.format(Expanded), "#4000bf");
}

#[test]
fn transparent_colors() {
    assert_eq!(color(0, 0, 0, Rational::zero()).format(Expanded), "transparent");
    assert_eq!(color(0, 0, 0, Rational::zero()).format(Compressed), "transparent");
    assert_eq!(color(1, 2, 3, r(3, 5)).format(Expanded), "rgba(1, 2, 3, 0.6)");
    assert_eq!(color(1, 0, 0, Rational::zero()).format(Expanded), "rgba(1, 0, 0, 0)");
}

#[test]
fn alpha_keeps_its_zero_in_both_styles() {
    assert_eq!(color(1, 2, 3, r(3, 5)).format(Compressed), "rgba(1,2,3,0.6)");
    assert_eq!(color(1, 2, 3, r(3, 5)).format(Expanded), "rgba(1, 2, 3, 0.6)");
}

#[test]
fn lists() {
    let items = vec![Value::scalar(1), Value::Null, lit("a", Quotes::Unquoted)];
    assert_eq!(Value::List(items.clone(), ListSeparator::Comma, false).format(Expanded), "1, a");
    assert_eq!(Value::List(items.clone(), ListSeparator::Comma, false).format(Compressed), "1,a");
    assert_eq!(Value::List(items.clone(), ListSeparator::Space, false).format(Compressed), "1 a");
    assert_eq!(Value::List(items.clone(), ListSeparator::Space, true).format(Expanded), "[1 a]");
    assert_eq!(Value::List(items, ListSeparator::Comma, true).format(Expanded), "[1, a]");
    assert_eq!(Value::List(vec![], ListSeparator::Comma, true).format(Expanded), "[]");
}

#[test]
fn single_item_of_a_comma_list_has_a_trailing_comma() {
    assert_eq!(
        Value::List(vec![Value::scalar(1)], ListSeparator::Comma, false).format(Expanded),
        "1,"
    );
    assert_eq!(
        Value::List(vec![Value::Null, Value::scalar(1)], ListSeparator::Comma, true).format(Compressed),
        "[1,]"
    );
    assert_eq!(
        Value::List(vec![Value::scalar(1)], ListSeparator::Space, false).format(Expanded),
        "1"
    );
}

#[test]
fn list_in_a_bracketed_space_list_is_parenthesized() {
    let inner = Value::List(vec![Value::scalar(1), Value::scalar(2)], ListSeparator::Space, false);
    let bracketed = Value::List(vec![Value::scalar(3)], ListSeparator::Space, true);
    assert_eq!(
        Value::List(vec![inner.clone(), bracketed.clone()], ListSeparator::Space, true).format(Expanded),
        "[(1 2) [3]]"
    );
    assert_eq!(
        Value::List(vec![inner.clone(), bracketed.clone()], ListSeparator::Comma, true).format(Expanded),
        "[1 2, [3]]"
    );
    assert_eq!(
        Value::List(vec![inner, bracketed], ListSeparator::Space, false).format(Expanded),
        "1 2 [3]"
    );
}

#[test]
fn division_keeps_its_spaces() {
    let a = Box::new(num(10, 1, Unit::Px));
    let b = Box::new(num(8, 1, Unit::Px));
    assert_eq!(Value::Div(a.clone(), b.clone(), false, false).format(Expanded), "10px/8px");
    assert_eq!(Value::Div(a.clone(), b.clone(), true, false).format(Expanded), "10px /8px");
    assert_eq!(Value::Div(a.clone(), b.clone(), false, true).format(Expanded), "10px/ 8px");
    assert_eq!(Value::Div(a, b, true, true).format(Compressed), "10px / 8px");
}

#[test]
fn calls() {
    let call = Value::Call(
        "f".to_string(),
        vec![(None, Value::scalar(1)), (Some("b".to_string()), lit("x", Quotes::Unquoted))],
    );
    assert_eq!(call.format(Expanded), "f(1, $b: x)");
    assert_eq!(call.format(Compressed), "f(1,$b:x)");
    assert_eq!(Value::Call("g".to_string(), vec![]).format(Expanded), "g()");
    assert_eq!(
        Value::Call("url".to_string(), vec![(None, lit("a.png", Quotes::Unquoted))]).format(Expanded),
        "url(a.png)"
    );
}

#[test]
fn operations() {
    let a = Box::new(lit("a", Quotes::Unquoted));
    let b = Box::new(Value::scalar(2));
    assert_eq!(Value::BinOp(a.clone(), Operator::Plus, b.clone()).format(Expanded), "a2");
    assert_eq!(Value::BinOp(a.clone(), Operator::Minus, b.clone()).format(Expanded), "a - 2");
    assert_eq!(Value::BinOp(a.clone(), Operator::And, b.clone()).format(Compressed), "a and 2");
    assert_eq!(Value::BinOp(a.clone(), Operator::LesserEqual, b.clone()).format(Expanded), "a <= 2");
    assert_eq!(Value::UnaryOp(Operator::Minus, a.clone()).format(Expanded), "-a");
    assert_eq!(Value::UnaryOp(Operator::Plus, a.clone()).format(Expanded), "+a");
    assert_eq!(Value::UnaryOp(Operator::Not, a).format(Expanded), "not a");
}

#[test]
fn mappings() {
    let map = Value::Mapping(vec![
        (lit("a", Quotes::Unquoted), num(1, 2, Unit::Unitless)),
        (lit("b", Quotes::Double), Value::Null),
    ]);
    assert_eq!(map.format(Expanded), "(a: 0.5, \"b\": )");
    assert_eq!(map.format(Compressed), "(a: 0.5, \"b\": )");
    assert_eq!(Value::Mapping(vec![]).format(Expanded), "()");
}

#[test]
fn values_that_were_not_evaluated_are_written_as_their_source() {
    assert_eq!(Value::Variable("x".to_string()).format(Expanded), "$x");
    assert_eq!(Value::Paren(Box::new(Value::scalar(1))).format(Expanded), "(1)");
    assert_eq!(
        Value::Interpolation(Box::new(Value::Variable("x".to_string()))).format(Expanded),
        "#{$x}"
    );
    assert_eq!(Value::Function("a\"b".to_string(), None).format(Expanded), "get-function(\"a\\\"b\")");
    assert_eq!(Value::True.format(Expanded), "true");
    assert_eq!(Value::False.format(Expanded), "false");
    assert_eq!(Value::Null.format(Expanded), "");
}

#[test]
fn to_string_is_the_expanded_style() {
    let v = Value::List(vec![num(1, 2, Unit::Unitless), Value::scalar(2)], ListSeparator::Comma, false);
    assert_eq!(v.to_string(), "0.5, 2");
}
