use rsass::format::OutputStyle;
use rsass::operator::Operator;
use rsass::parser::value::{number, single_expression, single_value, space_list, value_expression};
use rsass::rational::Rational;
use rsass::unit::Unit;
use rsass::value::{ListSeparator, Quotes, Value};

fn chars(s: &str) -> Vec<char> {
    s.chars().collect()
}

fn parse(s: &str) -> Value {
    let input = chars(s);
    let (v, end) = value_expression(&input, 0).unwrap();
    assert_eq!(end, input.len(), "{}", s);
    v
}

fn r(n: isize, d: isize) -> Rational {
    Rational::new(n, d).unwrap()
}

fn num(n: isize, d: isize, unit: Unit) -> Value {
    Value::Numeric(r(n, d), unit, false, false)
}

fn lit(s: &str, q: Quotes) -> Value {
    Value::Literal(s.to_string(), q)
}

fn op(a: Value, o: Operator, b: Value) -> Value {
    Value::BinOp(Box::new(a), o, Box::new(b))
}

#[test]
fn numbers_are_read() {
    assert_eq!(parse("17"), Value::scalar(17));
    assert_eq!(parse("-17"), Value::scalar(-17));
    assert_eq!(parse("+17"), Value::Numeric(r(17, 1), Unit::Unitless, true, false));
    assert_eq!(parse("1.5"), num(3, 2, Unit::Unitless));
    assert_eq!(parse(".25px"), num(1, 4, Unit::Px));
    assert_eq!(parse("-0.125em"), num(-1, 8, Unit::Em));
    assert_eq!(parse("-.5"), num(-1, 2, Unit::Unitless));
    assert_eq!(parse(".75"), num(3, 4, Unit::Unitless));
    assert_eq!(parse("17%"), num(17, 1, Unit::Percent));
    assert_eq!(parse("3kHz"), num(3, 1, Unit::Khz));
    assert_eq!(parse("3foo"), num(3, 1, Unit::Unknown("foo".to_string(), 1)));
    assert_eq!(parse("0010.500"), num(21, 2, Unit::Unitless));
    assert_eq!(number(&chars("12.px"), 0), Some((Value::scalar(12), 2)));
    assert_eq!(number(&chars("px"), 0), None);
    assert_eq!(number(&chars("-"), 0), None);
}

#[test]
fn numbers_that_cannot_be_held() {
    assert_eq!(number(&chars("9223372036854775807"), 0), Some((Value::scalar(isize::MAX), 19)));
    assert_eq!(number(&chars("-9223372036854775808"), 0), Some((Value::scalar(isize::MIN), 20)));
    assert_eq!(number(&chars("9223372036854775808"), 0), None);
    assert_eq!(number(&chars("0.50000000000000000000000000000000000"), 0), Some((num(1, 2, Unit::Unitless), 37)));
    assert_eq!(number(&chars("0.500000000000000000000000000000000000"), 0), None);
}

#[test]
fn whole_numbers_are_read_as_they_are_written() {
    for k in [0, 1, -1, 9, 10, -10, 255, 1000000007, -987654321, isize::MAX, isize::MIN] {
        for style in [OutputStyle::Expanded, OutputStyle::Compressed] {
            let text = Value::scalar(k).format(style);
            assert_eq!(parse(&text), Value::scalar(k));
        }
    }
}

#[test]
fn words_and_constants() {
    assert_eq!(parse("true"), Value::True);
    assert_eq!(parse("false"), Value::False);
    assert_eq!(parse("null"), Value::Null);
    assert_eq!(parse("truely"), lit("truely", Quotes::Unquoted));
    assert_eq!(parse("foo-bar.baz"), lit("foo-bar.baz", Quotes::Unquoted));
    assert_eq!(parse("-webkit-box"), lit("-webkit-box", Quotes::Unquoted));
    assert_eq!(
        parse("rebeccapurple"),
        lit("rebeccapurple", Quotes::Unquoted)
    );
    assert_eq!(
        parse("red"),
        Value::Color(r(255, 1), r(0, 1), r(0, 1), r(1, 1), Some("red".to_string()))
    );
    assert_eq!(parse("Red"), lit("Red", Quotes::Unquoted));
}

#[test]
fn hexadecimal_colors() {
    assert_eq!(
        parse("#AbC"),
        Value::Color(r(170, 1), r(187, 1), r(204, 1), r(1, 1), Some("#AbC".to_string()))
    );
    assert_eq!(
        parse("#f02a42"),
        Value::Color(r(240, 1), r(42, 1), r(66, 1), r(1, 1), Some("#f02a42".to_string()))
    );
    assert_eq!(single_value(&chars("#ab"), 0), None);
    assert_eq!(single_value(&chars("#abcd"), 0).map(|r| r.1), Some(4));
}

#[test]
fn variables_and_interpolations() {
    assert_eq!(parse("$a-b_c"), Value::Variable("a-b_c".to_string()));
    assert_eq!(single_value(&chars("$"), 0), None);
    assert_eq!(parse("#{$a + 1}"), Value::Interpolation(Box::new(op(Value::Variable("a".to_string()), Operator::Plus, Value::scalar(1)))));
}

#[test]
fn quoted_strings() {
    assert_eq!(parse("\"a b\""), lit("a b", Quotes::Double));
    assert_eq!(parse("'a \"b\"'"), lit("a \"b\"", Quotes::Single));
    assert_eq!(parse("\"a\\\"b\\n\""), lit("a\"b\\n", Quotes::Double));
    assert_eq!(parse("''"), lit("", Quotes::Single));
    assert_eq!(
        parse("\"a#{1}b\""),
        op(
            op(lit("a", Quotes::Double), Operator::Plus, Value::Interpolation(Box::new(Value::scalar(1)))),
            Operator::Plus,
            lit("b", Quotes::Double)
        )
    );
    assert_eq!(single_value(&chars("\"open"), 0), None);
}

#[test]
fn parentheses_and_brackets() {
    assert_eq!(parse("( 1 )"), Value::Paren(Box::new(Value::scalar(1))));
    assert_eq!(parse("()"), Value::List(vec![], ListSeparator::Space, false));
    assert_eq!(parse("[]"), Value::List(vec![], ListSeparator::Space, true));
    assert_eq!(parse("[1]"), Value::List(vec![Value::scalar(1)], ListSeparator::Space, true));
    assert_eq!(
        parse("[1, 2]"),
        Value::List(vec![Value::scalar(1), Value::scalar(2)], ListSeparator::Comma, true)
    );
    assert_eq!(
        parse("[[1 2]]"),
        Value::List(
            vec![Value::List(vec![Value::scalar(1), Value::scalar(2)], ListSeparator::Space, true)],
            ListSeparator::Space,
            true
        )
    );
    assert_eq!(single_value(&chars("(1"), 0), None);
}

#[test]
fn lists_are_read() {
    assert_eq!(
        parse("1 2, 3"),
        Value::List(
            vec![
                Value::List(vec![Value::scalar(1), Value::scalar(2)], ListSeparator::Space, false),
                Value::scalar(3)
            ],
            ListSeparator::Comma,
            false
        )
    );
    assert_eq!(parse("1,"), Value::List(vec![Value::scalar(1)], ListSeparator::Comma, false));
    assert_eq!(value_expression(&chars("1 , 2 ;"), 0).map(|r| r.1), Some(5));
    assert_eq!(space_list(&chars("1 2,3"), 0).map(|r| r.1), Some(3));
}

#[test]
fn operators_bind_as_they_should() {
    let one = || Value::scalar(1);
    assert_eq!(
        parse("1 + 1 * 1 - 1"),
        op(op(one(), Operator::Plus, op(one(), Operator::Multiply, one())), Operator::Minus, one())
    );
    assert_eq!(
        parse("1 < 1 + 1 and 1 == 1 or not 1"),
        op(
            op(
                op(one(), Operator::Lesser, op(one(), Operator::Plus, one())),
                Operator::And,
                op(one(), Operator::Equal, one())
            ),
            Operator::Or,
            Value::UnaryOp(Operator::Not, Box::new(one()))
        )
    );
    assert_eq!(parse("1 % 1"), op(one(), Operator::Modulo, one()));
    assert_eq!(parse("1>=1"), op(one(), Operator::GreaterEqual, one()));
    assert_eq!(parse("1 != 1"), op(one(), Operator::NotEqual, one()));
    assert_eq!(parse("1 <= 1"), op(one(), Operator::LesserEqual, one()));
    assert_eq!(parse("1 > 1"), op(one(), Operator::Greater, one()));
    assert_eq!(parse("1-1"), op(one(), Operator::Minus, one()));
    assert_eq!(
        parse("1 -1"),
        Value::List(vec![one(), Value::scalar(-1)], ListSeparator::Space, false)
    );
    assert_eq!(parse("-$a"), Value::UnaryOp(Operator::Minus, Box::new(Value::Variable("a".to_string()))));
    assert_eq!(parse("+(1)"), Value::UnaryOp(Operator::Plus, Box::new(Value::Paren(Box::new(one())))));
    assert_eq!(single_expression(&chars("1 and"), 0).map(|r| r.1), Some(1));
}

#[test]
fn slashes_remember_their_spaces() {
    let d = |s1, s2| Value::Div(Box::new(Value::scalar(1)), Box::new(Value::scalar(2)), s1, s2);
    assert_eq!(parse("1/2"), d(false, false));
    assert_eq!(parse("1 /2"), d(true, false));
    assert_eq!(parse("1/ 2"), d(false, true));
    assert_eq!(parse("1 / 2"), d(true, true));
}

#[test]
fn calls_are_read() {
    assert_eq!(parse("f()"), Value::Call("f".to_string(), vec![]));
    assert_eq!(
        parse("f( 1 2 , $a-b : 3 )"),
        Value::Call(
            "f".to_string(),
            vec![
                (None, Value::List(vec![Value::scalar(1), Value::scalar(2)], ListSeparator::Space, false)),
                (Some("a-b".to_string()), Value::scalar(3))
            ]
        )
    );
    assert_eq!(
        parse("f($a)"),
        Value::Call("f".to_string(), vec![(None, Value::Variable("a".to_string()))])
    );
    assert_eq!(single_value(&chars("f(1"), 0), None);
    assert_eq!(single_value(&chars("f(1,)"), 0), None);
}

#[test]
fn nothing_to_read() {
    assert_eq!(value_expression(&chars(""), 0), None);
    assert_eq!(value_expression(&chars(" 1"), 0), None);
    assert_eq!(value_expression(&chars(";"), 0), None);
    assert_eq!(value_expression(&chars("1"), 1), None);
}
