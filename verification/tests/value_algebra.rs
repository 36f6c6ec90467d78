use rsass::error::Error;
use rsass::rational::Rational;
use rsass::unit::Unit;
use rsass::value::{ListSeparator, Quotes, Value};

fn r(n: isize, d: isize) -> Rational {
    Rational::new(n, d).unwrap()
}

fn lit(s: &str, q: Quotes) -> Value {
    Value::Literal(s.to_string(), q)
}

#[test]
fn scalar_is_a_plain_literal_number() {
    assert_eq!(
        Value::scalar(7),
        Value::Numeric(Rational::from_integer(7), Unit::Unitless, false, false)
    );
}

#[test]
fn bool_gives_true_or_false() {
    assert_eq!(Value::bool(true), Value::True);
    assert_eq!(Value::bool(false), Value::False);
}

#[test]
fn black_keeps_its_name() {
    let z = Rational::zero();
    assert_eq!(
        Value::black(),
        Value::Color(z, z, z, Rational::one(), Some("black".to_string()))
    );
}

#[test]
fn rgba_clamps_every_channel() {
    let c = Value::rgba(r(300, 1), r(-5, 1), r(255, 2), r(3, 2));
    assert_eq!(
        c,
        Value::Color(r(255, 1), r(0, 1), r(255, 2), r(1, 1), None)
    );
    let d = Value::rgba(r(0, 1), r(255, 1), r(1, 1), r(-1, 2));
    assert_eq!(d, Value::Color(r(0, 1), r(255, 1), r(1, 1), r(0, 1), None));
}

#[test]
fn kind_names() {
    assert_eq!(Value::black().type_of(), "color");
    assert_eq!(lit("a", Quotes::Double).type_of(), "string");
    assert_eq!(Value::scalar(1).type_of(), "number");
    assert_eq!(Value::List(vec![], ListSeparator::Space, false).type_of(), "list");
    assert_eq!(Value::Function("f".to_string(), None).type_of(), "function");
    assert_eq!(Value::True.type_of(), "bool");
    assert_eq!(Value::False.type_of(), "bool");
    assert_eq!(Value::Null.type_of(), "null");
    assert_eq!(Value::Mapping(vec![]).type_of(), "unknown");
}

#[test]
fn calculated_values() {
    assert!(!Value::scalar(1).is_calculated());
    assert!(Value::Numeric(r(1, 1), Unit::Px, false, true).is_calculated());
    assert!(Value::rgba(r(1, 1), r(1, 1), r(1, 1), r(1, 1)).is_calculated());
    assert!(!Value::black().is_calculated());
    assert!(!Value::True.is_calculated());
}

#[test]
fn into_calculated_goes_through_lists() {
    let v = Value::List(
        vec![
            Value::scalar(1),
            Value::List(vec![Value::scalar(2), lit("x", Quotes::Unquoted)], ListSeparator::Comma, true),
            Value::Paren(Box::new(Value::scalar(3))),
        ],
        ListSeparator::Space,
        false,
    );
    let one = Value::Numeric(r(1, 1), Unit::Unitless, false, true);
    let two = Value::Numeric(r(2, 1), Unit::Unitless, false, true);
    assert_eq!(
        v.into_calculated(),
        Value::List(
            vec![
                one,
                Value::List(vec![two, lit("x", Quotes::Unquoted)], ListSeparator::Comma, true),
                Value::Paren(Box::new(Value::scalar(3))),
            ],
            ListSeparator::Space,
            false,
        )
    );
}

#[test]
fn truth() {
    assert!(!Value::False.is_true());
    assert!(!Value::Null.is_true());
    assert!(Value::True.is_true());
    assert!(Value::scalar(0).is_true());
    assert!(lit("", Quotes::Unquoted).is_true());
    assert!(Value::List(vec![], ListSeparator::Space, false).is_true());
}

#[test]
fn null_values() {
    assert!(Value::Null.is_null());
    assert!(Value::List(vec![], ListSeparator::Space, false).is_null());
    assert!(Value::List(
        vec![Value::Null, Value::List(vec![Value::Null], ListSeparator::Comma, false)],
        ListSeparator::Space,
        false
    )
    .is_null());
    assert!(!Value::List(vec![Value::Null], ListSeparator::Space, true).is_null());
    assert!(!Value::List(vec![Value::Null, Value::False], ListSeparator::Space, false).is_null());
    assert!(!Value::False.is_null());
}

#[test]
fn integer_value_of_a_whole_number() {
    assert_eq!(Value::Numeric(r(-12, 1), Unit::Px, false, true).integer_value(), Ok(-12));
}

#[test]
fn integer_value_refuses_everything_else() {
    let half = Value::Numeric(r(1, 2), Unit::Unitless, false, false);
    assert_eq!(
        half.integer_value(),
        Err(Error::BadValue { expected: "integer".to_string(), got: half.clone() })
    );
    assert_eq!(
        Value::True.integer_value(),
        Err(Error::BadValue { expected: "integer".to_string(), got: Value::True })
    );
}

#[test]
fn unquote_decodes_escapes() {
    assert_eq!(lit("a\\0b", Quotes::Double).unquote(), lit("a\u{fffd}b", Quotes::Unquoted));
    assert_eq!(lit("\\1\\9", Quotes::Single).unquote(), lit("\u{1}\u{9}", Quotes::Unquoted));
    assert_eq!(lit("\\a\\f", Quotes::Double).unquote(), lit("\u{a}\u{f}", Quotes::Unquoted));
    assert_eq!(lit("\\A\\F", Quotes::Double).unquote(), lit("\u{a}\u{f}", Quotes::Unquoted));
    assert_eq!(lit("\\g\\\"\\\\", Quotes::Double).unquote(), lit("g\"\\", Quotes::Unquoted));
    assert_eq!(lit("end\\", Quotes::Double).unquote(), lit("end\\", Quotes::Unquoted));
}

#[test]
fn unquote_leaves_unquoted_strings_and_other_values() {
    assert_eq!(lit("a\\0b", Quotes::Unquoted).unquote(), lit("a\\0b", Quotes::Unquoted));
    assert_eq!(Value::scalar(3).unquote(), Value::scalar(3));
    assert_eq!(
        Value::Paren(Box::new(lit("x", Quotes::Double))).unquote(),
        Value::Paren(Box::new(lit("x", Quotes::Double)))
    );
}

#[test]
fn unquote_goes_through_lists() {
    let v = Value::List(
        vec![lit("a", Quotes::Double), lit("b\\0", Quotes::Unquoted), Value::Null],
        ListSeparator::Comma,
        true,
    );
    assert_eq!(
        v.unquote(),
        Value::List(
            vec![lit("a", Quotes::Unquoted), lit("b\\0", Quotes::Unquoted), Value::Null],
            ListSeparator::Comma,
            true,
        )
    );
}

#[test]
fn unquote_twice_is_unquote_once() {
    let v = Value::List(
        vec![lit("\\\\0", Quotes::Double), lit("\\61", Quotes::Single)],
        ListSeparator::Space,
        false,
    );
    let once = v.clone().unquote();
    assert_eq!(once.clone().unquote(), once);
    assert_eq!(
        once,
        Value::List(
            vec![lit("\\0", Quotes::Unquoted), lit("\u{6}1", Quotes::Unquoted)],
            ListSeparator::Space,
            false,
        )
    );
}

#[test]
fn unrequote_picks_the_quotes() {
    assert_eq!(lit("say \"hi\"", Quotes::Double).unrequote(), lit("say \"hi\"", Quotes::Single));
    assert_eq!(lit("it's \"x\"", Quotes::Single).unrequote(), lit("it's \"x\"", Quotes::Double));
    assert_eq!(lit("plain", Quotes::Single).unrequote(), lit("plain", Quotes::Double));
    assert_eq!(lit("plain", Quotes::Unquoted).unrequote(), lit("plain", Quotes::Unquoted));
}

#[test]
fn unrequote_keeps_some_escapes() {
    assert_eq!(lit("a\\\\b", Quotes::Double).unrequote(), lit("a\\\\b", Quotes::Double));
    assert_eq!(lit("\\a\\A", Quotes::Double).unrequote(), lit("\\a\\a", Quotes::Double));
    assert_eq!(lit("\\b\\0", Quotes::Double).unrequote(), lit("\u{b}\u{fffd}", Quotes::Double));
}

#[test]
fn items_of_a_list_a_mapping_and_a_single_value() {
    let list = Value::List(vec![Value::scalar(1), Value::Null], ListSeparator::Comma, true);
    assert_eq!(list.iter_items(), vec![Value::scalar(1), Value::Null]);
    let map = Value::Mapping(vec![
        (lit("a", Quotes::Unquoted), Value::scalar(1)),
        (lit("b", Quotes::Unquoted), Value::scalar(2)),
    ]);
    assert_eq!(
        map.iter_items(),
        vec![
            Value::List(vec![lit("a", Quotes::Unquoted), Value::scalar(1)], ListSeparator::Space, false),
            Value::List(vec![lit("b", Quotes::Unquoted), Value::scalar(2)], ListSeparator::Space, false),
        ]
    );
    assert_eq!(Value::True.iter_items(), vec![Value::True]);
}
