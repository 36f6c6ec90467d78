//! Maps keep the order of their keys and hold no key twice.
use rsass::format::OutputStyle;
use rsass::mapping::insert_entry;
use rsass::unit::Unit;
use rsass::value::{Quotes, Value};
use rsass::variablescope::ScopeImpl;

fn word(s: &str) -> Value {
    Value::Literal(s.to_string(), Quotes::Unquoted)
}

fn entries(v: &Value) -> Vec<(Value, Value)> {
    match v {
        Value::Mapping(m) => m.clone(),
        _ => panic!("no map"),
    }
}

#[test]
fn a_map_keeps_the_order_of_its_keys() {
    let m = Value::mapping(&vec![
        (word("b"), Value::scalar(1)),
        (word("a"), Value::scalar(2)),
        (word("c"), Value::scalar(3)),
    ]);
    assert_eq!(m.format(OutputStyle::Expanded), "(b: 1, a: 2, c: 3)");
}

#[test]
fn a_key_that_comes_again_takes_the_new_value_at_its_old_place() {
    let m = Value::mapping(&vec![
        (word("a"), Value::scalar(1)),
        (word("b"), Value::scalar(2)),
        (word("a"), Value::scalar(3)),
    ]);
    assert_eq!(entries(&m), vec![(word("a"), Value::scalar(3)), (word("b"), Value::scalar(2))]);
}

#[test]
fn keys_are_equal_as_values_are() {
    let quoted = Value::Literal("a".to_string(), Quotes::Double);
    let m = Value::mapping(&vec![(word("a"), Value::scalar(1)), (quoted, Value::scalar(2))]);
    assert_eq!(entries(&m), vec![(word("a"), Value::scalar(2))]);
    let px = Value::Numeric(rsass::rational::Rational::from_integer(1), Unit::Px, false, false);
    let m = Value::mapping(&vec![(Value::scalar(1), word("x")), (px.clone(), word("y"))]);
    assert_eq!(entries(&m), vec![(Value::scalar(1), word("x")), (px, word("y"))]);
}

#[test]
fn insert_entry_binds_one_key() {
    let mut m = vec![(word("a"), Value::scalar(1))];
    insert_entry(&mut m, word("b"), Value::scalar(2));
    insert_entry(&mut m, word("a"), Value::scalar(5));
    assert_eq!(m, vec![(word("a"), Value::scalar(5)), (word("b"), Value::scalar(2))]);
}

#[test]
fn evaluation_gives_a_map_without_equal_keys() {
    let two = Value::BinOp(
        Box::new(Value::scalar(1)),
        rsass::operator::Operator::Plus,
        Box::new(Value::scalar(1)),
    );
    let raw = Value::Mapping(vec![(Value::scalar(2), word("x")), (two, word("y"))]);
    let got = raw.evaluate(&ScopeImpl::new()).unwrap();
    assert_eq!(got.format(OutputStyle::Expanded), "(2: y)");
    assert_eq!(got.evaluate(&ScopeImpl::new()).unwrap(), got);
}
