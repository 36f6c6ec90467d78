use rsass::error::Error;
use rsass::operator::Operator;
use rsass::rational::Rational;
use rsass::stylesheet::MixinDeclaration;
use rsass::unit::Unit;
use rsass::value::{Quotes, Value};
use rsass::variablescope::{Scope, ScopeImpl};

fn px(n: isize, calculated: bool) -> Value {
    Value::Numeric(Rational::from_integer(n), Unit::Px, false, calculated)
}

#[test]
fn get_of_an_unbound_name_is_null() {
    assert_eq!(ScopeImpl::new().get("x"), Value::Null);
}

#[test]
fn define_evaluates_in_arithmetic_context() {
    let mut scope = ScopeImpl::new();
    let half = Value::Div(Box::new(px(3, false)), Box::new(Value::scalar(2)), false, false);
    assert_eq!(scope.define("x", &half, false), Ok(()));
    assert_eq!(
        scope.get("x"),
        Value::Numeric(Rational::new(3, 2).unwrap(), Unit::Px, false, true)
    );
}

#[test]
fn dash_and_underscore_name_the_same_variable() {
    let mut scope = ScopeImpl::new();
    scope.define("a-b", &px(1, false), false).unwrap();
    assert_eq!(scope.get("a_b"), px(1, true));
    scope.define("a_b", &px(2, false), false).unwrap();
    assert_eq!(scope.get("a-b"), px(2, true));
    assert_eq!(scope.get("A-b"), Value::Null);
}

#[test]
fn inner_scope_sees_and_hides_the_outer() {
    let mut outer = ScopeImpl::new();
    outer.define("x", &px(1, false), false).unwrap();
    outer.define("y", &px(5, false), false).unwrap();
    let mut inner = ScopeImpl::sub(outer);
    assert_eq!(inner.get("x"), px(1, true));
    inner.define("x", &px(2, false), false).unwrap();
    assert_eq!(inner.get("x"), px(2, true));
    assert_eq!(inner.get("y"), px(5, true));
    let outer = inner.into_parent().unwrap();
    assert_eq!(outer.get("x"), px(1, true));
    assert!(outer.into_parent().is_none());
}

#[test]
fn global_definition_goes_to_the_root() {
    let root = ScopeImpl::new();
    let middle = ScopeImpl::sub(root);
    let mut inner = ScopeImpl::sub(middle);
    inner.define("local", &px(7, false), false).unwrap();
    let sum = Value::BinOp(
        Box::new(Value::Variable("local".to_string())),
        Operator::Plus,
        Box::new(px(1, false)),
    );
    inner.define("g", &sum, true).unwrap();
    assert_eq!(inner.get("g"), px(8, true));
    let middle = inner.leave();
    assert_eq!(middle.get("g"), px(8, true));
    assert_eq!(middle.get("local"), Value::Null);
    let root = middle.leave();
    assert_eq!(root.get("g"), px(8, true));
    let same = root.leave();
    assert_eq!(same.get("g"), px(8, true));
}

#[test]
fn define_default_binds_only_what_is_null() {
    let mut scope = ScopeImpl::new();
    scope.define_default("x", &px(1, false), false).unwrap();
    assert_eq!(scope.get("x"), px(1, true));
    scope.define_default("x", &px(2, false), false).unwrap();
    assert_eq!(scope.get("x"), px(1, true));
    scope.define("n", &Value::Null, false).unwrap();
    scope.define_default("n", &px(3, false), false).unwrap();
    assert_eq!(scope.get("n"), px(3, true));
}

#[test]
fn define_gives_the_error_of_the_evaluation() {
    let mut scope = ScopeImpl::new();
    scope.define("x", &px(1, false), false).unwrap();
    let bad = Value::BinOp(Box::new(Value::True), Operator::Lesser, Box::new(px(1, false)));
    assert_eq!(
        scope.define("x", &bad, false),
        Err(Error::BadValue { expected: "number".to_string(), got: Value::True })
    );
    assert_eq!(scope.get("x"), px(1, true));
}

#[test]
fn evaluate_through_the_trait() {
    let mut scope = ScopeImpl::new();
    Scope::define(&mut scope, "x", &px(4, false), false).unwrap();
    assert_eq!(Scope::evaluate(&mut scope, &Value::Variable("x".to_string())), Ok(px(4, true)));
    assert_eq!(Scope::get(&scope, "x"), px(4, true));
}

#[test]
fn mixins_are_found_through_the_scopes() {
    let m = MixinDeclaration {
        name: "my-mixin".to_string(),
        args: vec![("a".to_string(), Value::Null)],
        body: vec![],
    };
    let mut outer = ScopeImpl::new();
    assert_eq!(outer.get_mixin("my-mixin"), None);
    outer.define_mixin(&m);
    let mut inner = ScopeImpl::sub(outer);
    assert_eq!(inner.get_mixin("my_mixin"), Some(m.clone()));
    let other = MixinDeclaration {
        name: "my_mixin".to_string(),
        args: vec![],
        body: vec![],
    };
    inner.define_mixin(&other);
    assert_eq!(inner.get_mixin("my-mixin"), Some(other));
    assert_eq!(inner.leave().get_mixin("my-mixin"), Some(m));
    assert_eq!(ScopeImpl::new().get_mixin("x"), None);
    assert_eq!(Value::Literal("unused".to_string(), Quotes::Unquoted).is_null(), false);
}
