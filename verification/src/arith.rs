//! What the operators do to values: arithmetic on numbers and colors,
//! comparison, logic and the joining of strings.
use crate::error::{Error, ErrorView};
use crate::format::OutputStyle;
use crate::operator::Operator;
use crate::rational::{fit, held, Ratio, Rational};
use crate::text::{chars_of, push_all, string_of};
use crate::unit::{Unit, UnitView};
use crate::value::{clamp, opt_text, Quotes, Value, ValueView};
use vstd::prelude::*;

verus! {

/// The model of the outcome of an evaluation.
pub open spec fn outcome(r: Result<Value, Error>) -> Result<ValueView, ErrorView> {
    match r {
        Ok(v) => Ok(v@),
        Err(e) => Err(e@),
    }
}

/// The result of an arithmetic operator on two fractions, where it is
/// defined and a [`Rational`] can hold it. Nothing can be divided by zero.
pub open spec fn rational_op(op: Operator, x: Ratio, y: Ratio) -> Option<Ratio> {
    match op {
        Operator::Plus => fit(x.add(y)),
        Operator::Minus => fit(x.sub(y)),
        Operator::Multiply => fit(x.mul(y)),
        Operator::Divide => if y.num == 0 {
            None
        } else {
            fit(x.div(y))
        },
        Operator::Modulo => if y.num == 0 {
            None
        } else {
            fit(x.rem(y))
        },
        _ => None,
    }
}

/// The unit of the result of `+`, `-`, `*` or `%` on numbers with the given
/// units: if one number has no unit, the unit of the other; for `+` and `-`
/// a unit that both have. Any other pair of units has no result.
pub open spec fn joint_unit(op: Operator, au: UnitView, bu: UnitView) -> Option<UnitView> {
    if bu.is_none() {
        Some(au)
    } else if au.is_none() {
        Some(bu)
    } else if (op == Operator::Plus || op == Operator::Minus) && au == bu {
        Some(au)
    } else {
        None
    }
}

/// Whether numbers with the given units can be ordered: the units are the
/// same, or one of the numbers has none.
pub open spec fn comparable(au: UnitView, bu: UnitView) -> bool {
    au == bu || au.is_none() || bu.is_none()
}

/// The operation kept as it stands, for operands that it has no rule for.
pub open spec fn symbolic(op: Operator, a: ValueView, b: ValueView) -> ValueView {
    ValueView::BinOp(Box::new(a), op, Box::new(b))
}

/// The text that a value adds to a joined string: the text of a string
/// without its quotes, and any other value as it is written.
pub open spec fn joined_text(v: ValueView) -> Seq<char> {
    match v {
        ValueView::Literal(s, _) => s,
        other => other.format(OutputStyle::Expanded),
    }
}

/// The string that `+` makes of two values of which one is a string: their
/// texts one after the other, with the quotes of the left value if it is a
/// string, else those of the right one.
pub open spec fn concat(a: ValueView, b: ValueView) -> ValueView {
    let quotes = match (a, b) {
        (ValueView::Literal(_, q), _) => q,
        (_, ValueView::Literal(_, q)) => q,
        _ => Quotes::Unquoted,
    };
    ValueView::Literal(joined_text(a) + joined_text(b), quotes)
}

/// What `+`, `-`, `*` or `%` gives for numbers and colors, where there is a
/// rule and the result can be held: a number for two numbers whose units
/// go together, and for `+` and `-` a color without a name for a color and
/// a number or two colors, channel by channel and with the alpha of the
/// left color.
pub open spec fn arith_rule(op: Operator, a: ValueView, b: ValueView) -> Option<ValueView> {
    match (a, b) {
        (ValueView::Numeric(x, au, _, _), ValueView::Numeric(y, bu, _, _)) => {
            if op == Operator::Plus || op == Operator::Minus || op == Operator::Multiply || op
                == Operator::Modulo {
                match (joint_unit(op, au, bu), rational_op(op, x, y)) {
                    (Some(u), Some(q)) => Some(ValueView::Numeric(q, u, false, true)),
                    _ => None,
                }
            } else {
                None
            }
        },
        (ValueView::Color(r, g, b, alpha, _), ValueView::Numeric(n, _, _, _)) => {
            if op == Operator::Plus || op == Operator::Minus {
                color_rule(op, r, g, b, alpha, n, n, n)
            } else {
                None
            }
        },
        (ValueView::Color(r, g, b, alpha, _), ValueView::Color(r2, g2, b2, _, _)) => {
            if op == Operator::Plus || op == Operator::Minus {
                color_rule(op, r, g, b, alpha, r2, g2, b2)
            } else {
                None
            }
        },
        _ => None,
    }
}

/// A color changed channel by channel, each result held to the range from
/// 0 to 255; the alpha stays and the name goes.
pub open spec fn color_rule(
    op: Operator,
    r: Ratio,
    g: Ratio,
    b: Ratio,
    alpha: Ratio,
    x: Ratio,
    y: Ratio,
    z: Ratio,
) -> Option<ValueView> {
    match (rational_op(op, r, x), rational_op(op, g, y), rational_op(op, b, z)) {
        (Some(r2), Some(g2), Some(b2)) => Some(
            ValueView::Color(clamp(r2, 255), clamp(g2, 255), clamp(b2, 255), alpha, None),
        ),
        _ => None,
    }
}

/// What a division gives. Two numbers give a number if the divisor is not
/// zero and has no unit (the unit of the dividend stays) or the same unit
/// as the dividend (no unit is left). A color and a number without unit
/// other than zero give the color divided channel by channel. Everything
/// else stays a division: with the spaces as they were written where a
/// number is divided by zero, and without spaces otherwise.
pub open spec fn divide(a: ValueView, b: ValueView, space1: bool, space2: bool) -> ValueView {
    let plain = ValueView::Div(Box::new(a), Box::new(b), false, false);
    match (a, b) {
        (
            ValueView::Color(r, g, bl, alpha, _),
            ValueView::Numeric(n, UnitView::Known(Unit::Unitless), _, _),
        ) => {
            match (
                rational_op(Operator::Divide, r, n),
                rational_op(Operator::Divide, g, n),
                rational_op(Operator::Divide, bl, n),
            ) {
                (Some(r2), Some(g2), Some(b2)) => ValueView::rgba(r2, g2, b2, alpha),
                _ => plain,
            }
        },
        (ValueView::Numeric(x, au, _, _), ValueView::Numeric(y, bu, _, _)) => {
            if y.num == 0 {
                ValueView::Div(Box::new(a), Box::new(b), space1, space2)
            } else {
                match rational_op(Operator::Divide, x, y) {
                    Some(q) => if bu.is_none() {
                        ValueView::Numeric(q, au, false, true)
                    } else if au == bu {
                        ValueView::Numeric(q, UnitView::Known(Unit::Unitless), false, true)
                    } else {
                        plain
                    },
                    None => plain,
                }
            }
        },
        _ => plain,
    }
}

/// Whether two values are equal. Numbers are equal if they are the same
/// fraction with the same unit, whatever their flags; strings if they have
/// the same text, whatever their quotes; everything else if it is the same
/// kind of value and made of equal parts.
pub open spec fn equal(a: ValueView, b: ValueView) -> bool
    decreases a,
{
    match (a, b) {
        (ValueView::Numeric(x, au, _, _), ValueView::Numeric(y, bu, _, _)) => x == y && au == bu,
        (ValueView::Literal(s, _), ValueView::Literal(t, _)) => s == t,
        (ValueView::List(x, sep1, br1), ValueView::List(y, sep2, br2)) => sep1 == sep2 && br1
            == br2 && x.len() == y.len() && forall|i: int|
            0 <= i < x.len() ==> equal(#[trigger] x[i], y[i]),
        (ValueView::Call(n1, x), ValueView::Call(n2, y)) => n1 == n2 && x.len() == y.len()
            && forall|i: int|
            0 <= i < x.len() ==> (#[trigger] x[i]).0 == y[i].0 && equal(x[i].1, y[i].1),
        (ValueView::Mapping(x), ValueView::Mapping(y)) => x.len() == y.len() && forall|i: int|
            0 <= i < x.len() ==> equal((#[trigger] x[i]).0, y[i].0) && equal(x[i].1, y[i].1),
        (ValueView::Div(a1, b1, s1, s2), ValueView::Div(a2, b2, t1, t2)) => equal(*a1, *a2)
            && equal(*b1, *b2) && s1 == t1 && s2 == t2,
        (ValueView::BinOp(a1, op1, b1), ValueView::BinOp(a2, op2, b2)) => equal(*a1, *a2) && op1
            == op2 && equal(*b1, *b2),
        (ValueView::UnaryOp(op1, a1), ValueView::UnaryOp(op2, a2)) => op1 == op2 && equal(
            *a1,
            *a2,
        ),
        (ValueView::Paren(a1), ValueView::Paren(a2)) => equal(*a1, *a2),
        (ValueView::Interpolation(a1), ValueView::Interpolation(a2)) => equal(*a1, *a2),
        (ValueView::Color(r1, g1, b1, a1, n1), ValueView::Color(r2, g2, b2, a2, n2)) => r1 == r2
            && g1 == g2 && b1 == b2 && a1 == a2 && n1 == n2,
        (ValueView::Function(n1, f1), ValueView::Function(n2, f2)) => n1 == n2 && f1 == f2,
        (ValueView::Variable(n1), ValueView::Variable(n2)) => n1 == n2,
        (ValueView::Null, ValueView::Null) => true,
        (ValueView::True, ValueView::True) => true,
        (ValueView::False, ValueView::False) => true,
        _ => false,
    }
}

/// The order of two numbers, where it is defined: for numbers whose units
/// are the same or of which one has no unit. The error names the operand
/// that is no number, or the right one if the units differ.
pub open spec fn ordering(op: Operator, a: ValueView, b: ValueView) -> Result<
    ValueView,
    ErrorView,
> {
    match (a, b) {
        (ValueView::Numeric(x, au, _, _), ValueView::Numeric(y, bu, _, _)) => {
            if comparable(au, bu) {
                Ok(
                    ValueView::bool(
                        match op {
                            Operator::Greater => y.lt(x),
                            Operator::GreaterEqual => y.le(x),
                            Operator::Lesser => x.lt(y),
                            _ => x.le(y),
                        },
                    ),
                )
            } else {
                Err(ErrorView::BadValue { expected: "number with the same unit"@, got: b })
            }
        },
        (ValueView::Numeric(..), _) => Err(ErrorView::BadValue { expected: "number"@, got: b }),
        _ => Err(ErrorView::BadValue { expected: "number"@, got: a }),
    }
}

/// What a binary operator gives for two evaluated operands.
pub open spec fn apply(op: Operator, a: ValueView, b: ValueView) -> Result<ValueView, ErrorView> {
    match op {
        Operator::And => Ok(
            if a.is_true() {
                b
            } else {
                a
            },
        ),
        Operator::Or => Ok(
            if a.is_true() {
                a
            } else {
                b
            },
        ),
        Operator::Equal => Ok(ValueView::bool(equal(a, b))),
        Operator::NotEqual => Ok(ValueView::bool(!equal(a, b))),
        Operator::Greater | Operator::GreaterEqual | Operator::Lesser | Operator::LesserEqual => {
            ordering(op, a, b)
        },
        Operator::Plus => Ok(
            match arith_rule(op, a, b) {
                Some(v) => v,
                None => if a is Literal || b is Literal {
                    concat(a, b)
                } else {
                    symbolic(op, a, b)
                },
            },
        ),
        Operator::Minus | Operator::Multiply | Operator::Modulo => Ok(
            match arith_rule(op, a, b) {
                Some(v) => v,
                None => symbolic(op, a, b),
            },
        ),
        Operator::Divide => Ok(divide(a, b, false, false)),
        Operator::Not => Ok(symbolic(op, a, b)),
    }
}

/// The result of an arithmetic operator on two numbers, where it is defined
/// and fits.
pub fn rational_apply(op: Operator, x: &Rational, y: &Rational) -> (r: Option<Rational>)
    ensures
        held(r) == rational_op(op, x@, y@),
{
    match op {
        Operator::Plus => x.checked_add(y),
        Operator::Minus => x.checked_sub(y),
        Operator::Multiply => x.checked_mul(y),
        Operator::Divide => x.checked_div(y),
        Operator::Modulo => x.checked_rem(y),
        _ => None,
    }
}

/// The executable form of [`joint_unit`].
fn unit_for_result(op: Operator, au: &Unit, bu: &Unit) -> (r: Option<Unit>)
    ensures
        match r {
            Some(u) => joint_unit(op, au@, bu@) == Some(u@),
            None => joint_unit(op, au@, bu@) is None,
        },
{
    let additive: bool = match op {
        Operator::Plus | Operator::Minus => true,
        _ => false,
    };
    if bu.is_none() {
        Some(au.dup())
    } else if au.is_none() {
        Some(bu.dup())
    } else if additive && au.same(bu) {
        Some(au.dup())
    } else {
        None
    }
}

/// A channel held to the range from 0 to 255.
fn cap_channel(n: Rational) -> (r: Rational)
    ensures
        r@ == clamp(n@, 255),
{
    let top = Rational::from_integer(255);
    if top.lt(&n) {
        top
    } else if n.is_negative() {
        Rational::zero()
    } else {
        n
    }
}

/// The executable form of [`color_rule`].
fn color_apply(
    op: Operator,
    r: &Rational,
    g: &Rational,
    b: &Rational,
    alpha: &Rational,
    x: &Rational,
    y: &Rational,
    z: &Rational,
) -> (res: Option<Value>)
    ensures
        match res {
            Some(v) => color_rule(op, r@, g@, b@, alpha@, x@, y@, z@) == Some(v@),
            None => color_rule(op, r@, g@, b@, alpha@, x@, y@, z@) is None,
        },
{
    match (rational_apply(op, r, x), rational_apply(op, g, y), rational_apply(op, b, z)) {
        (Some(r2), Some(g2), Some(b2)) => Some(
            Value::Color(cap_channel(r2), cap_channel(g2), cap_channel(b2), *alpha, None),
        ),
        _ => None,
    }
}

/// The executable form of [`arith_rule`].
fn arith_apply(op: Operator, a: &Value, b: &Value) -> (res: Option<Value>)
    ensures
        match res {
            Some(v) => arith_rule(op, a@, b@) == Some(v@),
            None => arith_rule(op, a@, b@) is None,
        },
{
    let additive: bool = match op {
        Operator::Plus | Operator::Minus => true,
        _ => false,
    };
    let numeric: bool = match op {
        Operator::Plus | Operator::Minus | Operator::Multiply | Operator::Modulo => true,
        _ => false,
    };
    match (a, b) {
        (Value::Numeric(x, au, _, _), Value::Numeric(y, bu, _, _)) => {
            if numeric {
                match (unit_for_result(op, au, bu), rational_apply(op, x, y)) {
                    (Some(u), Some(q)) => Some(Value::Numeric(q, u, false, true)),
                    _ => None,
                }
            } else {
                None
            }
        },
        (Value::Color(r, g, b, alpha, _), Value::Numeric(n, _, _, _)) => {
            if additive {
                color_apply(op, r, g, b, alpha, n, n, n)
            } else {
                None
            }
        },
        (Value::Color(r, g, b, alpha, _), Value::Color(r2, g2, b2, _, _)) => {
            if additive {
                color_apply(op, r, g, b, alpha, r2, g2, b2)
            } else {
                None
            }
        },
        _ => None,
    }
}

/// The executable form of [`joined_text`].
fn joined_chars(v: &Value) -> (r: Vec<char>)
    ensures
        r@ == joined_text(v@),
{
    match v {
        Value::Literal(s, _) => chars_of(s.as_str()),
        other => other.format_chars(OutputStyle::Expanded),
    }
}

/// The executable form of [`concat`].
fn concat_values(a: &Value, b: &Value) -> (r: Value)
    ensures
        r@ == concat(a@, b@),
{
    let quotes = match (a, b) {
        (Value::Literal(_, q), _) => *q,
        (_, Value::Literal(_, q)) => *q,
        _ => Quotes::Unquoted,
    };
    let mut text = joined_chars(a);
    let right = joined_chars(b);
    push_all(&mut text, &right);
    Value::Literal(string_of(&text), quotes)
}

/// What a division gives: see [`divide`].
pub fn divide_values(a: Value, b: Value, space1: bool, space2: bool) -> (r: Value)
    ensures
        r@ == divide(a@, b@, space1, space2),
{
    let mut result: Option<Value> = None;
    let mut keep_spaces: bool = false;
    match (&a, &b) {
        (Value::Color(r, g, bl, alpha, _), Value::Numeric(n, Unit::Unitless, _, _)) => {
            match (
                rational_apply(Operator::Divide, r, n),
                rational_apply(Operator::Divide, g, n),
                rational_apply(Operator::Divide, bl, n),
            ) {
                (Some(r2), Some(g2), Some(b2)) => {
                    result = Some(Value::rgba(r2, g2, b2, *alpha));
                },
                _ => {},
            }
        },
        (Value::Numeric(x, au, _, _), Value::Numeric(y, bu, _, _)) => {
            if y.is_zero() {
                keep_spaces = true;
            } else {
                match rational_apply(Operator::Divide, x, y) {
                    Some(q) => {
                        if bu.is_none() {
                            result = Some(Value::Numeric(q, au.dup(), false, true));
                        } else if au.same(bu) {
                            result = Some(Value::Numeric(q, Unit::Unitless, false, true));
                        }
                    },
                    None => {},
                }
            }
        },
        _ => {},
    }
    match result {
        Some(v) => v,
        None => if keep_spaces {
            Value::Div(Box::new(a), Box::new(b), space1, space2)
        } else {
            Value::Div(Box::new(a), Box::new(b), false, false)
        },
    }
}

/// Whether two optional strings hold the same text, or both none.
pub fn same_opt_text(a: &Option<String>, b: &Option<String>) -> (r: bool)
    ensures
        r == (opt_text(*a) == opt_text(*b)),
{
    match (a, b) {
        (Some(x), Some(y)) => *x == *y,
        (None, None) => true,
        _ => false,
    }
}

impl Value {
    /// Whether two values are equal: see [`equal`].
    pub fn equals(&self, other: &Value) -> (r: bool)
        ensures
            r == equal(self@, other@),
        decreases self,
    {
        match (self, other) {
            (Value::Numeric(x, au, _, _), Value::Numeric(y, bu, _, _)) => x.same(y) && au.same(bu),
            (Value::Literal(s, _), Value::Literal(t, _)) => *s == *t,
            (Value::List(x, sep1, br1), Value::List(y, sep2, br2)) => {
                if !(*sep1 == *sep2 && *br1 == *br2 && x.len() == y.len()) {
                    return false;
                }
                let mut i: usize = 0;
                while i < x.len()
                    invariant
                        self is List,
                        self->List_0 == *x,
                        other is List,
                        other->List_0 == *y,
                        x.len() == y.len(),
                        i <= x.len(),
                        forall|j: int| 0 <= j < i ==> equal(#[trigger] x[j]@, y[j]@),
                    decreases x.len() - i,
                {
                    if !x[i].equals(&y[i]) {
                        assert(!equal(self@->List_0[i as int], other@->List_0[i as int]));
                        return false;
                    }
                    i += 1;
                }
                assert forall|j: int| 0 <= j < self@->List_0.len() implies equal(
                    #[trigger] self@->List_0[j],
                    other@->List_0[j],
                ) by {
                    assert(equal(x[j]@, y[j]@));
                }
                true
            },
            (Value::Call(n1, x), Value::Call(n2, y)) => {
                if !(*n1 == *n2 && x.len() == y.len()) {
                    return false;
                }
                let mut i: usize = 0;
                while i < x.len()
                    invariant
                        self is Call,
                        self->Call_1 == *x,
                        other is Call,
                        other->Call_1 == *y,
                        x.len() == y.len(),
                        i <= x.len(),
                        forall|j: int|
                            0 <= j < i ==> opt_text((#[trigger] x[j]).0) == opt_text(y[j].0)
                                && equal(x[j].1@, y[j].1@),
                    decreases x.len() - i,
                {
                    if !(same_opt_text(&x[i].0, &y[i].0) && x[i].1.equals(&y[i].1)) {
                        assert(!((self@->Call_1[i as int]).0 == other@->Call_1[i as int].0
                            && equal(self@->Call_1[i as int].1, other@->Call_1[i as int].1)));
                        return false;
                    }
                    i += 1;
                }
                assert forall|j: int| 0 <= j < self@->Call_1.len() implies (
                #[trigger] self@->Call_1[j]).0 == other@->Call_1[j].0 && equal(
                    self@->Call_1[j].1,
                    other@->Call_1[j].1,
                ) by {
                }
                true
            },
            (Value::Mapping(x), Value::Mapping(y)) => {
                if x.len() != y.len() {
                    return false;
                }
                let mut i: usize = 0;
                while i < x.len()
                    invariant
                        self is Mapping,
                        self->Mapping_0 == *x,
                        other is Mapping,
                        other->Mapping_0 == *y,
                        x.len() == y.len(),
                        i <= x.len(),
                        forall|j: int|
                            0 <= j < i ==> equal((#[trigger] x[j]).0@, y[j].0@) && equal(
                                x[j].1@,
                                y[j].1@,
                            ),
                    decreases x.len() - i,
                {
                    if !(x[i].0.equals(&y[i].0) && x[i].1.equals(&y[i].1)) {
                        assert(!(equal(
                            (self@->Mapping_0[i as int]).0,
                            other@->Mapping_0[i as int].0,
                        ) && equal(self@->Mapping_0[i as int].1, other@->Mapping_0[i as int].1)));
                        return false;
                    }
                    i += 1;
                }
                assert forall|j: int| 0 <= j < self@->Mapping_0.len() implies equal(
                    (#[trigger] self@->Mapping_0[j]).0,
                    other@->Mapping_0[j].0,
                ) && equal(self@->Mapping_0[j].1, other@->Mapping_0[j].1) by {
                }
                true
            },
            (Value::Div(a1, b1, s1, s2), Value::Div(a2, b2, t1, t2)) => a1.equals(a2) && b1.equals(
                b2,
            ) && *s1 == *t1 && *s2 == *t2,
            (Value::BinOp(a1, op1, b1), Value::BinOp(a2, op2, b2)) => a1.equals(a2) && *op1
                == *op2 && b1.equals(b2),
            (Value::UnaryOp(op1, a1), Value::UnaryOp(op2, a2)) => *op1 == *op2 && a1.equals(a2),
            (Value::Paren(a1), Value::Paren(a2)) => a1.equals(a2),
            (Value::Interpolation(a1), Value::Interpolation(a2)) => a1.equals(a2),
            (Value::Color(r1, g1, b1, a1, n1), Value::Color(r2, g2, b2, a2, n2)) => r1.same(r2)
                && g1.same(g2) && b1.same(b2) && a1.same(a2) && same_opt_text(n1, n2),
            (Value::Function(n1, f1), Value::Function(n2, f2)) => *n1 == *n2 && *f1 == *f2,
            (Value::Variable(n1), Value::Variable(n2)) => *n1 == *n2,
            (Value::Null, Value::Null) => true,
            (Value::True, Value::True) => true,
            (Value::False, Value::False) => true,
            _ => false,
        }
    }
}

/// The executable form of [`ordering`].
fn order_values(op: Operator, a: &Value, b: &Value) -> (r: Result<Value, Error>)
    ensures
        outcome(r) == ordering(op, a@, b@),
{
    match (a, b) {
        (Value::Numeric(x, au, _, _), Value::Numeric(y, bu, _, _)) => {
            if au.same(bu) || au.is_none() || bu.is_none() {
                Ok(
                    Value::bool(
                        match op {
                            Operator::Greater => y.lt(x),
                            Operator::GreaterEqual => y.le(x),
                            Operator::Lesser => x.lt(y),
                            _ => x.le(y),
                        },
                    ),
                )
            } else {
                Err(Error::bad_value("number with the same unit", b))
            }
        },
        (Value::Numeric(..), _) => Err(Error::bad_value("number", b)),
        _ => Err(Error::bad_value("number", a)),
    }
}

impl Operator {
    /// What the operator gives for two evaluated operands. Only an ordering
    /// of values that have no order is an error; an operation without a
    /// rule for its operands is given back as it stands.
    pub fn eval(&self, a: Value, b: Value) -> (r: Result<Value, Error>)
        ensures
            outcome(r) == apply(*self, a@, b@),
    {
        match self {
            Operator::And => Ok(
                if a.is_true() {
                    b
                } else {
                    a
                },
            ),
            Operator::Or => Ok(
                if a.is_true() {
                    a
                } else {
                    b
                },
            ),
            Operator::Equal => Ok(Value::bool(a.equals(&b))),
            Operator::NotEqual => Ok(Value::bool(!a.equals(&b))),
            Operator::Greater
            | Operator::GreaterEqual
            | Operator::Lesser
            | Operator::LesserEqual => order_values(*self, &a, &b),
            Operator::Plus => {
                match arith_apply(*self, &a, &b) {
                    Some(v) => Ok(v),
                    None => {
                        let a_literal: bool = match &a {
                            Value::Literal(..) => true,
                            _ => false,
                        };
                        let b_literal: bool = match &b {
                            Value::Literal(..) => true,
                            _ => false,
                        };
                        if a_literal || b_literal {
                            Ok(concat_values(&a, &b))
                        } else {
                            Ok(Value::BinOp(Box::new(a), *self, Box::new(b)))
                        }
                    },
                }
            },
            Operator::Minus | Operator::Multiply | Operator::Modulo => {
                match arith_apply(*self, &a, &b) {
                    Some(v) => Ok(v),
                    None => Ok(Value::BinOp(Box::new(a), *self, Box::new(b))),
                }
            },
            Operator::Divide => Ok(divide_values(a, b, false, false)),
            Operator::Not => Ok(Value::BinOp(Box::new(a), *self, Box::new(b))),
        }
    }
}

} // verus!
