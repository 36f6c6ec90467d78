//! Values: the tagged union that expressions are made of, before and
//! after evaluation, and its mathematical model.
use crate::error::{Error, ErrorView};
use crate::functions::SassFunction;
use crate::operator::Operator;
use crate::rational::{Ratio, Rational};
use crate::unit::{Unit, UnitView};
use vstd::prelude::*;

verus! {

/// A literal value can be double-quoted, single-quoted or not quoted.
#[derive(Clone, Copy, Debug, PartialEq, Eq, Structural)]
pub enum Quotes {
    Double,
    Single,
    Unquoted,
}

/// The difference between a comma-separated and a whitespace-separated
/// list.
#[derive(Clone, Copy, Debug, PartialEq, Eq, Structural)]
pub enum ListSeparator {
    Comma,
    Space,
}

/// The arguments of a call: each a value, some with a name.
pub type CallArgs = Vec<(Option<String>, Value)>;

/// A value.
#[derive(Debug, PartialEq, Eq)]
pub enum Value {
    /// A function call that was not, or not yet, evaluated.
    Call(String, CallArgs),
    /// A function as a value: its name, and the function if one is bound.
    Function(String, Option<SassFunction>),
    /// Sometimes an actual division, sometimes "a/b". The booleans tell if
    /// there is whitespace before and after the slash.
    Div(Box<Value>, Box<Value>, bool, bool),
    Literal(String, Quotes),
    /// A comma- or space-separated list of values, with or without
    /// brackets.
    List(Vec<Value>, ListSeparator, bool),
    /// A rational number with a unit. The first flag is true for a value
    /// with an explicit `+` sign, the second for a calculated value.
    Numeric(Rational, Unit, bool, bool),
    /// Red, green, blue and alpha, and the spelling in the source if the
    /// color was written out and not computed.
    Color(Rational, Rational, Rational, Rational, Option<String>),
    Null,
    True,
    False,
    /// A binary operation, two operands and an operator.
    BinOp(Box<Value>, Operator, Box<Value>),
    UnaryOp(Operator, Box<Value>),
    /// Keys and values in the order in which they were inserted.
    Mapping(Vec<(Value, Value)>),
    /// Parentheses mean that the value is to be evaluated numerically if
    /// possible.
    Paren(Box<Value>),
    Variable(String),
    Interpolation(Box<Value>),
}

/// The mathematical model of a [`Value`]: text is a sequence of
/// characters, a number a fraction of unbounded integers.
pub enum ValueView {
    Call(Seq<char>, Seq<(Option<Seq<char>>, ValueView)>),
    Function(Seq<char>, Option<SassFunction>),
    Div(Box<ValueView>, Box<ValueView>, bool, bool),
    Literal(Seq<char>, Quotes),
    List(Seq<ValueView>, ListSeparator, bool),
    Numeric(Ratio, UnitView, bool, bool),
    Color(Ratio, Ratio, Ratio, Ratio, Option<Seq<char>>),
    Null,
    True,
    False,
    BinOp(Box<ValueView>, Operator, Box<ValueView>),
    UnaryOp(Operator, Box<ValueView>),
    Mapping(Seq<(ValueView, ValueView)>),
    Paren(Box<ValueView>),
    Variable(Seq<char>),
    Interpolation(Box<ValueView>),
}

/// The text of an optional string.
pub open spec fn opt_text(o: Option<String>) -> Option<Seq<char>> {
    match o {
        Some(s) => Some(s@),
        None => None,
    }
}

impl Value {
    /// The model of the value.
    pub open spec fn model(&self) -> ValueView
        decreases self,
    {
        match self {
            Value::Call(name, args) => ValueView::Call(
                name@,
                Seq::new(
                    args.len() as nat,
                    |i: int|
                        if 0 <= i < args.len() {
                            (opt_text(args[i].0), args[i].1.model())
                        } else {
                            (None, ValueView::Null)
                        },
                ),
            ),
            Value::Function(name, f) => ValueView::Function(name@, *f),
            Value::Div(a, b, s1, s2) => ValueView::Div(
                Box::new(a.model()),
                Box::new(b.model()),
                *s1,
                *s2,
            ),
            Value::Literal(s, q) => ValueView::Literal(s@, *q),
            Value::List(v, sep, bracketed) => ValueView::List(
                Seq::new(
                    v.len() as nat,
                    |i: int|
                        if 0 <= i < v.len() {
                            v[i].model()
                        } else {
                            ValueView::Null
                        },
                ),
                *sep,
                *bracketed,
            ),
            Value::Numeric(r, u, sign, calculated) => ValueView::Numeric(
                r@,
                u@,
                *sign,
                *calculated,
            ),
            Value::Color(r, g, b, a, name) => ValueView::Color(r@, g@, b@, a@, opt_text(*name)),
            Value::Null => ValueView::Null,
            Value::True => ValueView::True,
            Value::False => ValueView::False,
            Value::BinOp(a, op, b) => ValueView::BinOp(
                Box::new(a.model()),
                *op,
                Box::new(b.model()),
            ),
            Value::UnaryOp(op, a) => ValueView::UnaryOp(*op, Box::new(a.model())),
            Value::Mapping(m) => ValueView::Mapping(
                Seq::new(
                    m.len() as nat,
                    |i: int|
                        if 0 <= i < m.len() {
                            (m[i].0.model(), m[i].1.model())
                        } else {
                            (ValueView::Null, ValueView::Null)
                        },
                ),
            ),
            Value::Paren(a) => ValueView::Paren(Box::new(a.model())),
            Value::Variable(name) => ValueView::Variable(name@),
            Value::Interpolation(a) => ValueView::Interpolation(Box::new(a.model())),
        }
    }
}

impl View for Value {
    type V = ValueView;

    open spec fn view(&self) -> ValueView {
        self.model()
    }
}

/// A copy of an optional string.
pub fn dup_opt_text(o: &Option<String>) -> (r: Option<String>)
    ensures
        opt_text(r) == opt_text(*o),
{
    match o {
        Some(s) => Some(s.clone()),
        None => None,
    }
}

impl Value {
    /// A copy of the value.
    pub fn dup(&self) -> (r: Value)
        ensures
            r@ == self@,
        decreases self,
    {
        match self {
            Value::Call(name, args) => {
                let mut out: CallArgs = Vec::new();
                let mut i: usize = 0;
                while i < args.len()
                    invariant
                        self is Call,
                        self->Call_1 == *args,
                        i <= args.len(),
                        out.len() == i,
                        forall|j: int|
                            0 <= j < i ==> opt_text(out[j].0) == opt_text(args[j].0) && out[j].1@
                                == args[j].1@,
                    decreases args.len() - i,
                {
                    let n = dup_opt_text(&args[i].0);
                    let v = args[i].1.dup();
                    out.push((n, v));
                    i += 1;
                }
                let r = Value::Call(name.clone(), out);
                assert(r@->Call_1 =~= self@->Call_1);
                r
            },
            Value::Function(name, f) => Value::Function(name.clone(), *f),
            Value::Div(a, b, s1, s2) => Value::Div(
                Box::new(a.dup()),
                Box::new(b.dup()),
                *s1,
                *s2,
            ),
            Value::Literal(s, q) => Value::Literal(s.clone(), *q),
            Value::List(v, sep, bracketed) => {
                let mut out: Vec<Value> = Vec::new();
                let mut i: usize = 0;
                while i < v.len()
                    invariant
                        self is List,
                        self->List_0 == *v,
                        i <= v.len(),
                        out.len() == i,
                        forall|j: int| 0 <= j < i ==> out[j]@ == v[j]@,
                    decreases v.len() - i,
                {
                    let d = v[i].dup();
                    out.push(d);
                    i += 1;
                }
                let r = Value::List(out, *sep, *bracketed);
                assert(r@->List_0 =~= self@->List_0);
                r
            },
            Value::Numeric(r, u, sign, calculated) => Value::Numeric(
                *r,
                u.dup(),
                *sign,
                *calculated,
            ),
            Value::Color(r, g, b, a, name) => Value::Color(*r, *g, *b, *a, dup_opt_text(name)),
            Value::Null => Value::Null,
            Value::True => Value::True,
            Value::False => Value::False,
            Value::BinOp(a, op, b) => Value::BinOp(Box::new(a.dup()), *op, Box::new(b.dup())),
            Value::UnaryOp(op, a) => Value::UnaryOp(*op, Box::new(a.dup())),
            Value::Mapping(m) => {
                let mut out: Vec<(Value, Value)> = Vec::new();
                let mut i: usize = 0;
                while i < m.len()
                    invariant
                        self is Mapping,
                        self->Mapping_0 == *m,
                        i <= m.len(),
                        out.len() == i,
                        forall|j: int|
                            0 <= j < i ==> out[j].0@ == m[j].0@ && out[j].1@ == m[j].1@,
                    decreases m.len() - i,
                {
                    let k = m[i].0.dup();
                    let v = m[i].1.dup();
                    out.push((k, v));
                    i += 1;
                }
                let r = Value::Mapping(out);
                assert(r@->Mapping_0 =~= self@->Mapping_0);
                r
            },
            Value::Paren(a) => Value::Paren(Box::new(a.dup())),
            Value::Variable(name) => Value::Variable(name.clone()),
            Value::Interpolation(a) => Value::Interpolation(Box::new(a.dup())),
        }
    }
}

/// `x` held to the range from zero to `hi`.
pub open spec fn clamp(x: Ratio, hi: int) -> Ratio {
    if Ratio::from_int(hi).lt(x) {
        Ratio::from_int(hi)
    } else if x.num < 0 {
        Ratio::from_int(0)
    } else {
        x
    }
}

impl ValueView {
    /// The plain number `n`.
    pub open spec fn scalar(n: int) -> ValueView {
        ValueView::Numeric(Ratio::from_int(n), UnitView::Known(Unit::Unitless), false, false)
    }

    /// The truth value `b`.
    pub open spec fn bool(b: bool) -> ValueView {
        if b {
            ValueView::True
        } else {
            ValueView::False
        }
    }

    /// The color black, under its name.
    pub open spec fn black() -> ValueView {
        ValueView::Color(
            Ratio::from_int(0),
            Ratio::from_int(0),
            Ratio::from_int(0),
            Ratio::from_int(1),
            Some("black"@),
        )
    }

    /// A computed color: the channels held to their ranges, and no name.
    pub open spec fn rgba(r: Ratio, g: Ratio, b: Ratio, a: Ratio) -> ValueView {
        ValueView::Color(clamp(r, 255), clamp(g, 255), clamp(b, 255), clamp(a, 1), None)
    }

    /// The name of the kind of value.
    pub open spec fn type_of(self) -> Seq<char> {
        match self {
            ValueView::Color(..) => "color"@,
            ValueView::Literal(..) => "string"@,
            ValueView::Numeric(..) => "number"@,
            ValueView::List(..) => "list"@,
            ValueView::Function(..) => "function"@,
            ValueView::True | ValueView::False => "bool"@,
            ValueView::Null => "null"@,
            _ => "unknown"@,
        }
    }

    /// A number is calculated if its flag says so, a color if it has no
    /// name; nothing else is.
    pub open spec fn is_calculated(self) -> bool {
        match self {
            ValueView::Numeric(_, _, _, calculated) => calculated,
            ValueView::Color(_, _, _, _, None) => true,
            _ => false,
        }
    }

    /// The value with the calculated flag set on every number, through
    /// lists.
    pub open spec fn into_calculated(self) -> ValueView
        decreases self,
    {
        match self {
            ValueView::Numeric(v, unit, sign, _) => ValueView::Numeric(v, unit, sign, true),
            ValueView::List(items, sep, bracketed) => ValueView::List(
                Seq::new(
                    items.len(),
                    |i: int|
                        if 0 <= i < items.len() {
                            items[i].into_calculated()
                        } else {
                            ValueView::Null
                        },
                ),
                sep,
                bracketed,
            ),
            other => other,
        }
    }

    /// Everything but `False` and `Null` counts as true.
    pub open spec fn is_true(self) -> bool {
        !(self is False || self is Null)
    }

    /// `Null` is null, and so is a list without brackets whose items are
    /// all null.
    pub open spec fn is_null(self) -> bool
        decreases self,
    {
        match self {
            ValueView::Null => true,
            ValueView::List(items, _, false) => forall|i: int|
                0 <= i < items.len() ==> (#[trigger] items[i]).is_null(),
            _ => false,
        }
    }

    /// The items that a loop over the value visits: those of a list, the
    /// pairs of a mapping, or the value itself.
    pub open spec fn iter_items(self) -> Seq<ValueView> {
        match self {
            ValueView::List(items, _, _) => items,
            ValueView::Mapping(m) => Seq::new(
                m.len(),
                |i: int| ValueView::List(seq![m[i].0, m[i].1], ListSeparator::Space, false),
            ),
            v => seq![v],
        }
    }

    /// Whether the value is a whole number.
    pub open spec fn is_integer(self) -> bool {
        self matches ValueView::Numeric(q, _, _, _) && q.is_integer()
    }

    /// Every number in the value is a fraction in lowest terms.
    pub open spec fn wf(self) -> bool
        decreases self,
    {
        match self {
            ValueView::Call(_, args) => forall|i: int|
                0 <= i < args.len() ==> (#[trigger] args[i]).1.wf(),
            ValueView::Div(a, b, _, _) => a.wf() && b.wf(),
            ValueView::List(items, _, _) => forall|i: int|
                0 <= i < items.len() ==> (#[trigger] items[i]).wf(),
            ValueView::Numeric(q, _, _, _) => q.wf(),
            ValueView::Color(r, g, b, a, _) => r.wf() && g.wf() && b.wf() && a.wf(),
            ValueView::BinOp(a, _, b) => a.wf() && b.wf(),
            ValueView::UnaryOp(_, a) => a.wf(),
            ValueView::Mapping(m) => forall|i: int|
                0 <= i < m.len() ==> (#[trigger] m[i]).0.wf() && m[i].1.wf(),
            ValueView::Paren(a) => a.wf(),
            ValueView::Interpolation(a) => a.wf(),
            _ => true,
        }
    }
}

/// A channel held to the range from zero to `hi`.
fn cap(n: Rational, hi: isize) -> (r: Rational)
    ensures
        r@ == clamp(n@, hi as int),
{
    let top = Rational::from_integer(hi);
    if top.lt(&n) {
        top
    } else if n.is_negative() {
        Rational::zero()
    } else {
        n
    }
}

impl Value {
    /// The plain number `v`.
    pub fn scalar(v: isize) -> (r: Value)
        ensures
            r@ == ValueView::scalar(v as int),
    {
        Value::Numeric(Rational::from_integer(v), Unit::Unitless, false, false)
    }

    /// The truth value `v`.
    pub fn bool(v: bool) -> (r: Value)
        ensures
            r@ == ValueView::bool(v),
    {
        if v {
            Value::True
        } else {
            Value::False
        }
    }

    /// The color black, under its name.
    pub fn black() -> (r: Value)
        ensures
            r@ == ValueView::black(),
    {
        let z = Rational::zero();
        Value::Color(z, z, z, Rational::one(), Some(String::from_str("black")))
    }

    /// A computed color: each of red, green and blue is held to the range
    /// from 0 to 255 and alpha to the range from 0 to 1, and the color has
    /// no name.
    pub fn rgba(r: Rational, g: Rational, b: Rational, a: Rational) -> (c: Value)
        ensures
            c@ == ValueView::rgba(r@, g@, b@, a@),
    {
        Value::Color(cap(r, 255), cap(g, 255), cap(b, 255), cap(a, 1), None)
    }

    /// The name of the kind of value.
    pub fn type_of(&self) -> (s: &'static str)
        ensures
            s@ == self@.type_of(),
    {
        match self {
            Value::Color(..) => "color",
            Value::Literal(..) => "string",
            Value::Numeric(..) => "number",
            Value::List(..) => "list",
            Value::Function(..) => "function",
            Value::True | Value::False => "bool",
            Value::Null => "null",
            _ => "unknown",
        }
    }

    /// Whether the value was calculated: a number with that flag, or a color
    /// without a name.
    pub fn is_calculated(&self) -> (b: bool)
        ensures
            b == self@.is_calculated(),
    {
        match self {
            Value::Numeric(_, _, _, calculated) => *calculated,
            Value::Color(_, _, _, _, None) => true,
            _ => false,
        }
    }

    /// The value with the calculated flag set on every number, through
    /// lists.
    pub fn into_calculated(self) -> (r: Value)
        ensures
            r@ == self@.into_calculated(),
        decreases self@,
    {
        match self {
            Value::Numeric(v, unit, sign, _) => Value::Numeric(v, unit, sign, true),
            Value::List(v, sep, bracketed) => {
                let mut out: Vec<Value> = Vec::new();
                let mut i: usize = 0;
                while i < v.len()
                    invariant
                        self@ is List,
                        self@->List_0 == models(v@),
                        i <= v.len(),
                        out.len() == i,
                        forall|j: int| 0 <= j < i ==> out[j]@ == v[j]@.into_calculated(),
                    decreases v.len() - i,
                {
                    let c = v[i].dup();
                    assert(self@->List_0[i as int] == c@);
                    let d = c.into_calculated();
                    out.push(d);
                    i += 1;
                }
                let r = Value::List(out, sep, bracketed);
                assert(r@->List_0 =~= self@.into_calculated()->List_0);
                r
            },
            other => other,
        }
    }

    /// All values other than `False` and `Null` are considered true.
    pub fn is_true(&self) -> (b: bool)
        ensures
            b == self@.is_true(),
    {
        match self {
            Value::False | Value::Null => false,
            _ => true,
        }
    }

    /// Whether the value is null: `Null`, or a list without brackets whose
    /// items are all null.
    pub fn is_null(&self) -> (b: bool)
        ensures
            b == self@.is_null(),
        decreases self,
    {
        match self {
            Value::Null => true,
            Value::List(list, _, false) => {
                let mut i: usize = 0;
                while i < list.len()
                    invariant
                        self is List,
                        self->List_0 == *list,
                        i <= list.len(),
                        forall|j: int| 0 <= j < i ==> (#[trigger] list[j]@).is_null(),
                    decreases list.len() - i,
                {
                    if !list[i].is_null() {
                        assert(!(self@->List_0[i as int]).is_null());
                        return false;
                    }
                    i += 1;
                }
                assert forall|j: int| 0 <= j < self@->List_0.len() implies (
                #[trigger] self@->List_0[j]).is_null() by {
                    assert(list[j]@.is_null());
                }
                true
            },
            _ => false,
        }
    }

    /// The whole number that the value is; an error for anything else.
    pub fn integer_value(&self) -> (r: Result<isize, Error>)
        ensures
            match r {
                Ok(n) => self@.is_integer() && n == self@->Numeric_0.num,
                Err(e) => !self@.is_integer() && e@ == (ErrorView::BadValue {
                    expected: "integer"@,
                    got: self@,
                }),
            },
    {
        match self {
            Value::Numeric(num, _, _, _) => {
                if num.is_integer() {
                    Ok(num.numer())
                } else {
                    Err(Error::bad_value("integer", self))
                }
            },
            v => Err(Error::bad_value("integer", v)),
        }
    }

    /// The items that a loop over the value visits: those of a list, the
    /// pairs of a mapping as lists of two, or the value itself.
    pub fn iter_items(self) -> (r: Vec<Value>)
        ensures
            models(r@) == self@.iter_items(),
    {
        match self {
            Value::List(v, _, _) => {
                v
            },
            Value::Mapping(map) => {
                let mut out: Vec<Value> = Vec::new();
                let mut i: usize = 0;
                while i < map.len()
                    invariant
                        i <= map.len(),
                        out.len() == i,
                        forall|j: int|
                            0 <= j < i ==> out[j]@ == ValueView::List(
                                seq![map[j].0@, map[j].1@],
                                ListSeparator::Space,
                                false,
                            ),
                    decreases map.len() - i,
                {
                    let mut pair: Vec<Value> = Vec::new();
                    pair.push(map[i].0.dup());
                    pair.push(map[i].1.dup());
                    let item = Value::List(pair, ListSeparator::Space, false);
                    assert(item@->List_0 =~= seq![map[i as int].0@, map[i as int].1@]);
                    out.push(item);
                    i += 1;
                }
                out
            },
            v => {
                let mut out: Vec<Value> = Vec::new();
                out.push(v);
                out
            },
        }
    }
}

impl Clone for Value {
    fn clone(&self) -> (r: Value)
        ensures
            r@ == self@,
    {
        self.dup()
    }
}

/// The models of the values of a vector.
pub open spec fn models(v: Seq<Value>) -> Seq<ValueView> {
    Seq::new(v.len(), |i: int| v[i]@)
}

/// The models of the arguments of a call.
pub open spec fn arg_models(args: Seq<(Option<String>, Value)>) -> Seq<
    (Option<Seq<char>>, ValueView),
> {
    Seq::new(args.len(), |i: int| (opt_text(args[i].0), args[i].1@))
}

/// The models of the entries of a mapping.
pub open spec fn entry_models(m: Seq<(Value, Value)>) -> Seq<(ValueView, ValueView)> {
    Seq::new(m.len(), |i: int| (m[i].0@, m[i].1@))
}

/// The model of a list, a call or a mapping is made of the models of its
/// parts.
pub proof fn lemma_model_parts(v: Value)
    ensures
        v matches Value::List(items, sep, bracketed) ==> v@ == ValueView::List(
            models(items@),
            sep,
            bracketed,
        ),
        v matches Value::Call(name, args) ==> v@ == ValueView::Call(name@, arg_models(args@)),
        v matches Value::Mapping(m) ==> v@ == ValueView::Mapping(entry_models(m@)),
{
    match v {
        Value::List(items, sep, bracketed) => {
            assert(v@->List_0 =~= models(items@));
        },
        Value::Call(name, args) => {
            assert(v@->Call_1 =~= arg_models(args@));
        },
        Value::Mapping(m) => {
            assert(v@->Mapping_0 =~= entry_models(m@));
        },
        _ => {},
    }
}

} // verus!
