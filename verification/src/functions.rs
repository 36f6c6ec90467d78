//! The built-in functions, and how a name finds one.
use crate::arith::{outcome, rational_apply, rational_op};
use crate::error::{Error, ErrorView};
use crate::format::OutputStyle;
use crate::operator::Operator;
use crate::rational::{held, Ratio, Rational};
use crate::text::{chars_of, is_str, same_text};
use crate::unit::{Unit, UnitView};
use crate::value::{arg_models, CallArgs, Quotes, Value, ValueView};
use vstd::prelude::*;

verus! {

/// A built-in function.
#[derive(Clone, Copy, Debug, PartialEq, Eq, Structural)]
pub enum SassFunction {
    Rgb,
    Rgba,
    Red,
    Green,
    Blue,
    Alpha,
    Mix,
    Invert,
    Quote,
    Unquote,
    If,
    Unit,
    Unitless,
    TypeOf,
}

/// A character of a name as names are compared: an ASCII capital letter
/// counts as its small letter, and `-` as `_`.
pub open spec fn fold_char(c: char) -> char {
    let n = c as u32;
    if 0x41 <= n <= 0x5a {
        ((n + 0x20) as u8) as char
    } else if c == '-' {
        '_'
    } else {
        c
    }
}

/// A name as names of functions are compared: without regard to the case
/// of ASCII letters, and with `-` and `_` taken as the same.
pub open spec fn fold_name(name: Seq<char>) -> Seq<char> {
    Seq::new(name.len(), |i: int| fold_char(name[i]))
}

/// A character of a name of a variable or an argument: `-` counts as `_`.
pub open spec fn key_char(c: char) -> char {
    if c == '-' {
        '_'
    } else {
        c
    }
}

/// A name as names of variables and arguments are compared: with regard to
/// case, and with `-` and `_` taken as the same.
pub open spec fn key_name(name: Seq<char>) -> Seq<char> {
    Seq::new(name.len(), |i: int| key_char(name[i]))
}

/// The built-in function of the given name.
pub open spec fn builtin(name: Seq<char>) -> Option<SassFunction> {
    let k = fold_name(name);
    if k == "rgb"@ {
        Some(SassFunction::Rgb)
    } else if k == "rgba"@ {
        Some(SassFunction::Rgba)
    } else if k == "red"@ {
        Some(SassFunction::Red)
    } else if k == "green"@ {
        Some(SassFunction::Green)
    } else if k == "blue"@ {
        Some(SassFunction::Blue)
    } else if k == "alpha"@ {
        Some(SassFunction::Alpha)
    } else if k == "mix"@ {
        Some(SassFunction::Mix)
    } else if k == "invert"@ {
        Some(SassFunction::Invert)
    } else if k == "quote"@ {
        Some(SassFunction::Quote)
    } else if k == "unquote"@ {
        Some(SassFunction::Unquote)
    } else if k == "if"@ {
        Some(SassFunction::If)
    } else if k == "unit"@ {
        Some(SassFunction::Unit)
    } else if k == "unitless"@ {
        Some(SassFunction::Unitless)
    } else if k == "type_of"@ {
        Some(SassFunction::TypeOf)
    } else {
        None
    }
}

/// The place of the first argument with the given name, from `from` on.
pub open spec fn named_from(
    args: Seq<(Option<Seq<char>>, ValueView)>,
    name: Seq<char>,
    from: int,
) -> Option<int>
    decreases args.len() - from,
{
    if from < 0 || from >= args.len() {
        None
    } else if args[from].0 matches Some(n) && key_name(n) == key_name(name) {
        Some(from)
    } else {
        named_from(args, name, from + 1)
    }
}

/// The argument for a parameter: the one at the parameter's place if it
/// has no name, else the first one with the parameter's name.
pub open spec fn argument(
    args: Seq<(Option<Seq<char>>, ValueView)>,
    index: int,
    name: Seq<char>,
) -> Option<ValueView> {
    if 0 <= index < args.len() && args[index].0 is None {
        Some(args[index].1)
    } else {
        match named_from(args, name, 0) {
            Some(i) => Some(args[i].1),
            None => None,
        }
    }
}

/// The error for an argument that a call does not give.
pub open spec fn missing(name: Seq<char>) -> ErrorView {
    ErrorView::BadValue { expected: name, got: ValueView::Null }
}

/// The error for a result that no number can hold.
pub open spec fn out_of_range() -> ErrorView {
    ErrorView::Unsupported { feature: "number out of range"@ }
}

/// An arithmetic operation on two numbers that may be missing.
pub open spec fn chain(op: Operator, x: Option<Ratio>, y: Option<Ratio>) -> Option<Ratio> {
    match (x, y) {
        (Some(a), Some(b)) => rational_op(op, a, b),
        _ => None,
    }
}

/// A channel given as an argument: a percentage is taken of 255.
pub open spec fn channel_of(v: ValueView) -> Result<Ratio, ErrorView> {
    match v {
        ValueView::Numeric(q, UnitView::Known(Unit::Percent), _, _) => {
            match chain(
                Operator::Divide,
                rational_op(Operator::Multiply, q, Ratio::from_int(255)),
                Some(Ratio::from_int(100)),
            ) {
                Some(c) => Ok(c),
                None => Err(out_of_range()),
            }
        },
        ValueView::Numeric(q, _, _, _) => Ok(q),
        other => Err(ErrorView::BadValue { expected: "number"@, got: other }),
    }
}

/// The number that an argument is.
pub open spec fn number_of(v: ValueView) -> Result<Ratio, ErrorView> {
    match v {
        ValueView::Numeric(q, _, _, _) => Ok(q),
        other => Err(ErrorView::BadValue { expected: "number"@, got: other }),
    }
}

/// The channels of the color that an argument is.
pub open spec fn color_of(v: ValueView) -> Result<(Ratio, Ratio, Ratio, Ratio), ErrorView> {
    match v {
        ValueView::Color(r, g, b, a, _) => Ok((r, g, b, a)),
        other => Err(ErrorView::BadValue { expected: "color"@, got: other }),
    }
}

/// The mix of two colors, of which the first counts for the share `p`. The
/// share of each color in the channels also goes by the difference of
/// their alphas; the alpha of the mix is the mean by `p`.
pub open spec fn mix_colors(
    c1: (Ratio, Ratio, Ratio, Ratio),
    c2: (Ratio, Ratio, Ratio, Ratio),
    p: Ratio,
) -> Option<ValueView> {
    let one = Some(Ratio::from_int(1));
    let two = Some(Ratio::from_int(2));
    let a = rational_op(Operator::Minus, c1.3, c2.3);
    let w = chain(Operator::Minus, chain(Operator::Multiply, Some(p), two), one);
    let wa = chain(Operator::Multiply, w, a);
    let inner = if wa == Some(Ratio::from_int(-1)) {
        w
    } else {
        chain(Operator::Divide, chain(Operator::Plus, w, a), chain(Operator::Plus, one, wa))
    };
    let w1 = chain(Operator::Divide, chain(Operator::Plus, inner, one), two);
    let w2 = chain(Operator::Minus, one, w1);
    let q = chain(Operator::Minus, one, Some(p));
    let r = chain(
        Operator::Plus,
        chain(Operator::Multiply, Some(c1.0), w1),
        chain(Operator::Multiply, Some(c2.0), w2),
    );
    let g = chain(
        Operator::Plus,
        chain(Operator::Multiply, Some(c1.1), w1),
        chain(Operator::Multiply, Some(c2.1), w2),
    );
    let b = chain(
        Operator::Plus,
        chain(Operator::Multiply, Some(c1.2), w1),
        chain(Operator::Multiply, Some(c2.2), w2),
    );
    let alpha = chain(
        Operator::Plus,
        chain(Operator::Multiply, Some(c1.3), Some(p)),
        chain(Operator::Multiply, Some(c2.3), q),
    );
    match (r, g, b, alpha) {
        (Some(r), Some(g), Some(b), Some(alpha)) => Some(ValueView::rgba(r, g, b, alpha)),
        _ => None,
    }
}

/// A value as a quoted string: a string with its text, anything else as it
/// is written.
pub open spec fn quoted(v: ValueView) -> ValueView {
    match v {
        ValueView::Literal(s, _) => ValueView::Literal(s, Quotes::Double),
        other => ValueView::Literal(other.format(OutputStyle::Expanded), Quotes::Double),
    }
}

/// What a required argument is, or the error that it is missing.
pub open spec fn required(
    args: Seq<(Option<Seq<char>>, ValueView)>,
    index: int,
    name: Seq<char>,
) -> Result<ValueView, ErrorView> {
    match argument(args, index, name) {
        Some(v) => Ok(v),
        None => Err(missing(name)),
    }
}

impl SassFunction {
    /// What the function gives for evaluated arguments.
    pub open spec fn result(
        self,
        args: Seq<(Option<Seq<char>>, ValueView)>,
    ) -> Result<ValueView, ErrorView> {
        match self {
            SassFunction::Rgb => rgb_result(args, Ok(Ratio::from_int(1))),
            SassFunction::Rgba => rgba_result(args),
            SassFunction::Red => match required(args, 0, "color"@) {
                Ok(c) => match color_of(c) {
                    Ok(ch) => Ok(ValueView::Numeric(ch.0, UnitView::Known(Unit::Unitless), false, true)),
                    Err(e) => Err(e),
                },
                Err(e) => Err(e),
            },
            SassFunction::Green => match required(args, 0, "color"@) {
                Ok(c) => match color_of(c) {
                    Ok(ch) => Ok(ValueView::Numeric(ch.1, UnitView::Known(Unit::Unitless), false, true)),
                    Err(e) => Err(e),
                },
                Err(e) => Err(e),
            },
            SassFunction::Blue => match required(args, 0, "color"@) {
                Ok(c) => match color_of(c) {
                    Ok(ch) => Ok(ValueView::Numeric(ch.2, UnitView::Known(Unit::Unitless), false, true)),
                    Err(e) => Err(e),
                },
                Err(e) => Err(e),
            },
            SassFunction::Alpha => match required(args, 0, "color"@) {
                Ok(c) => match color_of(c) {
                    Ok(ch) => Ok(ValueView::Numeric(ch.3, UnitView::Known(Unit::Unitless), false, true)),
                    Err(e) => Err(e),
                },
                Err(e) => Err(e),
            },
            SassFunction::Mix => mix_result(args),
            SassFunction::Invert => match required(args, 0, "color"@) {
                Ok(c) => match color_of(c) {
                    Ok(ch) => {
                        let top = Ratio::from_int(255);
                        match (
                            rational_op(Operator::Minus, top, ch.0),
                            rational_op(Operator::Minus, top, ch.1),
                            rational_op(Operator::Minus, top, ch.2),
                        ) {
                            (Some(r), Some(g), Some(b)) => Ok(ValueView::rgba(r, g, b, ch.3)),
                            _ => Err(out_of_range()),
                        }
                    },
                    Err(e) => Err(e),
                },
                Err(e) => Err(e),
            },
            SassFunction::Quote => match required(args, 0, "string"@) {
                Ok(v) => Ok(quoted(v)),
                Err(e) => Err(e),
            },
            SassFunction::Unquote => match required(args, 0, "string"@) {
                Ok(v) => Ok(v.unquote()),
                Err(e) => Err(e),
            },
            SassFunction::If => match required(args, 0, "condition"@) {
                Ok(c) => if c.is_true() {
                    required(args, 1, "if_true"@)
                } else {
                    required(args, 2, "if_false"@)
                },
                Err(e) => Err(e),
            },
            SassFunction::Unit => match required(args, 0, "number"@) {
                Ok(ValueView::Numeric(_, u, _, _)) => Ok(
                    ValueView::Literal(u.token(), Quotes::Double),
                ),
                Ok(other) => Err(ErrorView::BadValue { expected: "number"@, got: other }),
                Err(e) => Err(e),
            },
            SassFunction::Unitless => match required(args, 0, "number"@) {
                Ok(ValueView::Numeric(_, u, _, _)) => Ok(ValueView::bool(u.is_none())),
                Ok(other) => Err(ErrorView::BadValue { expected: "number"@, got: other }),
                Err(e) => Err(e),
            },
            SassFunction::TypeOf => match required(args, 0, "value"@) {
                Ok(v) => Ok(ValueView::Literal(v.type_of(), Quotes::Unquoted)),
                Err(e) => Err(e),
            },
        }
    }
}

/// The color of the arguments `red`, `green` and `blue` with the given
/// alpha.
pub open spec fn rgb_result(
    args: Seq<(Option<Seq<char>>, ValueView)>,
    alpha: Result<Ratio, ErrorView>,
) -> Result<ValueView, ErrorView> {
    match required(args, 0, "red"@) {
        Ok(r) => match required(args, 1, "green"@) {
            Ok(g) => match required(args, 2, "blue"@) {
                Ok(b) => match (channel_of(r), channel_of(g), channel_of(b), alpha) {
                    (Ok(r), Ok(g), Ok(b), Ok(a)) => Ok(ValueView::rgba(r, g, b, a)),
                    (Err(e), _, _, _) => Err(e),
                    (_, Err(e), _, _) => Err(e),
                    (_, _, Err(e), _) => Err(e),
                    (_, _, _, Err(e)) => Err(e),
                },
                Err(e) => Err(e),
            },
            Err(e) => Err(e),
        },
        Err(e) => Err(e),
    }
}

/// The color of `rgba`: a color given as the first argument with the alpha
/// of the second, or else the color of the arguments `red`, `green`, `blue`
/// and `alpha`.
pub open spec fn rgba_result(args: Seq<(Option<Seq<char>>, ValueView)>) -> Result<
    ValueView,
    ErrorView,
> {
    match argument(args, 0, "color"@) {
        Some(ValueView::Color(r, g, b, _, _)) => match required(args, 1, "alpha"@) {
            Ok(a) => match number_of(a) {
                Ok(q) => Ok(ValueView::rgba(r, g, b, q)),
                Err(e) => Err(e),
            },
            Err(e) => Err(e),
        },
        _ => match required(args, 3, "alpha"@) {
            Ok(a) => rgb_result(args, number_of(a)),
            Err(e) => Err(e),
        },
    }
}

/// The mix of the arguments `color1` and `color2`, of which the first
/// counts for `weight` percent, or for half if no weight is given.
pub open spec fn mix_result(args: Seq<(Option<Seq<char>>, ValueView)>) -> Result<
    ValueView,
    ErrorView,
> {
    match required(args, 0, "color1"@) {
        Ok(v1) => match required(args, 1, "color2"@) {
            Ok(v2) => match (
                color_of(v1),
                color_of(v2),
                match argument(args, 2, "weight"@) {
                    Some(w) => number_of(w),
                    None => Ok(Ratio::from_int(50)),
                },
            ) {
                (Ok(c1), Ok(c2), Ok(w)) => {
                    match rational_op(Operator::Divide, w, Ratio::from_int(100)) {
                        Some(p) => match mix_colors(c1, c2, p) {
                            Some(v) => Ok(v),
                            None => Err(out_of_range()),
                        },
                        None => Err(out_of_range()),
                    }
                },
                (Err(e), _, _) => Err(e),
                (_, Err(e), _) => Err(e),
                (_, _, Err(e)) => Err(e),
            },
            Err(e) => Err(e),
        },
        Err(e) => Err(e),
    }
}

/// The characters of a name as names of functions are compared.
pub fn folded(name: &str) -> (r: Vec<char>)
    ensures
        r@ == fold_name(name@),
{
    let v = chars_of(name);
    let mut out: Vec<char> = Vec::new();
    let mut i: usize = 0;
    while i < v.len()
        invariant
            i <= v.len(),
            out.len() == i,
            forall|j: int| 0 <= j < i ==> out[j] == fold_char(v[j]),
        decreases v.len() - i,
    {
        let c = v[i];
        let n: u32 = c as u32;
        if 0x41 <= n && n <= 0x5a {
            out.push(((n + 0x20) as u8) as char);
        } else if c == '-' {
            out.push('_');
        } else {
            out.push(c);
        }
        i += 1;
    }
    out
}

/// The characters of a name as names of variables and arguments are
/// compared.
pub fn keyed(name: &str) -> (r: Vec<char>)
    ensures
        r@ == key_name(name@),
{
    let v = chars_of(name);
    let mut out: Vec<char> = Vec::new();
    let mut i: usize = 0;
    while i < v.len()
        invariant
            i <= v.len(),
            out.len() == i,
            forall|j: int| 0 <= j < i ==> out[j] == key_char(v[j]),
        decreases v.len() - i,
    {
        let c = v[i];
        if c == '-' {
            out.push('_');
        } else {
            out.push(c);
        }
        i += 1;
    }
    out
}

/// The built-in function of the given name. Names are compared without
/// regard to the case of ASCII letters, and with `-` and `_` taken as the
/// same.
pub fn get_builtin_function(name: &str) -> (f: Option<SassFunction>)
    ensures
        f == builtin(name@),
{
    let k = folded(name);
    if is_str(&k, "rgb") {
        Some(SassFunction::Rgb)
    } else if is_str(&k, "rgba") {
        Some(SassFunction::Rgba)
    } else if is_str(&k, "red") {
        Some(SassFunction::Red)
    } else if is_str(&k, "green") {
        Some(SassFunction::Green)
    } else if is_str(&k, "blue") {
        Some(SassFunction::Blue)
    } else if is_str(&k, "alpha") {
        Some(SassFunction::Alpha)
    } else if is_str(&k, "mix") {
        Some(SassFunction::Mix)
    } else if is_str(&k, "invert") {
        Some(SassFunction::Invert)
    } else if is_str(&k, "quote") {
        Some(SassFunction::Quote)
    } else if is_str(&k, "unquote") {
        Some(SassFunction::Unquote)
    } else if is_str(&k, "if") {
        Some(SassFunction::If)
    } else if is_str(&k, "unit") {
        Some(SassFunction::Unit)
    } else if is_str(&k, "unitless") {
        Some(SassFunction::Unitless)
    } else if is_str(&k, "type_of") {
        Some(SassFunction::TypeOf)
    } else {
        None
    }
}

/// The executable form of [`named_from`].
fn find_named(args: &CallArgs, name: &str) -> (r: Option<usize>)
    ensures
        match r {
            Some(i) => named_from(arg_models(args@), name@, 0) == Some(i as int) && i
                < args.len(),
            None => named_from(arg_models(args@), name@, 0) is None,
        },
{
    let key = keyed(name);
    let ghost models = arg_models(args@);
    let mut i: usize = 0;
    while i < args.len()
        invariant
            i <= args.len(),
            models == arg_models(args@),
            key@ == key_name(name@),
            named_from(models, name@, 0) == named_from(models, name@, i as int),
        decreases args.len() - i,
    {
        let hit: bool = match &args[i].0 {
            Some(n) => same_text(&keyed(n.as_str()), &key),
            None => false,
        };
        if hit {
            return Some(i);
        }
        i += 1;
    }
    None
}

/// The argument for a parameter: the one at the parameter's place if it
/// has no name, else the first one with the parameter's name.
pub fn get_arg<'a>(args: &'a CallArgs, index: usize, name: &str) -> (r: Option<&'a Value>)
    ensures
        match r {
            Some(v) => argument(arg_models(args@), index as int, name@) == Some(v@),
            None => argument(arg_models(args@), index as int, name@) is None,
        },
{
    if index < args.len() && args[index].0.is_none() {
        Some(&args[index].1)
    } else {
        match find_named(args, name) {
            Some(i) => Some(&args[i].1),
            None => None,
        }
    }
}

/// The executable form of [`required`].
fn need_arg<'a>(args: &'a CallArgs, index: usize, name: &str) -> (r: Result<&'a Value, Error>)
    ensures
        match r {
            Ok(v) => required(arg_models(args@), index as int, name@) == Ok::<
                ValueView,
                ErrorView,
            >(v@),
            Err(e) => required(arg_models(args@), index as int, name@) == Err::<
                ValueView,
                ErrorView,
            >(e@),
        },
{
    match get_arg(args, index, name) {
        Some(v) => Ok(v),
        None => Err(Error::bad_value(name, &Value::Null)),
    }
}

/// The executable form of [`out_of_range`].
fn overflow() -> (e: Error)
    ensures
        e@ == out_of_range(),
{
    Error::Unsupported { feature: String::from_str("number out of range") }
}

/// The executable form of [`chain`].
fn chained(op: Operator, x: Option<Rational>, y: Option<Rational>) -> (r: Option<Rational>)
    ensures
        held(r) == chain(op, held(x), held(y)),
{
    match (x, y) {
        (Some(a), Some(b)) => rational_apply(op, &a, &b),
        _ => None,
    }
}

/// The executable form of [`channel_of`].
fn channel_from(v: &Value) -> (r: Result<Rational, Error>)
    ensures
        match r {
            Ok(q) => channel_of(v@) == Ok::<Ratio, ErrorView>(q@),
            Err(e) => channel_of(v@) == Err::<Ratio, ErrorView>(e@),
        },
{
    match v {
        Value::Numeric(q, Unit::Percent, _, _) => {
            let scaled = rational_apply(Operator::Multiply, q, &Rational::from_integer(255));
            match chained(Operator::Divide, scaled, Some(Rational::from_integer(100))) {
                Some(c) => Ok(c),
                None => Err(overflow()),
            }
        },
        Value::Numeric(q, _, _, _) => Ok(*q),
        other => Err(Error::bad_value("number", other)),
    }
}

/// The executable form of [`number_of`].
fn number_from(v: &Value) -> (r: Result<Rational, Error>)
    ensures
        match r {
            Ok(q) => number_of(v@) == Ok::<Ratio, ErrorView>(q@),
            Err(e) => number_of(v@) == Err::<Ratio, ErrorView>(e@),
        },
{
    match v {
        Value::Numeric(q, _, _, _) => Ok(*q),
        other => Err(Error::bad_value("number", other)),
    }
}

/// The executable form of [`color_of`].
fn color_from(v: &Value) -> (r: Result<(Rational, Rational, Rational, Rational), Error>)
    ensures
        match r {
            Ok(c) => color_of(v@) == Ok::<(Ratio, Ratio, Ratio, Ratio), ErrorView>(
                (c.0@, c.1@, c.2@, c.3@),
            ),
            Err(e) => color_of(v@) == Err::<(Ratio, Ratio, Ratio, Ratio), ErrorView>(e@),
        },
{
    match v {
        Value::Color(r, g, b, a, _) => Ok((*r, *g, *b, *a)),
        other => Err(Error::bad_value("color", other)),
    }
}

/// The executable form of [`mix_colors`].
fn mix(
    c1: (Rational, Rational, Rational, Rational),
    c2: (Rational, Rational, Rational, Rational),
    p: Rational,
) -> (r: Option<Value>)
    ensures
        match r {
            Some(v) => mix_colors(
                (c1.0@, c1.1@, c1.2@, c1.3@),
                (c2.0@, c2.1@, c2.2@, c2.3@),
                p@,
            ) == Some(v@),
            None => mix_colors((c1.0@, c1.1@, c1.2@, c1.3@), (c2.0@, c2.1@, c2.2@, c2.3@), p@)
                is None,
        },
{
    let one = Some(Rational::from_integer(1));
    let two = Some(Rational::from_integer(2));
    let a = rational_apply(Operator::Minus, &c1.3, &c2.3);
    let w = chained(Operator::Minus, chained(Operator::Multiply, Some(p), two), one);
    let wa = chained(Operator::Multiply, w, a);
    let minus_one = Rational::from_integer(-1);
    let is_minus_one: bool = match wa {
        Some(x) => x.same(&minus_one),
        None => false,
    };
    let inner = if is_minus_one {
        w
    } else {
        chained(Operator::Divide, chained(Operator::Plus, w, a), chained(Operator::Plus, one, wa))
    };
    let w1 = chained(Operator::Divide, chained(Operator::Plus, inner, one), two);
    let w2 = chained(Operator::Minus, one, w1);
    let q = chained(Operator::Minus, one, Some(p));
    let r = chained(
        Operator::Plus,
        chained(Operator::Multiply, Some(c1.0), w1),
        chained(Operator::Multiply, Some(c2.0), w2),
    );
    let g = chained(
        Operator::Plus,
        chained(Operator::Multiply, Some(c1.1), w1),
        chained(Operator::Multiply, Some(c2.1), w2),
    );
    let b = chained(
        Operator::Plus,
        chained(Operator::Multiply, Some(c1.2), w1),
        chained(Operator::Multiply, Some(c2.2), w2),
    );
    let alpha = chained(
        Operator::Plus,
        chained(Operator::Multiply, Some(c1.3), Some(p)),
        chained(Operator::Multiply, Some(c2.3), q),
    );
    match (r, g, b, alpha) {
        (Some(r), Some(g), Some(b), Some(alpha)) => Some(Value::rgba(r, g, b, alpha)),
        _ => None,
    }
}

/// The color of three channels and an alpha: see [`rgb_result`].
fn rgb_call(args: &CallArgs, alpha: Result<Rational, Error>) -> (res: Result<Value, Error>)
    ensures
        outcome(res) == rgb_result(
            arg_models(args@),
            match alpha {
                Ok(q) => Ok(q@),
                Err(e) => Err(e@),
            },
        ),
{
    let r = match need_arg(args, 0, "red") {
        Ok(v) => v,
        Err(e) => {
            return Err(e);
        },
    };
    let g = match need_arg(args, 1, "green") {
        Ok(v) => v,
        Err(e) => {
            return Err(e);
        },
    };
    let b = match need_arg(args, 2, "blue") {
        Ok(v) => v,
        Err(e) => {
            return Err(e);
        },
    };
    match (channel_from(r), channel_from(g), channel_from(b), alpha) {
        (Ok(r), Ok(g), Ok(b), Ok(a)) => Ok(Value::rgba(r, g, b, a)),
        (Err(e), _, _, _) => Err(e),
        (_, Err(e), _, _) => Err(e),
        (_, _, Err(e), _) => Err(e),
        (_, _, _, Err(e)) => Err(e),
    }
}

/// The executable form of [`rgba_result`].
fn rgba_call(args: &CallArgs) -> (res: Result<Value, Error>)
    ensures
        outcome(res) == rgba_result(arg_models(args@)),
{
    match get_arg(args, 0, "color") {
        Some(Value::Color(r, g, b, _, _)) => match need_arg(args, 1, "alpha") {
            Ok(a) => match number_from(a) {
                Ok(q) => Ok(Value::rgba(*r, *g, *b, q)),
                Err(e) => Err(e),
            },
            Err(e) => Err(e),
        },
        _ => match need_arg(args, 3, "alpha") {
            Ok(a) => rgb_call(args, number_from(a)),
            Err(e) => Err(e),
        },
    }
}

/// The executable form of [`mix_result`].
fn mix_call(args: &CallArgs) -> (res: Result<Value, Error>)
    ensures
        outcome(res) == mix_result(arg_models(args@)),
{
    let v1 = match need_arg(args, 0, "color1") {
        Ok(v) => v,
        Err(e) => {
            return Err(e);
        },
    };
    let v2 = match need_arg(args, 1, "color2") {
        Ok(v) => v,
        Err(e) => {
            return Err(e);
        },
    };
    let weight = match get_arg(args, 2, "weight") {
        Some(w) => number_from(w),
        None => Ok(Rational::from_integer(50)),
    };
    match (color_from(v1), color_from(v2), weight) {
        (Ok(c1), Ok(c2), Ok(w)) => {
            match rational_apply(Operator::Divide, &w, &Rational::from_integer(100)) {
                Some(p) => match mix(c1, c2, p) {
                    Some(v) => Ok(v),
                    None => Err(overflow()),
                },
                None => Err(overflow()),
            }
        },
        (Err(e), _, _) => Err(e),
        (_, Err(e), _) => Err(e),
        (_, _, Err(e)) => Err(e),
    }
}

/// One channel of a color as a number: `which` picks red, green, blue or
/// alpha.
fn channel_call(args: &CallArgs, which: u8) -> (res: Result<Value, Error>)
    requires
        which < 4,
    ensures
        outcome(res) == match required(arg_models(args@), 0, "color"@) {
            Ok(c) => match color_of(c) {
                Ok(ch) => Ok(
                    ValueView::Numeric(
                        if which == 0 {
                            ch.0
                        } else if which == 1 {
                            ch.1
                        } else if which == 2 {
                            ch.2
                        } else {
                            ch.3
                        },
                        UnitView::Known(Unit::Unitless),
                        false,
                        true,
                    ),
                ),
                Err(e) => Err(e),
            },
            Err(e) => Err(e),
        },
{
    let c = match need_arg(args, 0, "color") {
        Ok(v) => v,
        Err(e) => {
            return Err(e);
        },
    };
    match color_from(c) {
        Ok(ch) => {
            let q = if which == 0 {
                ch.0
            } else if which == 1 {
                ch.1
            } else if which == 2 {
                ch.2
            } else {
                ch.3
            };
            Ok(Value::Numeric(q, Unit::Unitless, false, true))
        },
        Err(e) => Err(e),
    }
}

/// The color with each of its channels taken from 255.
fn invert_call(args: &CallArgs) -> (res: Result<Value, Error>)
    ensures
        outcome(res) == SassFunction::Invert.result(arg_models(args@)),
{
    let c = match need_arg(args, 0, "color") {
        Ok(v) => v,
        Err(e) => {
            return Err(e);
        },
    };
    match color_from(c) {
        Ok(ch) => {
            let top = Rational::from_integer(255);
            match (
                rational_apply(Operator::Minus, &top, &ch.0),
                rational_apply(Operator::Minus, &top, &ch.1),
                rational_apply(Operator::Minus, &top, &ch.2),
            ) {
                (Some(r), Some(g), Some(b)) => Ok(Value::rgba(r, g, b, ch.3)),
                _ => Err(overflow()),
            }
        },
        Err(e) => Err(e),
    }
}

impl SassFunction {
    /// Calls the function with evaluated arguments.
    pub fn call(&self, args: &CallArgs) -> (res: Result<Value, Error>)
        ensures
            outcome(res) == self.result(arg_models(args@)),
    {
        match self {
            SassFunction::Rgb => rgb_call(args, Ok(Rational::from_integer(1))),
            SassFunction::Rgba => rgba_call(args),
            SassFunction::Red => channel_call(args, 0),
            SassFunction::Green => channel_call(args, 1),
            SassFunction::Blue => channel_call(args, 2),
            SassFunction::Alpha => channel_call(args, 3),
            SassFunction::Mix => mix_call(args),
            SassFunction::Invert => invert_call(args),
            SassFunction::Quote => match need_arg(args, 0, "string") {
                Ok(v) => Ok(
                    match v {
                        Value::Literal(s, _) => Value::Literal(s.clone(), Quotes::Double),
                        other => Value::Literal(
                            other.format(OutputStyle::Expanded),
                            Quotes::Double,
                        ),
                    },
                ),
                Err(e) => Err(e),
            },
            SassFunction::Unquote => match need_arg(args, 0, "string") {
                Ok(v) => Ok(v.dup().unquote()),
                Err(e) => Err(e),
            },
            SassFunction::If => match need_arg(args, 0, "condition") {
                Ok(c) => if c.is_true() {
                    match need_arg(args, 1, "if_true") {
                        Ok(v) => Ok(v.dup()),
                        Err(e) => Err(e),
                    }
                } else {
                    match need_arg(args, 2, "if_false") {
                        Ok(v) => Ok(v.dup()),
                        Err(e) => Err(e),
                    }
                },
                Err(e) => Err(e),
            },
            SassFunction::Unit => match need_arg(args, 0, "number") {
                Ok(Value::Numeric(_, u, _, _)) => Ok(Value::Literal(u.token(), Quotes::Double)),
                Ok(other) => Err(Error::bad_value("number", other)),
                Err(e) => Err(e),
            },
            SassFunction::Unitless => match need_arg(args, 0, "number") {
                Ok(Value::Numeric(_, u, _, _)) => Ok(Value::bool(u.is_none())),
                Ok(other) => Err(Error::bad_value("number", other)),
                Err(e) => Err(e),
            },
            SassFunction::TypeOf => match need_arg(args, 0, "value") {
                Ok(v) => Ok(Value::Literal(String::from_str(v.type_of()), Quotes::Unquoted)),
                Err(e) => Err(e),
            },
        }
    }
}

} // verus!
