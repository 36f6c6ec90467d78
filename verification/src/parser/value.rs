//! The grammar of value expressions: numbers, colors, strings, lists,
//! calls and operations, from the loosest binding to the tightest.
use crate::colors::{color_of_name, name_to_rgb};
use crate::operator::Operator;
use crate::parser::strings::{is_name, is_name_char};
use crate::parser::util::{
    char_at, digits_end, digits_value, hex, hex_number, hex_value, is_hex, is_space,
    lemma_pow10_36, lemma_pow10_monotonic, letters_end, max_digits, next_is, pow10,
    power_of_ten, prefix_at, read_digits, skip_digits, skip_letters, skip_ws, slice, space,
    starts_with, ws_end,
};
use crate::rational::{lowest, Ratio, Rational};
use crate::text::{is_str, string_of};
use crate::unit::{unit_for, Unit};
use crate::value::{
    arg_models, lemma_model_parts, models, opt_text, CallArgs, ListSeparator, Quotes, Value,
    ValueView,
};
use vstd::prelude::*;

verus! {

/// What a parser finds: a value and the place behind it.
pub type Found = Option<(ValueView, int)>;

/// The model of what a parser returns.
pub open spec fn found(r: Option<(Value, usize)>) -> Found {
    match r {
        Some((v, n)) => Some((v@, n as int)),
        None => None,
    }
}

/// The model of an optional value.
pub open spec fn opt_model(o: Option<Value>) -> Option<ValueView> {
    match o {
        Some(v) => Some(v@),
        None => None,
    }
}

/// The model of the arguments that a parser returns.
pub open spec fn found_args(r: Option<(CallArgs, usize)>) -> Option<
    (Seq<(Option<Seq<char>>, ValueView)>, int),
> {
    match r {
        Some((args, n)) => Some((arg_models(args@), n as int)),
        None => None,
    }
}

/// A character of an unquoted string.
pub open spec fn is_literal_char(c: char) -> bool {
    !is_space(c) && c != '+' && c != '*' && c != '/' && c != '=' && c != ';' && c != ','
        && c != '$' && c != '(' && c != ')' && c != '{' && c != '}' && c != '[' && c != ']'
        && c != '!' && c != '\'' && c != '"' && c != '#' && c != '<' && c != '>' && c != '%'
}

/// The number of characters of an unquoted string that start at `pos`.
pub open spec fn literal_len(s: Seq<char>, pos: int) -> nat
    decreases s.len() - pos,
{
    if 0 <= pos < s.len() && is_literal_char(s[pos]) {
        1 + literal_len(s, pos + 1)
    } else {
        0
    }
}

/// The place behind the word that starts at `pos`.
pub open spec fn word_end(s: Seq<char>, pos: int) -> int {
    pos + literal_len(s, pos)
}

/// The number of characters of a name that start at `pos`.
pub open spec fn name_len(s: Seq<char>, pos: int) -> nat
    decreases s.len() - pos,
{
    if 0 <= pos < s.len() && is_name(s[pos]) {
        1 + name_len(s, pos + 1)
    } else {
        0
    }
}

/// The place behind the unit that starts at `pos`: `%`, or a run of
/// letters.
pub open spec fn unit_end(s: Seq<char>, pos: int) -> int {
    if char_at(s, pos) == Some('%') {
        pos + 1
    } else {
        letters_end(s, pos)
    }
}

/// A number: an optional sign, digits with or without a point among or
/// before them, and an optional unit. A `+` sets the flag of the explicit
/// sign. There is no number of more than 36 digits, and none that a
/// [`Rational`] cannot hold.
#[verifier::opaque]
pub open spec fn p_number(s: Seq<char>, pos: int) -> Found {
    let negative = char_at(s, pos) == Some('-');
    let plus = char_at(s, pos) == Some('+');
    let start = if negative || plus {
        pos + 1
    } else {
        pos
    };
    let whole_end = digits_end(s, start);
    let has_fraction = char_at(s, whole_end) == Some('.') && digits_end(s, whole_end + 1)
        > whole_end + 1;
    let end = if has_fraction {
        digits_end(s, whole_end + 1)
    } else {
        whole_end
    };
    let decimals: int = if has_fraction {
        end - (whole_end + 1)
    } else {
        0
    };
    if pos < 0 || (whole_end == start && !has_fraction) || (whole_end - start) + decimals
        > max_digits() {
        None
    } else {
        let fraction = if has_fraction {
            digits_value(s, whole_end + 1, end)
        } else {
            0
        };
        let all = digits_value(s, start, whole_end) * pow10(decimals as nat) + fraction;
        let q = Ratio::reduce(
            if negative {
                -all
            } else {
                all
            },
            pow10(decimals as nat),
        );
        if q.fits() {
            Some(
                (
                    ValueView::Numeric(
                        q,
                        unit_for(s.subrange(end, unit_end(s, end))),
                        plus,
                        false,
                    ),
                    unit_end(s, end),
                ),
            )
        } else {
            None
        }
    }
}

/// A variable: `$` and a name.
#[verifier::opaque]
pub open spec fn p_variable(s: Seq<char>, pos: int) -> Found {
    if char_at(s, pos) == Some('$') && name_len(s, pos + 1) > 0 {
        Some(
            (
                ValueView::Variable(s.subrange(pos + 1, pos + 1 + name_len(s, pos + 1))),
                pos + 1 + name_len(s, pos + 1),
            ),
        )
    } else {
        None
    }
}

/// Whether `n` hexadecimal digits stand at `pos`.
pub open spec fn hex_run(s: Seq<char>, pos: int, n: int) -> bool {
    0 <= pos && pos + n <= s.len() && forall|i: int| pos <= i < pos + n ==> is_hex(#[trigger] s[i])
}

/// A color in hexadecimal digits: `#` and six digits, two for each
/// channel, or three digits, each written once for twice. The color is
/// opaque and keeps its spelling as its name.
#[verifier::opaque]
pub open spec fn p_hex_color(s: Seq<char>, pos: int) -> Found {
    if char_at(s, pos) != Some('#') {
        None
    } else if hex_run(s, pos + 1, 6) {
        Some(
            (
                ValueView::Color(
                    Ratio::from_int(hex_value(s[pos + 1]) * 16 + hex_value(s[pos + 2])),
                    Ratio::from_int(hex_value(s[pos + 3]) * 16 + hex_value(s[pos + 4])),
                    Ratio::from_int(hex_value(s[pos + 5]) * 16 + hex_value(s[pos + 6])),
                    Ratio::from_int(1),
                    Some(s.subrange(pos, pos + 7)),
                ),
                pos + 7,
            ),
        )
    } else if hex_run(s, pos + 1, 3) {
        Some(
            (
                ValueView::Color(
                    Ratio::from_int(hex_value(s[pos + 1]) * 17),
                    Ratio::from_int(hex_value(s[pos + 2]) * 17),
                    Ratio::from_int(hex_value(s[pos + 3]) * 17),
                    Ratio::from_int(1),
                    Some(s.subrange(pos, pos + 4)),
                ),
                pos + 4,
            ),
        )
    } else {
        None
    }
}

/// What a word stands for: a truth value, null, the color that it names,
/// or an unquoted string.
#[verifier::opaque]
pub open spec fn classify(word: Seq<char>) -> ValueView {
    if word == "true"@ {
        ValueView::True
    } else if word == "false"@ {
        ValueView::False
    } else if word == "null"@ {
        ValueView::Null
    } else {
        match color_of_name(word) {
            Some((r, g, b)) => ValueView::Color(
                Ratio::from_int(r as int),
                Ratio::from_int(g as int),
                Ratio::from_int(b as int),
                Ratio::from_int(1),
                Some(word),
            ),
            None => ValueView::Literal(word, Quotes::Unquoted),
        }
    }
}

/// The value of two parts of a string that stand side by side.
pub open spec fn beside(acc: Option<ValueView>, text: Seq<char>, quote: Quotes) -> ValueView {
    match acc {
        None => ValueView::Literal(text, quote),
        Some(a) => if text.len() == 0 {
            a
        } else {
            ValueView::BinOp(Box::new(a), Operator::Plus, Box::new(ValueView::Literal(text, quote)))
        },
    }
}

/// The quotes that a quotation mark stands for.
pub open spec fn quotes_of(mark: char) -> Quotes {
    if mark == '"' {
        Quotes::Double
    } else {
        Quotes::Single
    }
}

/// How a single value starts.
#[derive(Clone, Copy, Debug, PartialEq, Eq, Structural)]
pub enum Lead {
    /// `$`: a variable.
    Dollar,
    /// `#{`: an interpolation.
    Interpolation,
    /// `#`: a color in hexadecimal digits.
    Hash,
    /// A quotation mark: a quoted string.
    Quote(char),
    /// `(`: a value in parentheses.
    Paren,
    /// `[`: a list in brackets.
    Bracket,
    /// A word with `(` behind it: a call.
    Call,
    /// The word `not` with white space behind it.
    Not,
    /// Any other word.
    Word,
    /// `-` or `+` before a value.
    Sign(Operator),
    /// Nothing that a value starts with.
    Nothing,
}

/// How the single value at `pos` starts. A word is a run of characters of
/// unquoted strings other than a lone `-`.
#[verifier::opaque]
pub open spec fn lead_at(s: Seq<char>, pos: int) -> Lead {
    match char_at(s, pos) {
        None => Lead::Nothing,
        Some(c) => {
            let end = word_end(s, pos);
            if c == '$' {
                Lead::Dollar
            } else if c == '#' {
                if char_at(s, pos + 1) == Some('{') {
                    Lead::Interpolation
                } else {
                    Lead::Hash
                }
            } else if c == '"' || c == '\'' {
                Lead::Quote(c)
            } else if c == '(' {
                Lead::Paren
            } else if c == '[' {
                Lead::Bracket
            } else if is_literal_char(c) && !(c == '-' && end == pos + 1) {
                if char_at(s, end) == Some('(') {
                    Lead::Call
                } else if s.subrange(pos, end) == "not"@ && ws_end(s, end) > end {
                    Lead::Not
                } else {
                    Lead::Word
                }
            } else if c == '-' {
                Lead::Sign(Operator::Minus)
            } else if c == '+' {
                Lead::Sign(Operator::Plus)
            } else {
                Lead::Nothing
            }
        },
    }
}

/// A single value: a number, a variable, an interpolation, a color, a
/// quoted string, a value in parentheses or brackets, a word or a call, or
/// one of these behind a sign or `not`.
pub open spec fn p_single_value(s: Seq<char>, pos: int) -> Found
    decreases s.len() - pos, 6nat,
{
    let end = word_end(s, pos);
    match p_number(s, pos) {
        Some(r) => Some(r),
        None => match lead_at(s, pos) {
            Lead::Dollar => p_variable(s, pos),
            Lead::Interpolation => if pos + 2 <= s.len() {
                p_enclosed(s, pos + 2, '}')
            } else {
                None
            },
            Lead::Hash => p_hex_color(s, pos),
            Lead::Quote(mark) => if pos + 1 <= s.len() {
                p_quoted(s, pos + 1, mark, seq![], None)
            } else {
                None
            },
            Lead::Paren => if pos + 1 <= s.len() {
                p_enclosed(s, pos + 1, ')')
            } else {
                None
            },
            Lead::Bracket => if pos + 1 <= s.len() {
                p_enclosed(s, pos + 1, ']')
            } else {
                None
            },
            Lead::Call => if end + 1 <= s.len() {
                match p_args(s, end + 1, seq![]) {
                    Some((args, n)) => Some((ValueView::Call(s.subrange(pos, end), args), n)),
                    None => None,
                }
            } else {
                None
            },
            Lead::Not => if pos < ws_end(s, end) <= s.len() {
                match p_single_value(s, ws_end(s, end)) {
                    Some((v, n)) => Some((ValueView::UnaryOp(Operator::Not, Box::new(v)), n)),
                    None => Some((classify(s.subrange(pos, end)), end)),
                }
            } else {
                None
            },
            Lead::Word => Some((classify(s.subrange(pos, end)), end)),
            Lead::Sign(op) => if pos + 1 <= s.len() {
                match p_single_value(s, pos + 1) {
                    Some((v, n)) => Some((ValueView::UnaryOp(op, Box::new(v)), n)),
                    None => None,
                }
            } else {
                None
            },
            Lead::Nothing => None,
        },
    }
}

/// The value of what stands before the closing mark `close`. Before a
/// brace it is an interpolation, before a parenthesis a value in
/// parentheses. Before a bracket it is a list in brackets: the list that
/// stands there, or the list of the one value that stands there.
pub open spec fn enclosed(v: ValueView, close: char) -> ValueView {
    if close == '}' {
        ValueView::Interpolation(Box::new(v))
    } else if close == ')' {
        ValueView::Paren(Box::new(v))
    } else {
        match v {
            ValueView::List(items, sep, false) => ValueView::List(items, sep, true),
            other => ValueView::List(seq![other], ListSeparator::Space, true),
        }
    }
}

/// The place behind the mark `close`, if it stands at `pos` or behind
/// white space that starts there.
#[verifier::opaque]
pub open spec fn close_at(s: Seq<char>, pos: int, close: char) -> Option<int> {
    if char_at(s, ws_end(s, pos)) == Some(close) {
        Some(ws_end(s, pos) + 1)
    } else {
        None
    }
}

/// What stands between an opening mark and its closing mark `close`: an
/// expression, with white space around it. Parentheses and brackets may be
/// empty: that is the empty list.
pub open spec fn p_enclosed(s: Seq<char>, pos: int, close: char) -> Found
    decreases s.len() - pos, 22nat,
{
    let start = ws_end(s, pos);
    match close_at(s, pos, close) {
        Some(n) => if close != '}' {
            Some((ValueView::List(seq![], ListSeparator::Space, close == ']'), n))
        } else {
            None
        },
        None => if start <= s.len() {
            match p_value_expression(s, start) {
                Some((v, n)) => match close_at(s, n, close) {
                    Some(m) => Some((enclosed(v, close), m)),
                    None => None,
                },
                None => None,
            }
        } else {
            None
        },
    }
}

/// What the next characters of a quoted string are.
#[derive(Clone, Copy, Debug, PartialEq, Eq, Structural)]
pub enum Piece {
    /// The end of the text: the string is not closed.
    Open,
    /// The closing mark.
    Close,
    /// A backslash and the mark of the string: the mark itself.
    Mark,
    /// A backslash and another character: both stay.
    Escape(char),
    /// `#{`: an interpolation.
    Interpolation,
    /// Any other character.
    Plain(char),
}

/// What the characters at `pos` of a string with the given mark are.
#[verifier::opaque]
pub open spec fn piece_at(s: Seq<char>, pos: int, mark: char) -> Piece {
    match char_at(s, pos) {
        None => Piece::Open,
        Some(c) => {
            if c == mark {
                Piece::Close
            } else if c == '\\' {
                match char_at(s, pos + 1) {
                    None => Piece::Open,
                    Some(d) => if d == mark {
                        Piece::Mark
                    } else {
                        Piece::Escape(d)
                    },
                }
            } else if c == '#' && char_at(s, pos + 1) == Some('{') {
                Piece::Interpolation
            } else {
                Piece::Plain(c)
            }
        },
    }
}

/// The rest of a quoted string, up to its closing mark. A backslash keeps
/// the character behind it from ending the string or starting an
/// interpolation: before the mark of the string it goes away, before any
/// other character it stays. `#{` starts an interpolation; the parts of the
/// string around it and the interpolation are put together with `+`.
pub open spec fn p_quoted(
    s: Seq<char>,
    pos: int,
    mark: char,
    text: Seq<char>,
    acc: Option<ValueView>,
) -> Found
    decreases s.len() - pos, 5nat,
{
    match piece_at(s, pos, mark) {
        Piece::Open => None,
        Piece::Close => Some((beside(acc, text, quotes_of(mark)), pos + 1)),
        Piece::Mark => if pos + 2 <= s.len() {
            p_quoted(s, pos + 2, mark, text.push(mark), acc)
        } else {
            None
        },
        Piece::Escape(d) => if pos + 2 <= s.len() {
            p_quoted(s, pos + 2, mark, text.push('\\').push(d), acc)
        } else {
            None
        },
        Piece::Interpolation => if pos + 2 <= s.len() {
            match p_enclosed(s, pos + 2, '}') {
                Some((v, n)) => if pos < n <= s.len() {
                    p_quoted(
                        s,
                        n,
                        mark,
                        seq![],
                        Some(
                            ValueView::BinOp(
                                Box::new(beside(acc, text, quotes_of(mark))),
                                Operator::Plus,
                                Box::new(v),
                            ),
                        ),
                    )
                } else {
                    None
                },
                None => None,
            }
        } else {
            None
        },
        Piece::Plain(c) => if pos + 1 <= s.len() {
            p_quoted(s, pos + 1, mark, text.push(c), acc)
        } else {
            None
        },
    }
}

/// The name of the argument that starts at `pos`, if it has one, and the
/// place where its value starts: behind `$`, a name, a colon and white
/// space, or at `pos`.
#[verifier::opaque]
pub open spec fn arg_head(s: Seq<char>, pos: int) -> (Option<Seq<char>>, int) {
    let name_end = pos + 1 + name_len(s, pos + 1);
    if char_at(s, pos) == Some('$') && name_end > pos + 1 && char_at(s, ws_end(s, name_end))
        == Some(':') {
        (Some(s.subrange(pos + 1, name_end)), ws_end(s, ws_end(s, name_end) + 1))
    } else {
        (None, pos)
    }
}

/// What stands behind an argument: a comma, and the place behind it, or the
/// closing parenthesis, and the place behind it.
#[verifier::opaque]
pub open spec fn arg_tail(s: Seq<char>, pos: int) -> Option<(bool, int)> {
    if char_at(s, ws_end(s, pos)) == Some(',') {
        Some((true, ws_end(s, pos) + 1))
    } else if char_at(s, ws_end(s, pos)) == Some(')') {
        Some((false, ws_end(s, pos) + 1))
    } else {
        None
    }
}

/// The arguments of a call, behind its opening parenthesis or behind a
/// comma: each a list of values, some behind `$`, a name and a colon, with
/// commas between them, up to the closing parenthesis.
pub open spec fn p_args(s: Seq<char>, pos: int, acc: Seq<(Option<Seq<char>>, ValueView)>)
    -> Option<(Seq<(Option<Seq<char>>, ValueView)>, int)>
    decreases s.len() - pos, 22nat,
{
    let start = ws_end(s, pos);
    let head = arg_head(s, start);
    match close_at(s, pos, ')') {
        Some(n) => if acc.len() == 0 {
            Some((acc, n))
        } else {
            None
        },
        None => if pos <= head.1 <= s.len() {
            match p_space_list(s, head.1) {
                Some((v, n)) => match arg_tail(s, n) {
                    Some((more, m)) => if more {
                        if pos < m <= s.len() {
                            p_args(s, m, acc.push((head.0, v)))
                        } else {
                            None
                        }
                    } else {
                        Some((acc.push((head.0, v)), m))
                    },
                    None => None,
                },
                None => None,
            }
        } else {
            None
        },
    }
}

/// The sign of a term behind `pos`, with or without white space around it:
/// `*`, `/` or `%`, whether there is white space before and behind it, and
/// the place behind that.
#[verifier::opaque]
pub open spec fn term_sign(s: Seq<char>, pos: int) -> Option<(Operator, bool, bool, int)> {
    let at = ws_end(s, pos);
    let next = ws_end(s, at + 1);
    match char_at(s, at) {
        Some(c) => if c == '*' {
            Some((Operator::Multiply, at > pos, next > at + 1, next))
        } else if c == '/' {
            Some((Operator::Divide, at > pos, next > at + 1, next))
        } else if c == '%' {
            Some((Operator::Modulo, at > pos, next > at + 1, next))
        } else {
            None
        },
        None => None,
    }
}

/// Two values with the sign of a term between them: a slash makes a
/// division that knows the white space around it.
pub open spec fn term_of(a: ValueView, op: Operator, space1: bool, space2: bool, b: ValueView)
    -> ValueView {
    if op == Operator::Divide {
        ValueView::Div(Box::new(a), Box::new(b), space1, space2)
    } else {
        ValueView::BinOp(Box::new(a), op, Box::new(b))
    }
}

/// A term: single values with `*`, `/` or `%` between them, from the
/// left.
pub open spec fn p_term(s: Seq<char>, pos: int) -> Found
    decreases s.len() - pos, 8nat,
{
    match p_single_value(s, pos) {
        Some((v, n)) => if pos < n <= s.len() {
            p_term_rest(s, n, v)
        } else {
            None
        },
        None => None,
    }
}

/// The rest of a term behind its first values.
pub open spec fn p_term_rest(s: Seq<char>, pos: int, acc: ValueView) -> Found
    decreases s.len() - pos, 7nat,
{
    match term_sign(s, pos) {
        Some((op, space1, space2, next)) => if pos < next <= s.len() {
            match p_single_value(s, next) {
                Some((v, n)) => if pos < n <= s.len() {
                    p_term_rest(s, n, term_of(acc, op, space1, space2, v))
                } else {
                    None
                },
                None => Some((acc, pos)),
            }
        } else {
            None
        },
        None => Some((acc, pos)),
    }
}

/// The sign of a sum behind `pos`, and the place of the term behind it.
/// The sign stands close to both terms or has white space on both sides.
#[verifier::opaque]
pub open spec fn sum_sign(s: Seq<char>, pos: int) -> Option<(Operator, int)> {
    let at = ws_end(s, pos);
    if char_at(s, pos) == Some('+') {
        Some((Operator::Plus, pos + 1))
    } else if char_at(s, pos) == Some('-') {
        Some((Operator::Minus, pos + 1))
    } else if at > pos && ws_end(s, at + 1) > at + 1 {
        if char_at(s, at) == Some('+') {
            Some((Operator::Plus, ws_end(s, at + 1)))
        } else if char_at(s, at) == Some('-') {
            Some((Operator::Minus, ws_end(s, at + 1)))
        } else {
            None
        }
    } else {
        None
    }
}

/// A sum: terms with `+` or `-` between them, from the left.
pub open spec fn p_sum(s: Seq<char>, pos: int) -> Found
    decreases s.len() - pos, 10nat,
{
    match p_term(s, pos) {
        Some((v, n)) => if pos < n <= s.len() {
            p_sum_rest(s, n, v)
        } else {
            None
        },
        None => None,
    }
}

/// The rest of a sum behind its first terms.
pub open spec fn p_sum_rest(s: Seq<char>, pos: int, acc: ValueView) -> Found
    decreases s.len() - pos, 9nat,
{
    match sum_sign(s, pos) {
        Some((op, next)) => if pos < next <= s.len() {
            match p_term(s, next) {
                Some((v, n)) => if pos < n <= s.len() {
                    p_sum_rest(s, n, ValueView::BinOp(Box::new(acc), op, Box::new(v)))
                } else {
                    None
                },
                None => Some((acc, pos)),
            }
        } else {
            None
        },
        None => Some((acc, pos)),
    }
}

/// The comparison behind `pos`, with or without white space around it, and
/// the place behind it.
#[verifier::opaque]
pub open spec fn comparison_sign(s: Seq<char>, pos: int) -> Option<(Operator, int)> {
    let at = ws_end(s, pos);
    if prefix_at(s, at, "=="@) {
        Some((Operator::Equal, ws_end(s, at + 2)))
    } else if prefix_at(s, at, "!="@) {
        Some((Operator::NotEqual, ws_end(s, at + 2)))
    } else if prefix_at(s, at, ">="@) {
        Some((Operator::GreaterEqual, ws_end(s, at + 2)))
    } else if prefix_at(s, at, "<="@) {
        Some((Operator::LesserEqual, ws_end(s, at + 2)))
    } else if char_at(s, at) == Some('>') {
        Some((Operator::Greater, ws_end(s, at + 1)))
    } else if char_at(s, at) == Some('<') {
        Some((Operator::Lesser, ws_end(s, at + 1)))
    } else {
        None
    }
}

/// A comparison: sums with `==`, `!=`, `<`, `<=`, `>` or `>=` between
/// them, from the left.
pub open spec fn p_logic(s: Seq<char>, pos: int) -> Found
    decreases s.len() - pos, 12nat,
{
    match p_sum(s, pos) {
        Some((v, n)) => if pos < n <= s.len() {
            p_logic_rest(s, n, v)
        } else {
            None
        },
        None => None,
    }
}

/// The rest of a comparison behind its first sums.
pub open spec fn p_logic_rest(s: Seq<char>, pos: int, acc: ValueView) -> Found
    decreases s.len() - pos, 11nat,
{
    match comparison_sign(s, pos) {
        Some((op, next)) => if pos < next <= s.len() {
            match p_sum(s, next) {
                Some((v, n)) => if pos < n <= s.len() {
                    p_logic_rest(s, n, ValueView::BinOp(Box::new(acc), op, Box::new(v)))
                } else {
                    None
                },
                None => Some((acc, pos)),
            }
        } else {
            None
        },
        None => Some((acc, pos)),
    }
}

/// The place behind the word `word` that stands behind `pos` with white
/// space on both sides.
#[verifier::opaque]
pub open spec fn word_between(s: Seq<char>, pos: int, word: Seq<char>) -> Option<int> {
    let at = ws_end(s, pos);
    if at > pos && prefix_at(s, at, word) && ws_end(s, at + word.len()) > at + word.len() {
        Some(ws_end(s, at + word.len()))
    } else {
        None
    }
}

/// A conjunction: comparisons with `and` between them, from the left.
pub open spec fn p_and(s: Seq<char>, pos: int) -> Found
    decreases s.len() - pos, 14nat,
{
    match p_logic(s, pos) {
        Some((v, n)) => if pos < n <= s.len() {
            p_and_rest(s, n, v)
        } else {
            None
        },
        None => None,
    }
}

/// The rest of a conjunction behind its first comparisons.
pub open spec fn p_and_rest(s: Seq<char>, pos: int, acc: ValueView) -> Found
    decreases s.len() - pos, 13nat,
{
    match word_between(s, pos, "and"@) {
        Some(next) => if pos < next <= s.len() {
            match p_logic(s, next) {
                Some((v, n)) => if pos < n <= s.len() {
                    p_and_rest(s, n, ValueView::BinOp(Box::new(acc), Operator::And, Box::new(v)))
                } else {
                    None
                },
                None => Some((acc, pos)),
            }
        } else {
            None
        },
        None => Some((acc, pos)),
    }
}

/// A disjunction: conjunctions with `or` between them, from the left.
pub open spec fn single_expression_at(s: Seq<char>, pos: int) -> Found
    decreases s.len() - pos, 16nat,
{
    match p_and(s, pos) {
        Some((v, n)) => if pos < n <= s.len() {
            p_or_rest(s, n, v)
        } else {
            None
        },
        None => None,
    }
}

/// The rest of a disjunction behind its first conjunctions.
pub open spec fn p_or_rest(s: Seq<char>, pos: int, acc: ValueView) -> Found
    decreases s.len() - pos, 15nat,
{
    match word_between(s, pos, "or"@) {
        Some(next) => if pos < next <= s.len() {
            match p_and(s, next) {
                Some((v, n)) => if pos < n <= s.len() {
                    p_or_rest(s, n, ValueView::BinOp(Box::new(acc), Operator::Or, Box::new(v)))
                } else {
                    None
                },
                None => Some((acc, pos)),
            }
        } else {
            None
        },
        None => Some((acc, pos)),
    }
}

/// One value for one item, a list for more.
pub open spec fn list_or_item(items: Seq<ValueView>, sep: ListSeparator, list: bool) -> ValueView {
    if items.len() == 1 && !list {
        items[0]
    } else {
        ValueView::List(items, sep, false)
    }
}

/// A list of expressions with white space between them; a single
/// expression stands for itself.
pub open spec fn p_space_list(s: Seq<char>, pos: int) -> Found
    decreases s.len() - pos, 18nat,
{
    match single_expression_at(s, pos) {
        Some((v, n)) => if pos < n <= s.len() {
            p_space_rest(s, n, seq![v])
        } else {
            None
        },
        None => None,
    }
}

/// The rest of a list with white space between its items.
pub open spec fn p_space_rest(s: Seq<char>, pos: int, items: Seq<ValueView>) -> Found
    decreases s.len() - pos, 17nat,
{
    if pos < ws_end(s, pos) <= s.len() {
        match single_expression_at(s, ws_end(s, pos)) {
            Some((v, n)) => if pos < n <= s.len() {
                p_space_rest(s, n, items.push(v))
            } else {
                None
            },
            None => Some((list_or_item(items, ListSeparator::Space, false), pos)),
        }
    } else {
        Some((list_or_item(items, ListSeparator::Space, false), pos))
    }
}

/// The place behind a comma that stands at `pos` or behind white space
/// that starts there, and behind the white space behind the comma.
#[verifier::opaque]
pub open spec fn comma_at(s: Seq<char>, pos: int) -> Option<int> {
    if char_at(s, ws_end(s, pos)) == Some(',') {
        Some(ws_end(s, ws_end(s, pos) + 1))
    } else {
        None
    }
}

/// A value expression: lists with commas between them. A single list
/// without a comma behind it stands for itself.
pub open spec fn p_value_expression(s: Seq<char>, pos: int) -> Found
    decreases s.len() - pos, 20nat,
{
    match p_space_list(s, pos) {
        Some((v, n)) => if pos < n <= s.len() {
            p_comma_rest(s, n, seq![v], false)
        } else {
            None
        },
        None => None,
    }
}

/// The rest of a list with commas between its items. `trailing` says that
/// a comma came last.
pub open spec fn p_comma_rest(s: Seq<char>, pos: int, items: Seq<ValueView>, trailing: bool)
    -> Found
    decreases s.len() - pos, 19nat,
{
    match comma_at(s, pos) {
        Some(next) => if pos < next <= s.len() {
            match p_space_list(s, next) {
                Some((v, n)) => if pos < n <= s.len() {
                    p_comma_rest(s, n, items.push(v), false)
                } else {
                    None
                },
                None => p_comma_rest(s, next, items, true),
            }
        } else {
            None
        },
        None => Some((list_or_item(items, ListSeparator::Comma, trailing), pos)),
    }
}

/// Nothing is read behind the end of the text.
pub proof fn lemma_past_end(s: Seq<char>, pos: int)
    requires
        pos > s.len(),
    ensures
        p_number(s, pos) is None,
        p_single_value(s, pos) is None,
        single_expression_at(s, pos) is None,
        p_space_list(s, pos) is None,
        p_value_expression(s, pos) is None,
{
    reveal(p_number);
    reveal(lead_at);
}

/// The product of two powers of ten.
proof fn lemma_pow10_add(a: nat, b: nat)
    ensures
        pow10(a) * pow10(b) == pow10(a + b),
    decreases a,
{
    if a > 0 {
        lemma_pow10_add((a - 1) as nat, b);
        assert(10 * pow10((a - 1) as nat) * pow10(b) == 10 * (pow10((a - 1) as nat) * pow10(b)))
            by (nonlinear_arith);
    }
}

/// The executable form of [`is_literal_char`].
fn literal_char(c: char) -> (b: bool)
    ensures
        b == is_literal_char(c),
{
    !space(c) && c != '+' && c != '*' && c != '/' && c != '=' && c != ';' && c != ',' && c != '$'
        && c != '(' && c != ')' && c != '{' && c != '}' && c != '[' && c != ']' && c != '!'
        && c != '\'' && c != '"' && c != '#' && c != '<' && c != '>' && c != '%'
}

/// The executable form of [`word_end`].
fn skip_literal(input: &Vec<char>, pos: usize) -> (r: usize)
    requires
        pos <= input.len(),
    ensures
        r == word_end(input@, pos as int),
        pos <= r <= input.len(),
{
    let mut i: usize = pos;
    while i < input.len() && literal_char(input[i])
        invariant
            pos <= i <= input.len(),
            pos + literal_len(input@, pos as int) == i + literal_len(input@, i as int),
        decreases input.len() - i,
    {
        i += 1;
    }
    i
}

/// The executable form of [`name_len`].
pub(crate) fn skip_name(input: &Vec<char>, pos: usize) -> (r: usize)
    requires
        pos <= input.len(),
    ensures
        r == pos + name_len(input@, pos as int),
        pos <= r <= input.len(),
{
    let mut i: usize = pos;
    while i < input.len() && is_name_char(&input[i])
        invariant
            pos <= i <= input.len(),
            pos + name_len(input@, pos as int) == i + name_len(input@, i as int),
        decreases input.len() - i,
    {
        i += 1;
    }
    i
}

/// The executable form of [`unit_end`].
fn skip_unit(input: &Vec<char>, pos: usize) -> (r: usize)
    requires
        pos <= input.len(),
    ensures
        r == unit_end(input@, pos as int),
        pos <= r <= input.len(),
{
    if next_is(input, pos, '%') {
        pos + 1
    } else {
        skip_letters(input, pos)
    }
}

/// Reads a number: see [`p_number`].
pub fn number(input: &Vec<char>, pos: usize) -> (r: Option<(Value, usize)>)
    ensures
        found(r) == p_number(input@, pos as int),
        r matches Some((_, n)) ==> pos < n <= input.len(),
{
    if pos > input.len() {
        proof {
            lemma_past_end(input@, pos as int);
        }
        return None;
    }
    reveal(p_number);
    let negative = next_is(input, pos, '-');
    let plus = next_is(input, pos, '+');
    let start: usize = if negative || plus {
        pos + 1
    } else {
        pos
    };
    let whole_end = skip_digits(input, start);
    let mut end: usize = whole_end;
    let mut has_fraction: bool = false;
    if next_is(input, whole_end, '.') {
        let e = skip_digits(input, whole_end + 1);
        if e > whole_end + 1 {
            has_fraction = true;
            end = e;
        }
    }
    let decimals: usize = if has_fraction {
        end - (whole_end + 1)
    } else {
        0
    };
    if (whole_end == start && !has_fraction) || (whole_end - start) + decimals > 36 {
        return None;
    }
    let fraction: i128 = if has_fraction {
        read_digits(input, whole_end + 1, end)
    } else {
        0
    };
    let whole = read_digits(input, start, whole_end);
    let scale = power_of_ten(decimals);
    proof {
        let w = (whole_end - start) as nat;
        let d = decimals as nat;
        lemma_pow10_add(w, d);
        lemma_pow10_monotonic(w + d, 36);
        lemma_pow10_monotonic(d, 36);
        lemma_pow10_36();
        assert(0 <= whole * scale <= pow10(w) * pow10(d)) by (nonlinear_arith)
            requires
                0 <= whole < pow10(w),
                scale == pow10(d),
                scale > 0,
        ;
    }
    let all: i128 = whole * scale + fraction;
    let signed: i128 = if negative {
        -all
    } else {
        all
    };
    match lowest(signed, scale) {
        Some(q) => {
            let unit_end = skip_unit(input, end);
            let unit = Unit::for_token(&slice(input, end, unit_end));
            Some((Value::Numeric(q, unit, plus, false), unit_end))
        },
        None => None,
    }
}

/// The executable form of [`p_variable`].
fn variable(input: &Vec<char>, pos: usize) -> (r: Option<(Value, usize)>)
    requires
        pos <= input.len(),
    ensures
        found(r) == p_variable(input@, pos as int),
        r matches Some((_, n)) ==> pos < n <= input.len(),
{
    reveal(p_variable);
    if next_is(input, pos, '$') {
        let end = skip_name(input, pos + 1);
        if end > pos + 1 {
            Some((Value::Variable(string_of(&slice(input, pos + 1, end))), end))
        } else {
            None
        }
    } else {
        None
    }
}

/// The executable form of [`hex_run`].
fn hex_digits(input: &Vec<char>, pos: usize, n: usize) -> (b: bool)
    requires
        pos <= input.len(),
        n <= 6,
    ensures
        b == hex_run(input@, pos as int, n as int),
{
    if n > input.len() - pos {
        return false;
    }
    let mut i: usize = 0;
    while i < n
        invariant
            i <= n,
            pos + n <= input.len(),
            forall|j: int| pos <= j < pos + i ==> is_hex(#[trigger] input@[j]),
        decreases n - i,
    {
        if !hex(input[pos + i]) {
            return false;
        }
        i += 1;
    }
    true
}

/// The channel that one or two hexadecimal digits write: one digit stands
/// for the same digit twice.
fn channel_value(high: char, low: char, short: bool) -> (q: Rational)
    requires
        is_hex(high),
        is_hex(low),
    ensures
        q@ == Ratio::from_int(
            if short {
                hex_value(high) * 17
            } else {
                hex_value(high) * 16 + hex_value(low)
            },
        ),
{
    let h: isize = hex_number(high) as isize;
    let l: isize = hex_number(low) as isize;
    if short {
        Rational::from_integer(h * 17)
    } else {
        Rational::from_integer(h * 16 + l)
    }
}

/// The executable form of [`p_hex_color`].
fn hex_color(input: &Vec<char>, pos: usize) -> (r: Option<(Value, usize)>)
    requires
        pos <= input.len(),
    ensures
        found(r) == p_hex_color(input@, pos as int),
        r matches Some((_, n)) ==> pos < n <= input.len(),
{
    reveal(p_hex_color);
    if !next_is(input, pos, '#') {
        None
    } else if hex_digits(input, pos + 1, 6) {
        let name = string_of(&slice(input, pos, pos + 7));
        Some(
            (
                Value::Color(
                    channel_value(input[pos + 1], input[pos + 2], false),
                    channel_value(input[pos + 3], input[pos + 4], false),
                    channel_value(input[pos + 5], input[pos + 6], false),
                    Rational::one(),
                    Some(name),
                ),
                pos + 7,
            ),
        )
    } else if hex_digits(input, pos + 1, 3) {
        let name = string_of(&slice(input, pos, pos + 4));
        Some(
            (
                Value::Color(
                    channel_value(input[pos + 1], input[pos + 1], true),
                    channel_value(input[pos + 2], input[pos + 2], true),
                    channel_value(input[pos + 3], input[pos + 3], true),
                    Rational::one(),
                    Some(name),
                ),
                pos + 4,
            ),
        )
    } else {
        None
    }
}

/// The executable form of [`classify`].
fn classified(word: &Vec<char>) -> (v: Value)
    ensures
        v@ == classify(word@),
{
    reveal(classify);
    if is_str(word, "true") {
        Value::True
    } else if is_str(word, "false") {
        Value::False
    } else if is_str(word, "null") {
        Value::Null
    } else {
        match name_to_rgb(word) {
            Some((r, g, b)) => Value::Color(
                Rational::from_integer(r as isize),
                Rational::from_integer(g as isize),
                Rational::from_integer(b as isize),
                Rational::one(),
                Some(string_of(word)),
            ),
            None => Value::Literal(string_of(word), Quotes::Unquoted),
        }
    }
}

/// The executable form of [`beside`].
fn put_beside(acc: Option<Value>, text: &Vec<char>, quote: Quotes) -> (v: Value)
    ensures
        v@ == beside(opt_model(acc), text@, quote),
{
    let part = Value::Literal(string_of(text), quote);
    assert(part@ == ValueView::Literal(text@, quote));
    match acc {
        None => part,
        Some(a) => if text.len() == 0 {
            a
        } else {
            Value::BinOp(Box::new(a), Operator::Plus, Box::new(part))
        },
    }
}

/// The executable form of [`quotes_of`].
fn quotes_for_mark(mark: char) -> (q: Quotes)
    ensures
        q == quotes_of(mark),
{
    if mark == '"' {
        Quotes::Double
    } else {
        Quotes::Single
    }
}

/// The executable form of [`enclosed`].
fn enclose(v: Value, close: char) -> (r: Value)
    ensures
        r@ == enclosed(v@, close),
{
    if close == '}' {
        Value::Interpolation(Box::new(v))
    } else if close == ')' {
        Value::Paren(Box::new(v))
    } else {
        proof {
            lemma_model_parts(v);
        }
        match v {
            Value::List(items, sep, false) => {
                let r = Value::List(items, sep, true);
                proof {
                    lemma_model_parts(r);
                }
                r
            },
            other => {
                let ghost m = other@;
                let mut items: Vec<Value> = Vec::new();
                items.push(other);
                let r = Value::List(items, ListSeparator::Space, true);
                assert(r@->List_0 =~= seq![m]);
                r
            },
        }
    }
}

/// The executable form of [`lead_at`].
fn find_lead(input: &Vec<char>, pos: usize) -> (r: Lead)
    requires
        pos <= input.len(),
    ensures
        r == lead_at(input@, pos as int),
        r != Lead::Nothing ==> pos < input.len(),
        r == Lead::Interpolation ==> pos + 2 <= input.len(),
        r == Lead::Call ==> word_end(input@, pos as int) + 1 <= input.len(),
        r == Lead::Word || r == Lead::Not ==> pos < word_end(input@, pos as int),
        r == Lead::Not ==> word_end(input@, pos as int) < ws_end(
            input@,
            word_end(input@, pos as int),
        ),
{
    reveal(lead_at);
    if pos >= input.len() {
        return Lead::Nothing;
    }
    let c = input[pos];
    let end = skip_literal(input, pos);
    if c == '$' {
        Lead::Dollar
    } else if c == '#' {
        if next_is(input, pos + 1, '{') {
            Lead::Interpolation
        } else {
            Lead::Hash
        }
    } else if c == '"' || c == '\'' {
        Lead::Quote(c)
    } else if c == '(' {
        Lead::Paren
    } else if c == '[' {
        Lead::Bracket
    } else if literal_char(c) && !(c == '-' && end == pos + 1) {
        if next_is(input, end, '(') {
            Lead::Call
        } else if is_str(&slice(input, pos, end), "not") && skip_ws(input, end) > end {
            Lead::Not
        } else {
            Lead::Word
        }
    } else if c == '-' {
        Lead::Sign(Operator::Minus)
    } else if c == '+' {
        Lead::Sign(Operator::Plus)
    } else {
        Lead::Nothing
    }
}

/// Reads a single value: see [`p_single_value`].
pub fn single_value(input: &Vec<char>, pos: usize) -> (r: Option<(Value, usize)>)
    ensures
        found(r) == p_single_value(input@, pos as int),
        r matches Some((_, n)) ==> pos < n <= input.len(),
    decreases input.len() - pos, 6nat,
{
    if pos > input.len() {
        proof {
            lemma_past_end(input@, pos as int);
        }
        return None;
    }
    match number(input, pos) {
        Some(r) => {
            return Some(r);
        },
        None => {},
    }
    let end = skip_literal(input, pos);
    match find_lead(input, pos) {
        Lead::Dollar => variable(input, pos),
        Lead::Interpolation => enclosed_value(input, pos + 2, '}'),
        Lead::Hash => hex_color(input, pos),
        Lead::Quote(mark) => {
            let text: Vec<char> = Vec::new();
            let r = quoted(input, pos + 1, mark, text, None);
            r
        },
        Lead::Paren => enclosed_value(input, pos + 1, ')'),
        Lead::Bracket => enclosed_value(input, pos + 1, ']'),
        Lead::Call => {
            let none: CallArgs = Vec::new();
            assert(arg_models(none@) =~= seq![]);
            let r = match call_args(input, end + 1, none) {
                Some((args, n)) => {
                    let v = Value::Call(string_of(&slice(input, pos, end)), args);
                    proof {
                        lemma_model_parts(v);
                    }
                    Some((v, n))
                },
                None => None,
            };
            r
        },
        Lead::Not => {
            match single_value(input, skip_ws(input, end)) {
                Some((v, n)) => Some((make_unary(Operator::Not, v), n)),
                None => Some((classified(&slice(input, pos, end)), end)),
            }
        },
        Lead::Word => Some((classified(&slice(input, pos, end)), end)),
        Lead::Sign(op) => {
            match single_value(input, pos + 1) {
                Some((v, n)) => Some((make_unary(op, v), n)),
                None => None,
            }
        },
        Lead::Nothing => None,
    }
}

/// An operator before a value.
fn make_unary(op: Operator, v: Value) -> (r: Value)
    ensures
        r@ == ValueView::UnaryOp(op, Box::new(v@)),
{
    Value::UnaryOp(op, Box::new(v))
}

/// The executable form of [`close_at`].
pub(crate) fn find_close(input: &Vec<char>, pos: usize, close: char) -> (r: Option<usize>)
    requires
        pos <= input.len(),
    ensures
        match r {
            Some(n) => close_at(input@, pos as int, close) == Some(n as int) && pos < n
                <= input.len(),
            None => close_at(input@, pos as int, close) is None,
        },
{
    reveal(close_at);
    let at = skip_ws(input, pos);
    if next_is(input, at, close) {
        Some(at + 1)
    } else {
        None
    }
}

/// The executable form of [`p_enclosed`].
fn enclosed_value(input: &Vec<char>, pos: usize, close: char) -> (r: Option<(Value, usize)>)
    requires
        pos <= input.len(),
    ensures
        found(r) == p_enclosed(input@, pos as int, close),
        r matches Some((_, n)) ==> pos < n <= input.len(),
    decreases input.len() - pos, 22nat,
{
    match find_close(input, pos, close) {
        Some(n) => if close != '}' {
            let r = Value::List(Vec::new(), ListSeparator::Space, close == ']');
            assert(r@->List_0 =~= seq![]);
            Some((r, n))
        } else {
            None
        },
        None => {
            let start = skip_ws(input, pos);
            match value_expression(input, start) {
                Some((v, n)) => match find_close(input, n, close) {
                    Some(m) => Some((enclose(v, close), m)),
                    None => None,
                },
                None => None,
            }
        },
    }
}

/// The executable form of [`piece_at`].
fn find_piece(input: &Vec<char>, pos: usize, mark: char) -> (r: Piece)
    requires
        pos <= input.len(),
    ensures
        r == piece_at(input@, pos as int, mark),
        r != Piece::Open ==> pos < input.len(),
        (r == Piece::Mark || r == Piece::Interpolation || r is Escape) ==> pos + 2 <= input.len(),
{
    reveal(piece_at);
    if pos >= input.len() {
        return Piece::Open;
    }
    let c = input[pos];
    if c == mark {
        Piece::Close
    } else if c == '\\' {
        if pos + 1 >= input.len() {
            Piece::Open
        } else {
            let d = input[pos + 1];
            if d == mark {
                Piece::Mark
            } else {
                Piece::Escape(d)
            }
        }
    } else if c == '#' && next_is(input, pos + 1, '{') {
        Piece::Interpolation
    } else {
        Piece::Plain(c)
    }
}

/// The executable form of [`p_quoted`].
fn quoted(input: &Vec<char>, pos: usize, mark: char, text: Vec<char>, acc: Option<Value>) -> (r:
    Option<(Value, usize)>)
    requires
        pos <= input.len(),
    ensures
        found(r) == p_quoted(input@, pos as int, mark, text@, opt_model(acc)),
        r matches Some((_, n)) ==> pos < n <= input.len(),
    decreases input.len() - pos, 5nat,
{
    let mut text = text;
    match find_piece(input, pos, mark) {
        Piece::Open => None,
        Piece::Close => Some((put_beside(acc, &text, quotes_for_mark(mark)), pos + 1)),
        Piece::Mark => {
            text.push(mark);
            quoted(input, pos + 2, mark, text, acc)
        },
        Piece::Escape(d) => {
            text.push('\\');
            text.push(d);
            quoted(input, pos + 2, mark, text, acc)
        },
        Piece::Interpolation => {
            match enclosed_value(input, pos + 2, '}') {
                Some((v, n)) => {
                    let left = put_beside(acc, &text, quotes_for_mark(mark));
                    let joined = Value::BinOp(Box::new(left), Operator::Plus, Box::new(v));
                    quoted(input, n, mark, Vec::new(), Some(joined))
                },
                None => None,
            }
        },
        Piece::Plain(c) => {
            text.push(c);
            quoted(input, pos + 1, mark, text, acc)
        },
    }
}

/// The executable form of [`arg_head`].
fn find_arg_head(input: &Vec<char>, pos: usize) -> (r: (Option<String>, usize))
    requires
        pos <= input.len(),
    ensures
        (opt_text(r.0), r.1 as int) == arg_head(input@, pos as int),
        pos <= r.1 <= input.len(),
{
    reveal(arg_head);
    if pos >= input.len() {
        return (None, pos);
    }
    let name_end = skip_name(input, pos + 1);
    if next_is(input, pos, '$') && name_end > pos + 1 && next_is(
        input,
        skip_ws(input, name_end),
        ':',
    ) {
        (
            Some(string_of(&slice(input, pos + 1, name_end))),
            skip_ws(input, skip_ws(input, name_end) + 1),
        )
    } else {
        (None, pos)
    }
}

/// The executable form of [`arg_tail`].
fn find_arg_tail(input: &Vec<char>, pos: usize) -> (r: Option<(bool, usize)>)
    requires
        pos <= input.len(),
    ensures
        match r {
            Some((more, n)) => arg_tail(input@, pos as int) == Some((more, n as int)) && pos < n
                <= input.len(),
            None => arg_tail(input@, pos as int) is None,
        },
{
    reveal(arg_tail);
    let at = skip_ws(input, pos);
    if next_is(input, at, ',') {
        Some((true, at + 1))
    } else if next_is(input, at, ')') {
        Some((false, at + 1))
    } else {
        None
    }
}

/// The executable form of [`p_args`].
pub(crate) fn call_args(input: &Vec<char>, pos: usize, acc: CallArgs) -> (r: Option<(CallArgs, usize)>)
    requires
        pos <= input.len(),
    ensures
        found_args(r) == p_args(input@, pos as int, arg_models(acc@)),
        r matches Some((_, n)) ==> pos < n <= input.len(),
    decreases input.len() - pos, 22nat,
{
    let mut acc = acc;
    match find_close(input, pos, ')') {
        Some(n) => {
            return if acc.len() == 0 {
                Some((acc, n))
            } else {
                None
            };
        },
        None => {},
    }
    let start = skip_ws(input, pos);
    let (name, value_start) = find_arg_head(input, start);
    match space_list(input, value_start) {
        Some((v, n)) => {
            let ghost before = arg_models(acc@);
            let ghost item = (opt_text(name), v@);
            match find_arg_tail(input, n) {
                Some((more, m)) => {
                    acc.push((name, v));
                    assert(arg_models(acc@) =~= before.push(item));
                    if more {
                        call_args(input, m, acc)
                    } else {
                        Some((acc, m))
                    }
                },
                None => None,
            }
        },
        None => None,
    }
}

/// The executable form of [`term_sign`].
fn find_term_sign(input: &Vec<char>, pos: usize) -> (r: Option<(Operator, bool, bool, usize)>)
    requires
        pos <= input.len(),
    ensures
        match r {
            Some((op, s1, s2, next)) => term_sign(input@, pos as int) == Some(
                (op, s1, s2, next as int),
            ) && pos < next <= input.len(),
            None => term_sign(input@, pos as int) is None,
        },
{
    reveal(term_sign);
    let at = skip_ws(input, pos);
    if at >= input.len() {
        return None;
    }
    let c = input[at];
    let next = skip_ws(input, at + 1);
    if c == '*' {
        Some((Operator::Multiply, at > pos, next > at + 1, next))
    } else if c == '/' {
        Some((Operator::Divide, at > pos, next > at + 1, next))
    } else if c == '%' {
        Some((Operator::Modulo, at > pos, next > at + 1, next))
    } else {
        None
    }
}

/// The executable form of [`term_of`].
fn make_term(a: Value, op: Operator, space1: bool, space2: bool, b: Value) -> (r: Value)
    ensures
        r@ == term_of(a@, op, space1, space2, b@),
{
    match op {
        Operator::Divide => Value::Div(Box::new(a), Box::new(b), space1, space2),
        _ => Value::BinOp(Box::new(a), op, Box::new(b)),
    }
}

/// An operator between two values.
fn make_binary(a: Value, op: Operator, b: Value) -> (r: Value)
    ensures
        r@ == ValueView::BinOp(Box::new(a@), op, Box::new(b@)),
{
    Value::BinOp(Box::new(a), op, Box::new(b))
}

/// The executable form of [`p_term`].
fn term(input: &Vec<char>, pos: usize) -> (r: Option<(Value, usize)>)
    requires
        pos <= input.len(),
    ensures
        found(r) == p_term(input@, pos as int),
        r matches Some((_, n)) ==> pos < n <= input.len(),
    decreases input.len() - pos, 8nat,
{
    match single_value(input, pos) {
        Some((v, n)) => term_rest(input, n, v),
        None => None,
    }
}

/// The executable form of [`p_term_rest`].
fn term_rest(input: &Vec<char>, pos: usize, acc: Value) -> (r: Option<(Value, usize)>)
    requires
        pos <= input.len(),
    ensures
        found(r) == p_term_rest(input@, pos as int, acc@),
        r matches Some((_, n)) ==> pos <= n <= input.len(),
    decreases input.len() - pos, 7nat,
{
    match find_term_sign(input, pos) {
        Some((op, space1, space2, next)) => {
            match single_value(input, next) {
                Some((v, n)) => term_rest(input, n, make_term(acc, op, space1, space2, v)),
                None => Some((acc, pos)),
            }
        },
        None => Some((acc, pos)),
    }
}

/// The executable form of [`sum_sign`].
fn find_sum_sign(input: &Vec<char>, pos: usize) -> (r: Option<(Operator, usize)>)
    requires
        pos <= input.len(),
    ensures
        match r {
            Some((op, next)) => sum_sign(input@, pos as int) == Some((op, next as int)) && pos
                < next <= input.len(),
            None => sum_sign(input@, pos as int) is None,
        },
{
    reveal(sum_sign);
    let at = skip_ws(input, pos);
    if next_is(input, pos, '+') {
        Some((Operator::Plus, pos + 1))
    } else if next_is(input, pos, '-') {
        Some((Operator::Minus, pos + 1))
    } else if at > pos && at < input.len() && skip_ws(input, at + 1) > at + 1 {
        if next_is(input, at, '+') {
            Some((Operator::Plus, skip_ws(input, at + 1)))
        } else if next_is(input, at, '-') {
            Some((Operator::Minus, skip_ws(input, at + 1)))
        } else {
            None
        }
    } else {
        proof {
            if at >= input.len() {
                assert(ws_end(input@, at + 1) == at + 1) by {
                    reveal_with_fuel(crate::parser::util::ws_len, 1);
                }
            }
        }
        None
    }
}

/// The executable form of [`p_sum`].
fn sum(input: &Vec<char>, pos: usize) -> (r: Option<(Value, usize)>)
    requires
        pos <= input.len(),
    ensures
        found(r) == p_sum(input@, pos as int),
        r matches Some((_, n)) ==> pos < n <= input.len(),
    decreases input.len() - pos, 10nat,
{
    match term(input, pos) {
        Some((v, n)) => sum_rest(input, n, v),
        None => None,
    }
}

/// The executable form of [`p_sum_rest`].
fn sum_rest(input: &Vec<char>, pos: usize, acc: Value) -> (r: Option<(Value, usize)>)
    requires
        pos <= input.len(),
    ensures
        found(r) == p_sum_rest(input@, pos as int, acc@),
        r matches Some((_, n)) ==> pos <= n <= input.len(),
    decreases input.len() - pos, 9nat,
{
    match find_sum_sign(input, pos) {
        Some((op, next)) => {
            match term(input, next) {
                Some((v, n)) => sum_rest(input, n, make_binary(acc, op, v)),
                None => Some((acc, pos)),
            }
        },
        None => Some((acc, pos)),
    }
}

/// The executable form of [`comparison_sign`].
fn find_comparison(input: &Vec<char>, pos: usize) -> (r: Option<(Operator, usize)>)
    requires
        pos <= input.len(),
    ensures
        match r {
            Some((op, next)) => comparison_sign(input@, pos as int) == Some((op, next as int))
                && pos < next <= input.len(),
            None => comparison_sign(input@, pos as int) is None,
        },
{
    reveal(comparison_sign);
    proof {
        reveal_strlit("==");
        reveal_strlit("!=");
        reveal_strlit(">=");
        reveal_strlit("<=");
    }
    let at = skip_ws(input, pos);
    if starts_with(input, at, "==") {
        Some((Operator::Equal, skip_ws(input, at + 2)))
    } else if starts_with(input, at, "!=") {
        Some((Operator::NotEqual, skip_ws(input, at + 2)))
    } else if starts_with(input, at, ">=") {
        Some((Operator::GreaterEqual, skip_ws(input, at + 2)))
    } else if starts_with(input, at, "<=") {
        Some((Operator::LesserEqual, skip_ws(input, at + 2)))
    } else if next_is(input, at, '>') {
        Some((Operator::Greater, skip_ws(input, at + 1)))
    } else if next_is(input, at, '<') {
        Some((Operator::Lesser, skip_ws(input, at + 1)))
    } else {
        None
    }
}

/// The executable form of [`p_logic`].
fn logic(input: &Vec<char>, pos: usize) -> (r: Option<(Value, usize)>)
    requires
        pos <= input.len(),
    ensures
        found(r) == p_logic(input@, pos as int),
        r matches Some((_, n)) ==> pos < n <= input.len(),
    decreases input.len() - pos, 12nat,
{
    match sum(input, pos) {
        Some((v, n)) => logic_rest(input, n, v),
        None => None,
    }
}

/// The executable form of [`p_logic_rest`].
fn logic_rest(input: &Vec<char>, pos: usize, acc: Value) -> (r: Option<(Value, usize)>)
    requires
        pos <= input.len(),
    ensures
        found(r) == p_logic_rest(input@, pos as int, acc@),
        r matches Some((_, n)) ==> pos <= n <= input.len(),
    decreases input.len() - pos, 11nat,
{
    match find_comparison(input, pos) {
        Some((op, next)) => {
            match sum(input, next) {
                Some((v, n)) => logic_rest(input, n, make_binary(acc, op, v)),
                None => Some((acc, pos)),
            }
        },
        None => Some((acc, pos)),
    }
}

/// The executable form of [`word_between`].
fn find_word(input: &Vec<char>, pos: usize, word: &str, len: usize) -> (r: Option<usize>)
    requires
        pos <= input.len(),
        len == word@.len(),
        len > 0,
    ensures
        match r {
            Some(next) => word_between(input@, pos as int, word@) == Some(next as int) && pos
                < next <= input.len(),
            None => word_between(input@, pos as int, word@) is None,
        },
{
    reveal(word_between);
    let at = skip_ws(input, pos);
    if at > pos && starts_with(input, at, word) && skip_ws(input, at + len) > at + len {
        Some(skip_ws(input, at + len))
    } else {
        None
    }
}

/// The executable form of [`p_and`].
fn and_expression(input: &Vec<char>, pos: usize) -> (r: Option<(Value, usize)>)
    requires
        pos <= input.len(),
    ensures
        found(r) == p_and(input@, pos as int),
        r matches Some((_, n)) ==> pos < n <= input.len(),
    decreases input.len() - pos, 14nat,
{
    match logic(input, pos) {
        Some((v, n)) => and_rest(input, n, v),
        None => None,
    }
}

/// The place behind the word `and`: see [`word_between`].
fn find_and(input: &Vec<char>, pos: usize) -> (r: Option<usize>)
    requires
        pos <= input.len(),
    ensures
        match r {
            Some(next) => word_between(input@, pos as int, "and"@) == Some(next as int) && pos
                < next <= input.len(),
            None => word_between(input@, pos as int, "and"@) is None,
        },
{
    proof {
        reveal_strlit("and");
    }
    find_word(input, pos, "and", 3)
}

/// The place behind the word `or`: see [`word_between`].
fn find_or(input: &Vec<char>, pos: usize) -> (r: Option<usize>)
    requires
        pos <= input.len(),
    ensures
        match r {
            Some(next) => word_between(input@, pos as int, "or"@) == Some(next as int) && pos
                < next <= input.len(),
            None => word_between(input@, pos as int, "or"@) is None,
        },
{
    proof {
        reveal_strlit("or");
    }
    find_word(input, pos, "or", 2)
}

/// The executable form of [`p_and_rest`].
fn and_rest(input: &Vec<char>, pos: usize, acc: Value) -> (r: Option<(Value, usize)>)
    requires
        pos <= input.len(),
    ensures
        found(r) == p_and_rest(input@, pos as int, acc@),
        r matches Some((_, n)) ==> pos <= n <= input.len(),
    decreases input.len() - pos, 13nat,
{
    match find_and(input, pos) {
        Some(next) => {
            match logic(input, next) {
                Some((v, n)) => and_rest(input, n, make_binary(acc, Operator::And, v)),
                None => Some((acc, pos)),
            }
        },
        None => Some((acc, pos)),
    }
}

/// Reads an expression of single values and operators: see
/// [`single_expression_at`].
pub fn single_expression(input: &Vec<char>, pos: usize) -> (r: Option<(Value, usize)>)
    ensures
        found(r) == single_expression_at(input@, pos as int),
        r matches Some((_, n)) ==> pos < n <= input.len(),
    decreases input.len() - pos, 16nat,
{
    if pos > input.len() {
        proof {
            lemma_past_end(input@, pos as int);
        }
        return None;
    }
    match and_expression(input, pos) {
        Some((v, n)) => or_rest(input, n, v),
        None => None,
    }
}

/// The executable form of [`p_or_rest`].
fn or_rest(input: &Vec<char>, pos: usize, acc: Value) -> (r: Option<(Value, usize)>)
    requires
        pos <= input.len(),
    ensures
        found(r) == p_or_rest(input@, pos as int, acc@),
        r matches Some((_, n)) ==> pos <= n <= input.len(),
    decreases input.len() - pos, 15nat,
{
    match find_or(input, pos) {
        Some(next) => {
            match and_expression(input, next) {
                Some((v, n)) => or_rest(input, n, make_binary(acc, Operator::Or, v)),
                None => Some((acc, pos)),
            }
        },
        None => Some((acc, pos)),
    }
}

/// The executable form of [`list_or_item`].
fn make_list(items: Vec<Value>, sep: ListSeparator, list: bool) -> (v: Value)
    requires
        items.len() >= 1,
    ensures
        v@ == list_or_item(models(items@), sep, list),
{
    let mut items = items;
    if items.len() == 1 && !list {
        match items.pop() {
            Some(v) => v,
            None => Value::Null,
        }
    } else {
        let r = Value::List(items, sep, false);
        proof {
            lemma_model_parts(r);
        }
        r
    }
}

/// The list of one value.
fn one_item(v: Value) -> (items: Vec<Value>)
    ensures
        models(items@) == seq![v@],
        items.len() == 1,
{
    let mut items: Vec<Value> = Vec::new();
    items.push(v);
    items
}

/// The list with one more value at its end.
fn add_item(items: Vec<Value>, v: Value) -> (r: Vec<Value>)
    ensures
        models(r@) == models(items@).push(v@),
        r.len() == items.len() + 1,
{
    let mut items = items;
    items.push(v);
    items
}

/// Reads a list of expressions with white space between them: see
/// [`p_space_list`].
pub fn space_list(input: &Vec<char>, pos: usize) -> (r: Option<(Value, usize)>)
    ensures
        found(r) == p_space_list(input@, pos as int),
        r matches Some((_, n)) ==> pos < n <= input.len(),
    decreases input.len() - pos, 18nat,
{
    if pos > input.len() {
        proof {
            lemma_past_end(input@, pos as int);
        }
        return None;
    }
    match single_expression(input, pos) {
        Some((v, n)) => space_rest(input, n, one_item(v)),
        None => None,
    }
}

/// The executable form of [`p_space_rest`].
fn space_rest(input: &Vec<char>, pos: usize, items: Vec<Value>) -> (r: Option<(Value, usize)>)
    requires
        pos <= input.len(),
        items.len() >= 1,
    ensures
        found(r) == p_space_rest(input@, pos as int, models(items@)),
        r matches Some((_, n)) ==> pos <= n <= input.len(),
    decreases input.len() - pos, 17nat,
{
    let next = skip_ws(input, pos);
    if next > pos {
        match single_expression(input, next) {
            Some((v, n)) => space_rest(input, n, add_item(items, v)),
            None => Some((make_list(items, ListSeparator::Space, false), pos)),
        }
    } else {
        Some((make_list(items, ListSeparator::Space, false), pos))
    }
}

/// The executable form of [`comma_at`].
fn find_comma(input: &Vec<char>, pos: usize) -> (r: Option<usize>)
    requires
        pos <= input.len(),
    ensures
        match r {
            Some(next) => comma_at(input@, pos as int) == Some(next as int) && pos < next
                <= input.len(),
            None => comma_at(input@, pos as int) is None,
        },
{
    reveal(comma_at);
    let at = skip_ws(input, pos);
    if next_is(input, at, ',') {
        Some(skip_ws(input, at + 1))
    } else {
        None
    }
}

/// Reads a value expression at `pos`: see [`p_value_expression`]. The
/// result is the value and the place behind it.
pub fn value_expression(input: &Vec<char>, pos: usize) -> (r: Option<(Value, usize)>)
    ensures
        found(r) == p_value_expression(input@, pos as int),
        r matches Some((_, n)) ==> pos < n <= input.len(),
    decreases input.len() - pos, 20nat,
{
    if pos > input.len() {
        proof {
            lemma_past_end(input@, pos as int);
        }
        return None;
    }
    match space_list(input, pos) {
        Some((v, n)) => comma_rest(input, n, one_item(v), false),
        None => None,
    }
}

/// The executable form of [`p_comma_rest`].
fn comma_rest(input: &Vec<char>, pos: usize, items: Vec<Value>, trailing: bool) -> (r: Option<
    (Value, usize),
>)
    requires
        pos <= input.len(),
        items.len() >= 1,
    ensures
        found(r) == p_comma_rest(input@, pos as int, models(items@), trailing),
        r matches Some((_, n)) ==> pos <= n <= input.len(),
    decreases input.len() - pos, 19nat,
{
    match find_comma(input, pos) {
        Some(next) => {
            match space_list(input, next) {
                Some((v, n)) => comma_rest(input, n, add_item(items, v), false),
                None => comma_rest(input, next, items, true),
            }
        },
        None => Some((make_list(items, ListSeparator::Comma, trailing), pos)),
    }
}

} // verus!
