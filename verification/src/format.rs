//! Writing values as CSS text, in the expanded or the compressed style.
use crate::colors::{name_of_color, rgb_to_name};
use crate::numtheory::abs;
use crate::operator::{operator_token, Operator};
use crate::parser::util::pow10;
use crate::rational::{Ratio, Rational};
use crate::text::{chars_of, decimal, digit_char, push_all, push_decimal, push_str, string_of};

use crate::value::{
    arg_models, entry_models, lemma_model_parts, models, opt_text, CallArgs, ListSeparator, Quotes,
    Value, ValueView,
};
use vstd::arithmetic::div_mod::{lemma_fundamental_div_mod, lemma_mod_bound};
use vstd::prelude::*;

verus! {

/// How CSS is written: for a reader, or as short as possible.
#[derive(Clone, Copy, Debug, PartialEq, Eq, Structural)]
pub enum OutputStyle {
    Expanded,
    Compressed,
}

/// The digits of the decimal expansion of `rem / den`, a fraction between
/// zero and one: digit by digit until nothing is left, and `k` digits at
/// most.
pub open spec fn expansion(rem: int, den: int, k: nat) -> Seq<char>
    decreases k,
{
    if k == 0 || rem == 0 {
        seq![]
    } else {
        seq![digit_char((rem * 10) / den)] + expansion((rem * 10) % den, den, (k - 1) as nat)
    }
}

/// What is left of `rem / den` behind the fourth digit of its expansion, as
/// a numerator over `den`.
pub open spec fn residue(rem: int, den: int) -> int {
    (10000 * rem) % den
}

/// The fifth digit behind the point, for what is left behind the fourth:
/// ten times the rest rounded to the nearest whole number, a half upwards,
/// and nine where that would be ten.
pub open spec fn rounded_digit(rest: int, den: int) -> int {
    let tenths = (20 * rest + den) / (2 * den);
    if tenths > 9 {
        9
    } else {
        tenths
    }
}

/// The size of a number as it is written: its whole part, as it is, and
/// the digits behind the point. Those are the first four digits of the
/// expansion, or fewer where it ends before, and one rounded digit for what
/// is left behind the fourth.
pub open spec fn written_parts(q: Ratio) -> (nat, Seq<char>) {
    let whole = abs(q.num) / (q.den as nat);
    let rem = abs(q.num) as int % q.den;
    if residue(rem, q.den) == 0 {
        (whole, expansion(rem, q.den, 4))
    } else {
        (whole, expansion(rem, q.den, 4).push(digit_char(rounded_digit(residue(rem, q.den), q.den))))
    }
}

/// The sign of a number as it is written: `-` before a negative one, `+`
/// before any other that has an explicit sign.
pub open spec fn sign_text(q: Ratio, with_sign: bool) -> Seq<char> {
    if q.num < 0 {
        seq!['-']
    } else if with_sign {
        seq!['+']
    } else {
        seq![]
    }
}

/// The sign and the whole part of a number as it is written. Where
/// `skip_zero` holds, a whole part of zero is left out before a fraction.
pub open spec fn whole_text(q: Ratio, with_sign: bool, skip_zero: bool) -> Seq<char> {
    let (whole, digits) = written_parts(q);
    if whole == 0 && skip_zero && digits.len() > 0 {
        sign_text(q, with_sign)
    } else {
        sign_text(q, with_sign) + decimal(whole)
    }
}

/// A number as it is written, without its unit: the sign, the whole part,
/// and behind a point at most five digits.
pub open spec fn decimals_text(q: Ratio, with_sign: bool, skip_zero: bool) -> Seq<char> {
    let digits = written_parts(q).1;
    if digits.len() == 0 {
        whole_text(q, with_sign, skip_zero)
    } else {
        whole_text(q, with_sign, skip_zero) + seq!['.'] + digits
    }
}

/// One of the ten decimal digits.
pub open spec fn is_decimal_digit(c: char) -> bool {
    '0' <= c <= '9'
}

/// What stands behind the point is digits, five at most, and there are
/// none exactly where the number is whole. The first four, or all where
/// there are fewer, are the digits of the expansion, and there is a fifth
/// exactly where the expansion does not end within four.
pub proof fn lemma_fraction_digits(q: Ratio)
    requires
        q.den > 0,
    ensures
        written_parts(q).0 == abs(q.num) / (q.den as nat),
        written_parts(q).1.len() <= 5,
        written_parts(q).1.len() == 0 <==> abs(q.num) as int % q.den == 0,
        forall|i: int|
            0 <= i < written_parts(q).1.len() ==> is_decimal_digit(
                #[trigger] written_parts(q).1[i],
            ),
        written_parts(q).1.len() == 5 <==> residue(abs(q.num) as int % q.den, q.den) != 0,
        written_parts(q).1.take(
            if written_parts(q).1.len() == 5 {
                4
            } else {
                written_parts(q).1.len() as int
            },
        ) == expansion(abs(q.num) as int % q.den, q.den, 4),
{
    let rem = abs(q.num) as int % q.den;
    let digits = expansion(rem, q.den, 4);
    lemma_mod_bound(abs(q.num) as int, q.den);
    lemma_expansion(rem, q.den, 4);
    assert(pow10(4) == 10000) by {
        reveal_with_fuel(pow10, 5);
    }
    lemma_mod_bound(10000 * rem, q.den);
    lemma_rounded_digit(residue(rem, q.den), q.den);
    if residue(rem, q.den) != 0 {
        assert(rem != 0);
        assert(digits.push(digit_char(rounded_digit(residue(rem, q.den), q.den))).take(4)
            =~= digits);
    } else {
        assert(digits.take(digits.len() as int) =~= digits);
    }
}

/// The rounded digit is a digit.
proof fn lemma_rounded_digit(rest: int, den: int)
    requires
        0 <= rest < den,
    ensures
        0 <= rounded_digit(rest, den) <= 9,
{
    vstd::arithmetic::div_mod::lemma_div_pos_is_pos(20 * rest + den, 2 * den);
}

/// An expansion of `k` digits at most is digits: `k` of them where it does
/// not end before, fewer where it does, and none only for zero.
proof fn lemma_expansion(rem: int, den: int, k: nat)
    requires
        0 <= rem < den,
    ensures
        expansion(rem, den, k).len() <= k,
        rem > 0 && k > 0 ==> expansion(rem, den, k).len() > 0,
        pow10(k) * rem % den != 0 ==> expansion(rem, den, k).len() == k,
        forall|i: int|
            0 <= i < expansion(rem, den, k).len() ==> is_decimal_digit(
                #[trigger] expansion(rem, den, k)[i],
            ),
    decreases k,
{
    reveal_with_fuel(pow10, 2);
    if k > 0 && rem > 0 {
        let x = rem * 10;
        lemma_fundamental_div_mod(x, den);
        lemma_mod_bound(x, den);
        assert(0 <= x / den < 10) by (nonlinear_arith)
            requires
                x == den * (x / den) + x % den,
                0 <= x % den < den,
                0 <= x < 10 * den,
        ;
        lemma_expansion(x % den, den, (k - 1) as nat);
        // What is left behind `k` digits is what is left behind `k - 1`
        // digits of the rest.
        let p = pow10((k - 1) as nat);
        assert(pow10(k) * rem == p * x) by (nonlinear_arith)
            requires
                pow10(k) == 10 * p,
                x == rem * 10,
        ;
        assert((p * x) % den == (p * (x % den)) % den) by {
            vstd::arithmetic::div_mod::lemma_mul_mod_noop_right(p as int, x, den);
        }
    } else if rem == 0 {
        assert(pow10(k) * rem == 0) by (nonlinear_arith)
            requires
                rem == 0,
        ;
    }
}

/// `s` with a backslash before every `quote` in it.
pub open spec fn escape_quote(s: Seq<char>, quote: char) -> Seq<char>
    decreases s.len(),
{
    if s.len() == 0 {
        seq![]
    } else if s.last() == quote {
        escape_quote(s.drop_last(), quote) + seq!['\\', quote]
    } else {
        escape_quote(s.drop_last(), quote).push(s.last())
    }
}

/// A string as it is written: between its quotes, with those quotes
/// escaped inside it, or as it is if it has none.
pub open spec fn literal_text(s: Seq<char>, q: Quotes) -> Seq<char> {
    match q {
        Quotes::Double => seq!['"'] + escape_quote(s, '"') + seq!['"'],
        Quotes::Single => seq!['\''] + escape_quote(s, '\'') + seq!['\''],
        Quotes::Unquoted => s,
    }
}

/// A channel as a byte: the nearest integer, modulo 256.
pub open spec fn channel_byte(q: Ratio) -> u8 {
    (q.round() % 256) as u8
}

/// The hexadecimal digit for a number below sixteen, in lower case.
pub open spec fn hex_digit(n: int) -> char
    recommends
        0 <= n < 16,
{
    if n < 10 {
        digit_char(n)
    } else {
        ((97 + n - 10) as u8) as char
    }
}

/// A color in three hexadecimal digits, for channels that are multiples of 17.
pub open spec fn short_hex(r: u8, g: u8, b: u8) -> Seq<char> {
    seq!['#', hex_digit(r as int / 17), hex_digit(g as int / 17), hex_digit(b as int / 17)]
}

/// A color in six hexadecimal digits.
pub open spec fn long_hex(r: u8, g: u8, b: u8) -> Seq<char> {
    seq![
        '#',
        hex_digit(r as int / 16),
        hex_digit(r as int % 16),
        hex_digit(g as int / 16),
        hex_digit(g as int % 16),
        hex_digit(b as int / 16),
        hex_digit(b as int % 16),
    ]
}

/// Whether every channel is a multiple of 17, so that three hexadecimal
/// digits can say the color.
pub open spec fn is_short(r: u8, g: u8, b: u8) -> bool {
    r % 17 == 0 && g % 17 == 0 && b % 17 == 0
}

/// An opaque color without a source name: its CSS name if it has one (in
/// the compressed style only if the name is no longer than the hexadecimal
/// form), else the hexadecimal form, which in the compressed style has
/// three digits where that is possible.
pub open spec fn opaque_color_text(r: u8, g: u8, b: u8, compressed: bool) -> Seq<char> {
    let short = is_short(r, g, b);
    let hex_len: int = if short {
        4
    } else {
        7
    };
    match name_of_color(r, g, b) {
        Some(name) if !(compressed && name@.len() > hex_len) => name@,
        _ => if compressed && short {
            short_hex(r, g, b)
        } else {
            long_hex(r, g, b)
        },
    }
}

/// A color as it is written.
pub open spec fn color_text(
    r: Ratio,
    g: Ratio,
    b: Ratio,
    a: Ratio,
    name: Option<Seq<char>>,
    compressed: bool,
) -> Seq<char> {
    match name {
        Some(n) => n,
        None => if Ratio::from_int(1).le(a) {
            opaque_color_text(channel_byte(r), channel_byte(g), channel_byte(b), compressed)
        } else if a.num == 0 && r.num == 0 && g.num == 0 && b.num == 0 {
            "transparent"@
        } else {
            rgba_text(channel_byte(r), channel_byte(g), channel_byte(b), a, compressed)
        },
    }
}

/// A color in functional notation: `rgba(r, g, b, a)`. The compressed style
/// leaves out the spaces. The alpha keeps the zero before its point in
/// both styles.
pub open spec fn rgba_text(r: u8, g: u8, b: u8, a: Ratio, compressed: bool) -> Seq<char> {
    let sep = if compressed {
        ","@
    } else {
        ", "@
    };
    "rgba("@ + decimal(r as nat) + sep + decimal(g as nat) + sep + decimal(b as nat) + sep
        + decimals_text(a, false, false) + seq![')']
}

/// The texts of the items that are not null, in order. Each item is given as
/// whether it is null and its text.
pub open spec fn visible(items: Seq<(bool, Seq<char>)>) -> Seq<Seq<char>>
    decreases items.len(),
{
    if items.len() == 0 {
        seq![]
    } else if items.last().0 {
        visible(items.drop_last())
    } else {
        visible(items.drop_last()).push(items.last().1)
    }
}

/// The parts in order, with `sep` between each two.
pub open spec fn join(parts: Seq<Seq<char>>, sep: Seq<char>) -> Seq<char>
    decreases parts.len(),
{
    if parts.len() == 0 {
        seq![]
    } else if parts.len() == 1 {
        parts[0]
    } else {
        join(parts.drop_last(), sep) + sep + parts.last()
    }
}

/// What stands between the items of a list.
pub open spec fn separator_text(sep: ListSeparator, compressed: bool) -> Seq<char> {
    match sep {
        ListSeparator::Comma => if compressed {
            ","@
        } else {
            ", "@
        },
        ListSeparator::Space => " "@,
    }
}

/// The texts of the items of a list, put together: a single item of a
/// comma-separated list is followed by a comma, and brackets go around a
/// bracketed list.
pub open spec fn list_text(
    parts: Seq<Seq<char>>,
    sep: ListSeparator,
    bracketed: bool,
    compressed: bool,
) -> Seq<char> {
    let inner = if sep == ListSeparator::Comma && parts.len() == 1 {
        parts[0] + seq![',']
    } else {
        join(parts, separator_text(sep, compressed))
    };
    if bracketed {
        seq!['['] + inner + seq![']']
    } else {
        inner
    }
}

impl ValueView {
    /// Whether the value, as an item of a list with the given separator and
    /// brackets, is put in parentheses: a list without brackets of its own
    /// inside a bracketed, space-separated list.
    pub open spec fn needs_paren(self, sep: ListSeparator, bracketed: bool) -> bool {
        self matches ValueView::List(_, _, false) && bracketed && sep == ListSeparator::Space
    }

    /// The value as CSS text.
    pub open spec fn format(self, style: OutputStyle) -> Seq<char>
        decreases self, 0nat,
    {
        let compressed = style == OutputStyle::Compressed;
        match self {
            ValueView::Literal(s, q) => literal_text(s, q),
            ValueView::Function(name, _) => "get-function(\""@ + escape_quote(name, '"')
                + "\")"@,
            ValueView::Numeric(q, unit, with_sign, _) => decimals_text(q, with_sign, compressed)
                + unit.token(),
            ValueView::Color(r, g, b, a, name) => color_text(r, g, b, a, name, compressed),
            ValueView::List(items, sep, bracketed) => list_text(
                visible(item_infos(items, sep, bracketed, style)),
                sep,
                bracketed,
                compressed,
            ),
            ValueView::Div(a, b, space1, space2) => a.format(style) + slash_text(space1, space2)
                + b.format(style),
            ValueView::Call(name, args) => name + seq!['('] + join(
                arg_texts(args, style),
                separator_text(ListSeparator::Comma, compressed),
            ) + seq![')'],
            ValueView::BinOp(a, Operator::Plus, b) => a.format(style) + b.format(style),
            ValueView::BinOp(a, op, b) => a.format(style) + seq![' '] + operator_token(op)@
                + seq![' '] + b.format(style),
            ValueView::UnaryOp(op, a) => unary_text(op) + a.format(style),
            ValueView::True => "true"@,
            ValueView::False => "false"@,
            ValueView::Null => seq![],
            ValueView::Mapping(m) => seq!['('] + join(entry_texts(m), ", "@) + seq![')'],
            ValueView::Paren(a) => seq!['('] + a.format(style) + seq![')'],
            ValueView::Variable(name) => seq!['$'] + name,
            ValueView::Interpolation(a) => "#{"@ + a.format(style) + seq!['}'],
        }
    }
}

/// The slash of a division, with the spaces that were written around it.
pub open spec fn slash_text(space1: bool, space2: bool) -> Seq<char> {
    (if space1 {
        " "@
    } else {
        seq![]
    }) + seq!['/'] + (if space2 {
        " "@
    } else {
        seq![]
    })
}

/// A unary operator as it is written before its operand: a word is
/// followed by a space.
pub open spec fn unary_text(op: Operator) -> Seq<char> {
    if op == Operator::And || op == Operator::Or || op == Operator::Not {
        operator_token(op)@ + " "@
    } else {
        operator_token(op)@
    }
}

/// For each item of a list, whether it is null and its text as an item:
/// in parentheses where [`ValueView::needs_paren`] says so.
pub open spec fn item_infos(
    items: Seq<ValueView>,
    sep: ListSeparator,
    bracketed: bool,
    style: OutputStyle,
) -> Seq<(bool, Seq<char>)>
    decreases items, 1nat,
{
    Seq::new(
        items.len(),
        |i: int|
            if 0 <= i < items.len() {
                (
                    items[i].is_null(),
                    if items[i].needs_paren(sep, bracketed) {
                        seq!['('] + items[i].format(style) + seq![')']
                    } else {
                        items[i].format(style)
                    },
                )
            } else {
                (true, seq![])
            },
    )
}

/// The text of each argument of a call: the value, behind `$`, the name and
/// a colon if it has a name.
pub open spec fn arg_texts(args: Seq<(Option<Seq<char>>, ValueView)>, style: OutputStyle) -> Seq<
    Seq<char>,
>
    decreases args, 1nat,
{
    Seq::new(
        args.len(),
        |i: int|
            if 0 <= i < args.len() {
                match args[i].0 {
                    Some(n) => seq!['$'] + n + (if style == OutputStyle::Compressed {
                        ":"@
                    } else {
                        ": "@
                    }) + args[i].1.format(style),
                    None => args[i].1.format(style),
                }
            } else {
                seq![]
            },
    )
}

/// The text of each entry of a mapping: key, colon, space and value, both
/// in the expanded style.
pub open spec fn entry_texts(m: Seq<(ValueView, ValueView)>) -> Seq<Seq<char>>
    decreases m, 1nat,
{
    Seq::new(
        m.len(),
        |i: int|
            if 0 <= i < m.len() {
                m[i].0.format(OutputStyle::Expanded) + ": "@ + m[i].1.format(
                    OutputStyle::Expanded,
                )
            } else {
                seq![]
            },
    )
}

/// The texts that character vectors hold.
pub open spec fn texts(parts: Seq<Vec<char>>) -> Seq<Seq<char>> {
    Seq::new(parts.len(), |i: int| parts[i]@)
}

/// The executable form of [`expansion`].
fn push_expansion(out: &mut Vec<char>, rem: i128, den: i128, k: u8)
    requires
        0 <= rem < den,
        den <= 0x7fff_ffff_ffff_ffff,
    ensures
        final(out)@ == old(out)@ + expansion(rem as int, den as int, k as nat),
    decreases k,
{
    if k != 0 && rem != 0 {
        let x: i128 = rem * 10;
        let digit: i128 = x / den;
        let rest: i128 = x % den;
        proof {
            lemma_fundamental_div_mod(x as int, den as int);
            lemma_mod_bound(x as int, den as int);
            assert(0 <= digit < 10) by (nonlinear_arith)
                requires
                    x == den * digit + rest,
                    0 <= rest < den,
                    0 <= x < 10 * den,
            ;
        }
        out.push((48u8 + digit as u8) as char);
        push_expansion(out, rest, den, k - 1);
    }
}

/// Appends a number as it is written, without its unit.
pub fn push_decimals(out: &mut Vec<char>, q: &Rational, with_sign: bool, skip_zero: bool)
    ensures
        final(out)@ == old(out)@ + decimals_text(q@, with_sign, skip_zero),
{
    let n: i128 = q.numer() as i128;
    let d: i128 = q.denom() as i128;
    let m: i128 = if n < 0 {
        -n
    } else {
        n
    };
    let whole: i128 = m / d;
    let rem: i128 = m % d;
    proof {
        lemma_fundamental_div_mod(m as int, d as int);
        lemma_mod_bound(m as int, d as int);
        vstd::arithmetic::div_mod::lemma_div_pos_is_pos(m as int, d as int);
        lemma_expansion(rem as int, d as int, 4);
        lemma_mod_bound(10000 * rem, d as int);
    }
    if n < 0 {
        out.push('-');
    } else if with_sign {
        out.push('+');
    }
    if !(whole == 0 && skip_zero && rem != 0) {
        push_decimal(out, whole as u128);
    }
    if rem != 0 {
        out.push('.');
        push_expansion(out, rem, d, 4);
        let rest: i128 = (10000 * rem) % d;
        if rest != 0 {
            let tenths: i128 = (20 * rest + d) / (2 * d);
            proof {
                lemma_rounded_digit(rest as int, d as int);
            }
            let digit: u8 = if tenths > 9 {
                9
            } else {
                tenths as u8
            };
            out.push((48u8 + digit) as char);
        }
    }
}

/// Appends `s` with a backslash before every `quote` in it.
pub fn push_escaped(out: &mut Vec<char>, s: &Vec<char>, quote: char)
    ensures
        final(out)@ == old(out)@ + escape_quote(s@, quote),
{
    let mut i: usize = 0;
    while i < s.len()
        invariant
            i <= s.len(),
            out@ == old(out)@ + escape_quote(s@.take(i as int), quote),
        decreases s.len() - i,
    {
        let c = s[i];
        assert(s@.take(i + 1).drop_last() =~= s@.take(i as int));
        if c == quote {
            out.push('\\');
            out.push(c);
        } else {
            out.push(c);
        }
        i += 1;
    }
    assert(s@.take(i as int) =~= s@);
}

/// A channel as a byte: the nearest integer, modulo 256.
pub fn channel(q: &Rational) -> (b: u8)
    ensures
        b == channel_byte(q@),
{
    let x: isize = q.round();
    if x >= 0 {
        (x % 256) as u8
    } else {
        let m: isize = (-(x + 1)) % 256;
        (255 - m) as u8
    }
}

/// The executable form of [`hex_digit`].
fn hex_char(n: u8) -> (c: char)
    requires
        n < 16,
    ensures
        c == hex_digit(n as int),
{
    if n < 10 {
        (48u8 + n) as char
    } else {
        (97u8 + n - 10) as char
    }
}

/// The executable form of [`opaque_color_text`].
fn push_opaque_color(out: &mut Vec<char>, r: u8, g: u8, b: u8, compressed: bool)
    ensures
        final(out)@ == old(out)@ + opaque_color_text(r, g, b, compressed),
{
    let short: bool = r % 17 == 0 && g % 17 == 0 && b % 17 == 0;
    let hex_len: usize = if short {
        4
    } else {
        7
    };
    let name = rgb_to_name(r, g, b);
    let mut named: bool = false;
    match name {
        Some(n) => {
            let text = chars_of(n);
            if !(compressed && text.len() > hex_len) {
                push_all(out, &text);
                named = true;
            }
        },
        None => {},
    }
    if !named {
        if compressed && short {
            out.push('#');
            out.push(hex_char(r / 17));
            out.push(hex_char(g / 17));
            out.push(hex_char(b / 17));
        } else {
            out.push('#');
            out.push(hex_char(r / 16));
            out.push(hex_char(r % 16));
            out.push(hex_char(g / 16));
            out.push(hex_char(g % 16));
            out.push(hex_char(b / 16));
            out.push(hex_char(b % 16));
        }
    }
}

/// Appends a color as it is written.
pub fn push_color(
    out: &mut Vec<char>,
    r: &Rational,
    g: &Rational,
    b: &Rational,
    a: &Rational,
    name: &Option<String>,
    compressed: bool,
)
    ensures
        final(out)@ == old(out)@ + color_text(r@, g@, b@, a@, opt_text(*name), compressed),
{
    match name {
        Some(n) => {
            push_str(out, n.as_str());
        },
        None => {
            let one = Rational::one();
            if one.le(a) {
                push_opaque_color(out, channel(r), channel(g), channel(b), compressed);
            } else if a.is_zero() && r.is_zero() && g.is_zero() && b.is_zero() {
                push_str(out, "transparent");
            } else {
                push_rgba(out, channel(r), channel(g), channel(b), a, compressed);
            }
        },
    }
}

/// Appends a color in functional notation.
fn push_rgba(out: &mut Vec<char>, r: u8, g: u8, b: u8, a: &Rational, compressed: bool)
    ensures
        final(out)@ == old(out)@ + rgba_text(r, g, b, a@, compressed),
{
    let sep = if compressed {
        ","
    } else {
        ", "
    };
    push_str(out, "rgba(");
    push_decimal(out, r as u128);
    push_str(out, sep);
    push_decimal(out, g as u128);
    push_str(out, sep);
    push_decimal(out, b as u128);
    push_str(out, sep);
    push_decimals(out, a, false, false);
    out.push(')');
}

/// Appends the parts in order, with `sep` between each two.
pub fn join_into(out: &mut Vec<char>, parts: &Vec<Vec<char>>, sep: &str)
    ensures
        final(out)@ == old(out)@ + join(texts(parts@), sep@),
{
    let ghost all = texts(parts@);
    let mut i: usize = 0;
    while i < parts.len()
        invariant
            i <= parts.len(),
            all == texts(parts@),
            out@ == old(out)@ + join(all.take(i as int), sep@),
        decreases parts.len() - i,
    {
        assert(all.take(i + 1).drop_last() =~= all.take(i as int));
        if i > 0 {
            push_str(out, sep);
        }
        push_all(out, &parts[i]);
        i += 1;
    }
    assert(all.take(i as int) =~= all);
}

/// The executable form of [`separator_text`].
fn separator(sep: ListSeparator, compressed: bool) -> (s: &'static str)
    ensures
        s@ == separator_text(sep, compressed),
{
    match sep {
        ListSeparator::Comma => if compressed {
            ","
        } else {
            ", "
        },
        ListSeparator::Space => " ",
    }
}

/// The characters of a list as it is written.
fn format_list(v: &Vec<Value>, sep: ListSeparator, bracketed: bool, style: OutputStyle) -> (r:
    Vec<char>)
    ensures
        r@ == list_text(
            visible(item_infos(models(v@), sep, bracketed, style)),
            sep,
            bracketed,
            style == OutputStyle::Compressed,
        ),
    decreases v,
{
    let compressed: bool = match style {
        OutputStyle::Compressed => true,
        OutputStyle::Expanded => false,
    };
    let ghost infos = item_infos(models(v@), sep, bracketed, style);
    let mut parts: Vec<Vec<char>> = Vec::new();
    let mut i: usize = 0;
    while i < v.len()
        invariant
            infos == item_infos(models(v@), sep, bracketed, style),
            i <= v.len(),
            texts(parts@) == visible(infos.take(i as int)),
        decreases v.len() - i,
    {
        assert(infos.take(i + 1).drop_last() =~= infos.take(i as int));
        if !v[i].is_null() {
            let needs_paren: bool = match &v[i] {
                Value::List(_, _, false) => bracketed && match sep {
                    ListSeparator::Space => true,
                    ListSeparator::Comma => false,
                },
                _ => false,
            };
            let inner = v[i].format_chars(style);
            if needs_paren {
                let mut text: Vec<char> = Vec::new();
                text.push('(');
                push_all(&mut text, &inner);
                text.push(')');
                assert(text@ =~= infos[i as int].1);
                parts.push(text);
            } else {
                parts.push(inner);
            }
        }
        i += 1;
    }
    assert(infos.take(i as int) =~= infos);
    let mut out: Vec<char> = Vec::new();
    if bracketed {
        out.push('[');
    }
    let single_comma: bool = parts.len() == 1 && match sep {
        ListSeparator::Comma => true,
        ListSeparator::Space => false,
    };
    if single_comma {
        push_all(&mut out, &parts[0]);
        out.push(',');
    } else {
        join_into(&mut out, &parts, separator(sep, compressed));
    }
    if bracketed {
        out.push(']');
    }
    out
}

/// The characters of the arguments of a call as they are written.
fn format_args(args: &CallArgs, style: OutputStyle) -> (r: Vec<char>)
    ensures
        r@ == join(
            arg_texts(arg_models(args@), style),
            separator_text(ListSeparator::Comma, style == OutputStyle::Compressed),
        ),
    decreases args,
{
    let compressed: bool = match style {
        OutputStyle::Compressed => true,
        OutputStyle::Expanded => false,
    };
    let ghost all = arg_texts(arg_models(args@), style);
    let mut parts: Vec<Vec<char>> = Vec::new();
    let mut i: usize = 0;
    while i < args.len()
        invariant
            all == arg_texts(arg_models(args@), style),
            compressed == (style == OutputStyle::Compressed),
            i <= args.len(),
            parts.len() == i,
            forall|j: int| 0 <= j < i ==> parts[j]@ == all[j],
        decreases args.len() - i,
    {
        let mut text: Vec<char> = Vec::new();
        match &args[i].0 {
            Some(n) => {
                text.push('$');
                push_str(&mut text, n.as_str());
                if compressed {
                    push_str(&mut text, ":");
                } else {
                    push_str(&mut text, ": ");
                }
            },
            None => {},
        }
        let inner = args[i].1.format_chars(style);
        push_all(&mut text, &inner);
        parts.push(text);
        i += 1;
    }
    assert(texts(parts@) =~= all);
    let mut out: Vec<char> = Vec::new();
    join_into(&mut out, &parts, separator(ListSeparator::Comma, compressed));
    out
}

/// The characters of the entries of a mapping as they are written.
fn format_entries(m: &Vec<(Value, Value)>) -> (r: Vec<char>)
    ensures
        r@ == join(entry_texts(entry_models(m@)), ", "@),
    decreases m,
{
    let ghost all = entry_texts(entry_models(m@));
    let mut parts: Vec<Vec<char>> = Vec::new();
    let mut i: usize = 0;
    while i < m.len()
        invariant
            all == entry_texts(entry_models(m@)),
            i <= m.len(),
            parts.len() == i,
            forall|j: int| 0 <= j < i ==> parts[j]@ == all[j],
        decreases m.len() - i,
    {
        let mut text = m[i].0.format_chars(OutputStyle::Expanded);
        push_str(&mut text, ": ");
        let inner = m[i].1.format_chars(OutputStyle::Expanded);
        push_all(&mut text, &inner);
        parts.push(text);
        i += 1;
    }
    assert(texts(parts@) =~= all);
    let mut out: Vec<char> = Vec::new();
    join_into(&mut out, &parts, ", ");
    out
}

impl Value {
    /// The characters of the value as CSS text.
    pub fn format_chars(&self, style: OutputStyle) -> (r: Vec<char>)
        ensures
            r@ == self@.format(style),
        decreases self,
    {
        let compressed: bool = match style {
            OutputStyle::Compressed => true,
            OutputStyle::Expanded => false,
        };
        let mut out: Vec<char> = Vec::new();
        match self {
            Value::Literal(s, q) => {
                match q {
                    Quotes::Double => {
                        out.push('"');
                        push_escaped(&mut out, &chars_of(s.as_str()), '"');
                        out.push('"');
                    },
                    Quotes::Single => {
                        out.push('\'');
                        push_escaped(&mut out, &chars_of(s.as_str()), '\'');
                        out.push('\'');
                    },
                    Quotes::Unquoted => {
                        push_str(&mut out, s.as_str());
                    },
                }
            },
            Value::Function(name, _) => {
                push_str(&mut out, "get-function(\"");
                push_escaped(&mut out, &chars_of(name.as_str()), '"');
                push_str(&mut out, "\")");
            },
            Value::Numeric(q, unit, with_sign, _) => {
                push_decimals(&mut out, q, *with_sign, compressed);
                unit.push_token(&mut out);
            },
            Value::Color(r, g, b, a, name) => {
                push_color(&mut out, r, g, b, a, name, compressed);
            },
            Value::List(v, sep, bracketed) => {
                proof {
                    lemma_model_parts(*self);
                }
                out = format_list(v, *sep, *bracketed, style);
            },
            Value::Div(a, b, space1, space2) => {
                let left = a.format_chars(style);
                push_all(&mut out, &left);
                if *space1 {
                    out.push(' ');
                }
                out.push('/');
                if *space2 {
                    out.push(' ');
                }
                let right = b.format_chars(style);
                push_all(&mut out, &right);
                proof {
                    reveal_strlit(" ");
                }
            },
            Value::Call(name, args) => {
                proof {
                    lemma_model_parts(*self);
                }
                push_str(&mut out, name.as_str());
                out.push('(');
                let inner = format_args(args, style);
                push_all(&mut out, &inner);
                out.push(')');
            },
            Value::BinOp(a, op, b) => {
                let left = a.format_chars(style);
                let right = b.format_chars(style);
                push_all(&mut out, &left);
                match op {
                    Operator::Plus => {},
                    _ => {
                        out.push(' ');
                        push_str(&mut out, op.token());
                        out.push(' ');
                    },
                }
                push_all(&mut out, &right);
            },
            Value::UnaryOp(op, a) => {
                push_str(&mut out, op.token());
                if op.is_word() {
                    out.push(' ');
                }
                let inner = a.format_chars(style);
                push_all(&mut out, &inner);
                proof {
                    reveal_strlit(" ");
                }
            },
            Value::True => {
                push_str(&mut out, "true");
            },
            Value::False => {
                push_str(&mut out, "false");
            },
            Value::Null => {},
            Value::Mapping(m) => {
                proof {
                    lemma_model_parts(*self);
                }
                out.push('(');
                let inner = format_entries(m);
                push_all(&mut out, &inner);
                out.push(')');
            },
            Value::Paren(a) => {
                out.push('(');
                let inner = a.format_chars(style);
                push_all(&mut out, &inner);
                out.push(')');
            },
            Value::Variable(name) => {
                out.push('$');
                push_str(&mut out, name.as_str());
            },
            Value::Interpolation(a) => {
                push_str(&mut out, "#{");
                let inner = a.format_chars(style);
                push_all(&mut out, &inner);
                out.push('}');
            },
        }
        out
    }

    /// The value as CSS text in the given style.
    pub fn format(&self, style: OutputStyle) -> (s: String)
        ensures
            s@ == self@.format(style),
    {
        string_of(&self.format_chars(style))
    }

    /// The value as CSS text in the expanded style.
    pub fn to_string(&self) -> (s: String)
        ensures
            s@ == self@.format(OutputStyle::Expanded),
    {
        self.format(OutputStyle::Expanded)
    }
}

} // verus!
