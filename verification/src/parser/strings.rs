//! Strings, names and selectors as they are written: runs of text,
//! escapes and interpolations.
use crate::parser::util::{
    char_at, digit, hex, hex_number, hex_value, is_digit, is_hex, is_letter, letter, next_is,
    prefix_at, slice, starts_with, ws_end,
};
use crate::parser::value::{close_at, find_close, p_value_expression, value_expression};
use crate::sass::{part_models, merged, SassString, SassStringView, StringPart, StringPartView};
use crate::text::{chars_of, push_all, string_of};
use crate::value::{Quotes, Value, ValueView};
use vstd::prelude::*;
use vstd::string::StringSliceAdditionalSpecFns;
use vstd::utf8::{decode_utf8, is_scalar, valid_utf8};

verus! {

/// Whether a character is a letter or a digit of any script, as
/// `char::is_alphanumeric` of the standard library says.
pub uninterp spec fn is_alphanumeric(c: char) -> bool;

/// `char::is_alphanumeric` of the standard library: the answer depends on
/// the character alone.
pub assume_specification[ char::is_alphanumeric ](c: char) -> (b: bool)
    ensures
        b == is_alphanumeric(c),
;

/// `char::from_u32` of the standard library: there is a character for
/// every code point but the surrogates, up to U+10FFFF, and it has that
/// code point.
pub assume_specification[ char::from_u32 ](v: u32) -> (r: Option<char>)
    ensures
        r is Some <==> is_scalar(v),
        r matches Some(c) ==> c as u32 == v,
;

/// `core::str::Utf8Error` of the standard library, the error of
/// `core::str::from_utf8`: nothing is known of what it holds.
#[verifier::external_type_specification]
#[verifier::external_body]
pub struct ExUtf8Error(core::str::Utf8Error);

/// `core::str::from_utf8` of the standard library: it succeeds on exactly
/// the byte slices that are valid UTF-8, and the string slice that it gives
/// is made of the same bytes.
pub assume_specification<'a>[ core::str::from_utf8 ](v: &'a [u8]) -> (r: Result<
    &'a str,
    core::str::Utf8Error,
>)
    ensures
        r is Ok <==> valid_utf8(v@),
        r matches Ok(s) ==> s.spec_bytes() == v@,
;

/// The text of valid UTF-8 is the text that the bytes encode.
proof fn lemma_text_of_bytes(s: &str, v: Seq<u8>)
    requires
        s.spec_bytes() == v,
    ensures
        s@ == decode_utf8(v),
{
    vstd::utf8::encode_utf8_decode_utf8(s@);
}

/// A character of a name: a letter, a digit, `_` or `-`. Of the ASCII
/// characters the letters are `a` to `z` and `A` to `Z` and the digits `0`
/// to `9`; of the others, what the standard library takes for a letter or
/// a digit.
pub open spec fn is_name(c: char) -> bool {
    c == '_' || c == '-' || if (c as u32) < 0x80 {
        is_letter(c) || is_digit(c)
    } else {
        is_alphanumeric(c)
    }
}

/// A character that can start an extended unquoted string.
pub open spec fn ext_str_start_char(c: char) -> bool {
    is_name(c) || c == '*' || c == '+' || c == '.' || c == '/' || c == ':' || c == '='
        || c == '?' || c == '|'
}

/// A character that can go on an extended unquoted string: as at its start,
/// or a comma.
pub open spec fn ext_str_char(c: char) -> bool {
    ext_str_start_char(c) || c == ','
}

/// Whether a character can stand in a name: a letter, a digit, `_` or `-`.
pub fn is_name_char(c: &char) -> (b: bool)
    ensures
        b == is_name(*c),
{
    if *c == '_' || *c == '-' {
        true
    } else if (*c as u32) < 0x80 {
        letter(*c) || digit(*c)
    } else {
        c.is_alphanumeric()
    }
}

/// Whether a character can start an extended unquoted string: a character
/// of a name or one of `*+./:=?|`.
pub fn is_ext_str_start_char(c: &char) -> (b: bool)
    ensures
        b == ext_str_start_char(*c),
{
    is_name_char(c) || *c == '*' || *c == '+' || *c == '.' || *c == '/' || *c == ':' || *c
        == '=' || *c == '?' || *c == '|'
}

/// Whether a character can go on an extended unquoted string: one that can
/// start it, or a comma.
pub fn is_ext_str_char(c: &char) -> (b: bool)
    ensures
        b == ext_str_char(*c),
{
    is_name_char(c) || *c == '*' || *c == '+' || *c == ',' || *c == '.' || *c == '/' || *c
        == ':' || *c == '=' || *c == '?' || *c == '|'
}

/// The first character of the bytes, if they are valid UTF-8 and not empty.
pub open spec fn first_char(data: Seq<u8>) -> Option<char> {
    if valid_utf8(data) && decode_utf8(data).len() > 0 {
        Some(decode_utf8(data)[0])
    } else {
        None
    }
}

/// The first character of the bytes, if they are valid UTF-8 and not empty.
pub fn single_char(data: &[u8]) -> (c: Option<char>)
    ensures
        c == first_char(data@),
{
    match core::str::from_utf8(data) {
        Ok(s) => {
            proof {
                lemma_text_of_bytes(s, data@);
            }
            let v = chars_of(s);
            if v.len() > 0 {
                Some(v[0])
            } else {
                None
            }
        },
        Err(_) => None,
    }
}

/// The characters that the bytes encode, if they are valid UTF-8.
pub fn decode(data: &[u8]) -> (r: Option<Vec<char>>)
    ensures
        match r {
            Some(v) => valid_utf8(data@) && v@ == decode_utf8(data@),
            None => !valid_utf8(data@),
        },
{
    match core::str::from_utf8(data) {
        Ok(s) => {
            proof {
                lemma_text_of_bytes(s, data@);
            }
            Some(chars_of(s))
        },
        Err(_) => None,
    }
}

/// `s` with every backslash taken out and the character behind it kept. A
/// backslash at the very end stands for itself.
pub open spec fn unescaped(s: Seq<char>) -> Seq<char>
    decreases s.len(),
{
    if s.len() == 0 {
        seq![]
    } else if s[0] != '\\' {
        seq![s[0]] + unescaped(s.skip(1))
    } else if s.len() == 1 {
        seq!['\\']
    } else {
        seq![s[1]] + unescaped(s.skip(2))
    }
}

/// `s` with every backslash taken out and the character behind it kept. A
/// backslash at the very end stands for itself.
pub fn unescape(s: &str) -> (r: String)
    ensures
        r@ == unescaped(s@),
{
    let v = chars_of(s);
    let mut out: Vec<char> = Vec::new();
    let mut i: usize = 0;
    assert(v@.skip(0) =~= v@);
    while i < v.len()
        invariant
            i <= v.len(),
            unescaped(v@) == out@ + unescaped(v@.skip(i as int)),
        decreases v.len() - i,
    {
        let ghost rest = v@.skip(i as int);
        let c = v[i];
        if c != '\\' {
            out.push(c);
            assert(rest.skip(1) =~= v@.skip(i + 1));
            i += 1;
        } else if i + 1 < v.len() {
            out.push(v[i + 1]);
            assert(rest.skip(2) =~= v@.skip(i + 2));
            i += 2;
        } else {
            out.push('\\');
            i += 1;
        }
    }
    string_of(&out)
}

/// The kinds of characters that runs of text are made of.
#[derive(Clone, Copy, Debug, PartialEq, Eq, Structural)]
pub enum Class {
    /// A character of a name.
    Name,
    /// A hexadecimal digit.
    Hex,
    /// A letter or digit of the ASCII alphabet.
    Alphanumeric,
    /// A character of a selector that needs no care.
    Selector,
    /// A character that can go on an extended unquoted string.
    Extended,
    /// A character of a quoted string that needs no care.
    Quoted,
    /// One of `:`, `.`, `!` and `/`.
    Url,
    /// Anything but `#`, `(`, `)` and `"`.
    Special,
}

/// Whether a character is of a class.
pub open spec fn in_class(c: char, class: Class) -> bool {
    match class {
        Class::Name => is_name(c),
        Class::Hex => is_hex(c),
        Class::Alphanumeric => is_letter(c) || is_digit(c),
        Class::Selector => !(c == '\r' || c == '\n' || c == '\t' || c == ' ' || c == '>' || c
            == '$' || c == '"' || c == '\'' || c == '\\' || c == '#' || c == '+' || c == '*'
            || c == '/' || c == '(' || c == ')' || c == '[' || c == ']' || c == '{' || c == '}'
            || c == ':' || c == ';' || c == ',' || c == '=' || c == '!' || c == '&' || c == '@'),
        Class::Extended => ext_str_char(c),
        Class::Quoted => !(c == '\\' || c == '#' || c == '\'' || c == '"'),
        Class::Url => c == ':' || c == '.' || c == '!' || c == '/',
        Class::Special => !(c == '#' || c == '(' || c == ')' || c == '"'),
    }
}

/// The number of characters of a class that start at `pos`, up to `max`.
pub open spec fn run_len(s: Seq<char>, pos: int, class: Class, max: nat) -> nat
    decreases max,
{
    if max > 0 && 0 <= pos < s.len() && in_class(s[pos], class) {
        1 + run_len(s, pos + 1, class, (max - 1) as nat)
    } else {
        0
    }
}

/// The place behind the characters of a class that start at `pos`.
pub open spec fn run_end(s: Seq<char>, pos: int, class: Class) -> int {
    pos + run_len(s, pos, class, s.len())
}

/// The number that hexadecimal digits from `from` up to `to` write.
pub open spec fn hex_digits_value(s: Seq<char>, from: int, to: int) -> int
    decreases to - from,
{
    if to <= from || to > s.len() || from < 0 {
        0
    } else {
        hex_digits_value(s, from, to - 1) * 16 + hex_value(s[to - 1])
    }
}

/// The character that an escape stands for, behind its backslash at `pos`,
/// and the place behind the escape: a backslash for a second backslash;
/// the character with the code point that one to six hexadecimal digits
/// write, with one blank behind them taken along; and any other character
/// for itself. There is no character for the code point of a surrogate or
/// one above U+10FFFF.
#[verifier::opaque]
pub open spec fn p_escaped_char(s: Seq<char>, pos: int) -> Option<(char, int)> {
    let digits = run_len(s, pos + 1, Class::Hex, 6);
    let end = pos + 1 + digits;
    let code = hex_digits_value(s, pos + 1, end);
    if char_at(s, pos) != Some('\\') {
        None
    } else {
        match char_at(s, pos + 1) {
            None => None,
            Some(c) => {
                if c == '\\' {
                    Some(('\\', pos + 2))
                } else if digits > 0 {
                    if 0 <= code <= u32::MAX && is_scalar(code as u32) {
                        Some(
                            (
                                char_of(code as u32),
                                if char_at(s, end) == Some(' ') {
                                    end + 1
                                } else {
                                    end
                                },
                            ),
                        )
                    } else {
                        None
                    }
                } else {
                    Some((c, pos + 2))
                }
            },
        }
    }
}

/// The character with a code point.
pub open spec fn char_of(code: u32) -> char {
    code as char
}

/// What the next part of a name is: an escaped character, or a character
/// of a name.
#[verifier::opaque]
pub open spec fn name_piece(s: Seq<char>, pos: int) -> Option<(char, int)> {
    match char_at(s, pos) {
        Some(c) => if c == '\\' {
            p_escaped_char(s, pos)
        } else if is_name(c) {
            Some((c, pos + 1))
        } else {
            None
        },
        None => None,
    }
}

/// The characters of a name from `pos` on, behind those that were read.
pub open spec fn p_name_rest(s: Seq<char>, pos: int, acc: Seq<char>) -> (Seq<char>, int)
    decreases s.len() - pos,
{
    match name_piece(s, pos) {
        Some((c, n)) => if pos < n <= s.len() {
            p_name_rest(s, n, acc.push(c))
        } else {
            (acc, pos)
        },
        None => (acc, pos),
    }
}

/// A name: characters of names and escaped characters, at least one, and
/// more than a lone `-`.
pub open spec fn p_name(s: Seq<char>, pos: int) -> Option<(Seq<char>, int)> {
    let found = p_name_rest(s, pos, seq![]);
    if found.0.len() == 0 || found.0 == seq!['-'] {
        None
    } else {
        Some(found)
    }
}

/// The kinds of strings, by what their text is made of.
#[derive(Clone, Copy, Debug, PartialEq, Eq, Structural)]
pub enum Flavor {
    /// The text of a selector.
    Selector,
    /// An extended unquoted string.
    Extended,
    /// A string in double quotes.
    Double,
    /// A string in single quotes.
    Single,
    /// What stands in `url(..)`.
    Url,
    /// The arguments of a special function.
    Special,
}

/// An escape that stays as it is written in a quoted string: a backslash
/// and a run of ASCII letters and digits, or a backslash and one of a
/// blank, `'`, `"`, `\` and `#`.
#[verifier::opaque]
pub open spec fn extra_escape(s: Seq<char>, pos: int) -> Option<(Seq<char>, int)> {
    let end = run_end(s, pos + 1, Class::Alphanumeric);
    if char_at(s, pos) != Some('\\') {
        None
    } else if end > pos + 1 {
        Some((s.subrange(pos, end), end))
    } else {
        match char_at(s, pos + 1) {
            Some(c) => if c == ' ' || c == '\'' || c == '"' || c == '\\' || c == '#' {
                Some((s.subrange(pos, pos + 2), pos + 2))
            } else {
                None
            },
            None => None,
        }
    }
}

/// A piece of the text of a selector: a run of characters that need no
/// care; a backslash with a blank, a quotation mark or a backslash behind
/// it, which stays as it is; another escape, which gives its character; or
/// a `#` that starts no interpolation.
#[verifier::opaque]
pub open spec fn selector_piece(s: Seq<char>, pos: int) -> Option<(Seq<char>, int)> {
    let end = run_end(s, pos, Class::Selector);
    match char_at(s, pos) {
        None => None,
        Some(c) => {
            if end > pos {
                Some((s.subrange(pos, end), end))
            } else if c == '\\' {
                match char_at(s, pos + 1) {
                    Some(d) => if d == ' ' || d == '"' || d == '\'' || d == '\\' {
                        Some((s.subrange(pos, pos + 2), pos + 2))
                    } else {
                        match p_escaped_char(s, pos) {
                            Some((e, n)) => Some((seq![e], n)),
                            None => None,
                        }
                    },
                    None => None,
                }
            } else if c == '#' && char_at(s, pos + 1) != Some('{') {
                Some((seq!['#'], pos + 1))
            } else {
                None
            }
        },
    }
}

/// A piece of the text of a quoted string with the mark `mark`: a run of
/// characters that need no care; a `#` that starts no interpolation; the
/// mark behind a backslash, which gives the mark; the other quotation mark;
/// or an escape that stays as it is written.
#[verifier::opaque]
pub open spec fn quoted_piece(s: Seq<char>, pos: int, mark: char) -> Option<(Seq<char>, int)> {
    let end = run_end(s, pos, Class::Quoted);
    match char_at(s, pos) {
        None => None,
        Some(c) => {
            if end > pos {
                Some((s.subrange(pos, end), end))
            } else if c == '#' {
                if char_at(s, pos + 1) != Some('{') {
                    Some((seq!['#'], pos + 1))
                } else {
                    None
                }
            } else if c == '\\' && char_at(s, pos + 1) == Some(mark) {
                Some((seq![mark], pos + 2))
            } else if c == '\\' {
                extra_escape(s, pos)
            } else if c != mark {
                Some((seq![c], pos + 1))
            } else {
                None
            }
        },
    }
}

/// A piece of text of a string of the given flavor at `pos`, and the place
/// behind it.
#[verifier::opaque]
pub open spec fn text_piece(s: Seq<char>, pos: int, flavor: Flavor) -> Option<(Seq<char>, int)> {
    match flavor {
        Flavor::Selector => selector_piece(s, pos),
        Flavor::Extended => match char_at(s, pos) {
            Some(c) => if ext_str_start_char(c) {
                Some(
                    (
                        s.subrange(pos, run_end(s, pos + 1, Class::Extended)),
                        run_end(s, pos + 1, Class::Extended),
                    ),
                )
            } else {
                None
            },
            None => None,
        },
        Flavor::Double => quoted_piece(s, pos, '"'),
        Flavor::Single => quoted_piece(s, pos, '\''),
        Flavor::Url => match selector_piece(s, pos) {
            Some(r) => Some(r),
            None => if run_end(s, pos, Class::Url) > pos {
                Some((s.subrange(pos, run_end(s, pos, Class::Url)), run_end(s, pos, Class::Url)))
            } else {
                None
            },
        },
        Flavor::Special => if char_at(s, pos) == Some('#') && char_at(s, pos + 1) != Some('{') {
            Some((seq!['#'], pos + 1))
        } else if run_end(s, pos, Class::Special) > pos {
            Some(
                (
                    s.subrange(pos, run_end(s, pos, Class::Special)),
                    run_end(s, pos, Class::Special),
                ),
            )
        } else {
            None
        },
    }
}

/// An interpolation at `pos`: `#{`, a value expression and `}`.
#[verifier::opaque]
pub open spec fn p_interpolation(s: Seq<char>, pos: int) -> Option<(ValueView, int)> {
    if prefix_at(s, pos, "#{"@) && ws_end(s, pos + 2) <= s.len() {
        match p_value_expression(s, ws_end(s, pos + 2)) {
            Some((v, n)) => match close_at(s, n, '}') {
                Some(m) => Some((v, m)),
                None => None,
            },
            None => None,
        }
    } else {
        None
    }
}

/// What the next part of a string of a flavor is, and the place behind it.
/// Where the arguments of a special function hold a string in double
/// quotes or something in parentheses, its marks and what is between them
/// are parts of the arguments.
pub open spec fn p_part(s: Seq<char>, pos: int, flavor: Flavor) -> Option<
    (Seq<StringPartView>, int),
>
    decreases s.len() - pos, 1nat,
{
    match p_interpolation(s, pos) {
        Some((v, n)) => Some((seq![StringPartView::Interpolation(v)], n)),
        None => if flavor == Flavor::Special && (char_at(s, pos) == Some('"') || char_at(s, pos)
            == Some('(')) && pos + 1 <= s.len() {
            let open = s[pos];
            let close = if open == '"' {
                '"'
            } else {
                ')'
            };
            let inner = p_parts(
                s,
                pos + 1,
                if open == '"' {
                    Flavor::Double
                } else {
                    Flavor::Special
                },
                seq![],
            );
            if char_at(s, inner.1) == Some(close) {
                Some(
                    (
                        seq![StringPartView::Raw(seq![open])] + inner.0 + seq![
                            StringPartView::Raw(seq![close]),
                        ],
                        inner.1 + 1,
                    ),
                )
            } else {
                None
            }
        } else {
            match text_piece(s, pos, flavor) {
                Some((t, n)) => Some((seq![StringPartView::Raw(t)], n)),
                None => None,
            }
        },
    }
}

/// The parts of a string of a flavor from `pos` on, behind those that were
/// read, and the place behind them.
pub open spec fn p_parts(s: Seq<char>, pos: int, flavor: Flavor, acc: Seq<StringPartView>) -> (
    Seq<StringPartView>,
    int,
)
    decreases s.len() - pos, 2nat,
{
    match p_part(s, pos, flavor) {
        Some((parts, n)) => if pos < n <= s.len() {
            p_parts(s, n, flavor, acc + parts)
        } else {
            (acc, pos)
        },
        None => (acc, pos),
    }
}

/// A string of one or more parts of a flavor, without quotes.
pub open spec fn p_unquoted(s: Seq<char>, pos: int, flavor: Flavor) -> Option<
    (SassStringView, int),
> {
    let found = p_parts(s, pos, flavor, seq![]);
    if found.0.len() == 0 {
        None
    } else {
        Some((SassStringView { parts: merged(found.0), quotes: Quotes::Unquoted }, found.1))
    }
}

/// A string between two quotation marks `mark`.
pub open spec fn p_quoted_string(s: Seq<char>, pos: int, mark: char) -> Option<
    (SassStringView, int),
> {
    let flavor = if mark == '"' {
        Flavor::Double
    } else {
        Flavor::Single
    };
    let found = p_parts(s, pos + 1, flavor, seq![]);
    if char_at(s, pos) == Some(mark) && char_at(s, found.1) == Some(mark) {
        Some(
            (
                SassStringView {
                    parts: merged(found.0),
                    quotes: if mark == '"' {
                        Quotes::Double
                    } else {
                        Quotes::Single
                    },
                },
                found.1 + 1,
            ),
        )
    } else {
        None
    }
}

/// The text of a selector: one or more pieces, put together.
pub open spec fn p_selector_rest(s: Seq<char>, pos: int, acc: Seq<char>) -> (Seq<char>, int)
    decreases s.len() - pos,
{
    match selector_piece(s, pos) {
        Some((t, n)) => if pos < n <= s.len() {
            p_selector_rest(s, n, acc + t)
        } else {
            (acc, pos)
        },
        None => (acc, pos),
    }
}

/// `url(`, one or more parts and `)`: the parts with `url(` before and `)`
/// behind them.
pub open spec fn p_special_url(s: Seq<char>, pos: int) -> Option<(SassStringView, int)> {
    let found = p_parts(s, pos + 4, Flavor::Url, seq![]);
    if prefix_at(s, pos, "url("@) && found.0.len() > 0 && char_at(s, found.1) == Some(')') {
        Some(
            (
                SassStringView {
                    parts: merged(
                        seq![StringPartView::Raw("url("@)] + found.0 + seq![
                            StringPartView::Raw(")"@),
                        ],
                    ),
                    quotes: Quotes::Unquoted,
                },
                found.1 + 1,
            ),
        )
    } else {
        None
    }
}

/// Nothing is read behind the end of the text.
pub proof fn lemma_no_part_past_end(s: Seq<char>, pos: int, flavor: Flavor)
    requires
        pos > s.len(),
    ensures
        p_escaped_char(s, pos) is None,
        name_piece(s, pos) is None,
        p_interpolation(s, pos) is None,
        selector_piece(s, pos) is None,
        text_piece(s, pos, flavor) is None,
        p_part(s, pos, flavor) is None,
{
    reveal(p_escaped_char);
    reveal(name_piece);
    reveal(p_interpolation);
    reveal(selector_piece);
    reveal(quoted_piece);
    reveal(text_piece);
}

/// The executable form of [`in_class`].
fn class_test(c: char, class: Class) -> (b: bool)
    ensures
        b == in_class(c, class),
{
    match class {
        Class::Name => is_name_char(&c),
        Class::Hex => hex(c),
        Class::Alphanumeric => crate::parser::util::letter(c) || crate::parser::util::digit(c),
        Class::Selector => !(c == '\r' || c == '\n' || c == '\t' || c == ' ' || c == '>' || c
            == '$' || c == '"' || c == '\'' || c == '\\' || c == '#' || c == '+' || c == '*'
            || c == '/' || c == '(' || c == ')' || c == '[' || c == ']' || c == '{' || c == '}'
            || c == ':' || c == ';' || c == ',' || c == '=' || c == '!' || c == '&' || c == '@'),
        Class::Extended => is_ext_str_char(&c),
        Class::Quoted => !(c == '\\' || c == '#' || c == '\'' || c == '"'),
        Class::Url => c == ':' || c == '.' || c == '!' || c == '/',
        Class::Special => !(c == '#' || c == '(' || c == ')' || c == '"'),
    }
}

/// The executable form of [`run_len`].
fn skip_run(input: &Vec<char>, pos: usize, class: Class, max: usize) -> (r: usize)
    requires
        pos <= input.len(),
    ensures
        r == pos + run_len(input@, pos as int, class, max as nat),
        pos <= r <= input.len(),
        r - pos <= max,
        forall|i: int| pos <= i < r ==> in_class(#[trigger] input@[i], class),
{
    let mut i: usize = pos;
    let mut left: usize = max;
    while left > 0 && i < input.len() && class_test(input[i], class)
        invariant
            pos <= i <= input.len(),
            left <= max,
            i - pos == max - left,
            pos + run_len(input@, pos as int, class, max as nat) == i + run_len(
                input@,
                i as int,
                class,
                left as nat,
            ),
            forall|j: int| pos <= j < i ==> in_class(#[trigger] input@[j], class),
        decreases input.len() - i,
    {
        i += 1;
        left -= 1;
    }
    i
}

/// The executable form of [`run_end`].
fn skip_class(input: &Vec<char>, pos: usize, class: Class) -> (r: usize)
    requires
        pos <= input.len(),
    ensures
        r == run_end(input@, pos as int, class),
        pos <= r <= input.len(),
{
    skip_run(input, pos, class, input.len())
}

/// The executable form of [`hex_digits_value`].
fn read_hex(input: &Vec<char>, from: usize, to: usize) -> (v: u32)
    requires
        from <= to <= input.len(),
        to - from <= 6,
        forall|i: int| from <= i < to ==> is_hex(#[trigger] input@[i]),
    ensures
        v == hex_digits_value(input@, from as int, to as int),
{
    let mut acc: u32 = 0;
    let mut i: usize = from;
    while i < to
        invariant
            from <= i <= to <= input.len(),
            to - from <= 6,
            forall|j: int| from <= j < to ==> is_hex(#[trigger] input@[j]),
            acc == hex_digits_value(input@, from as int, i as int),
            acc < hex_bound((i - from) as nat),
        decreases to - i,
    {
        proof {
            reveal_with_fuel(hex_bound, 7);
        }
        acc = acc * 16 + hex_number(input[i]) as u32;
        i += 1;
    }
    acc
}

/// Sixteen to the power of `k`.
pub open spec fn hex_bound(k: nat) -> int
    decreases k,
{
    if k == 0 {
        1
    } else {
        16 * hex_bound((k - 1) as nat)
    }
}

/// Reads an escaped character behind its backslash at `pos`: see
/// [`p_escaped_char`].
pub fn escaped_char(input: &Vec<char>, pos: usize) -> (r: Option<(char, usize)>)
    ensures
        match r {
            Some((c, n)) => p_escaped_char(input@, pos as int) == Some((c, n as int)) && pos < n
                <= input.len(),
            None => p_escaped_char(input@, pos as int) is None,
        },
{
    if pos > input.len() {
        proof {
            lemma_no_part_past_end(input@, pos as int, Flavor::Selector);
        }
        return None;
    }
    reveal(p_escaped_char);
    if !next_is(input, pos, '\\') || pos + 1 >= input.len() {
        return None;
    }
    let c = input[pos + 1];
    let end = skip_run(input, pos + 1, Class::Hex, 6);
    if c == '\\' {
        Some(('\\', pos + 2))
    } else if end > pos + 1 {
        let code = read_hex(input, pos + 1, end);
        match char::from_u32(code) {
            Some(ch) => {
                assert(ch == char_of(code)) by {
                    vstd::utf8::char_u32_cast(ch, code);
                }
                Some(
                    (
                        ch,
                        if next_is(input, end, ' ') {
                            end + 1
                        } else {
                            end
                        },
                    ),
                )
            },
            None => None,
        }
    } else {
        Some((c, pos + 2))
    }
}

/// Reads one character of a name.
pub fn name_char(input: &Vec<char>, pos: usize) -> (r: Option<(char, usize)>)
    ensures
        match r {
            Some((c, n)) => char_at(input@, pos as int) == Some(c) && is_name(c) && n == pos
                + 1,
            None => !(char_at(input@, pos as int) matches Some(c) && is_name(c)),
        },
{
    if pos < input.len() && is_name_char(&input[pos]) {
        Some((input[pos], pos + 1))
    } else {
        None
    }
}

/// The executable form of [`name_piece`].
fn find_name_piece(input: &Vec<char>, pos: usize) -> (r: Option<(char, usize)>)
    requires
        pos <= input.len(),
    ensures
        match r {
            Some((c, n)) => name_piece(input@, pos as int) == Some((c, n as int)) && pos < n
                <= input.len(),
            None => name_piece(input@, pos as int) is None,
        },
{
    reveal(name_piece);
    if pos >= input.len() {
        None
    } else if input[pos] == '\\' {
        escaped_char(input, pos)
    } else {
        name_char(input, pos)
    }
}

/// Reads a name at `pos`: see [`p_name`]. The result is the name and the
/// place behind it.
pub fn name(input: &Vec<char>, pos: usize) -> (r: Option<(String, usize)>)
    ensures
        match r {
            Some((s, n)) => p_name(input@, pos as int) == Some((s@, n as int)) && pos < n
                <= input.len(),
            None => p_name(input@, pos as int) is None,
        },
{
    if pos > input.len() {
        proof {
            lemma_no_part_past_end(input@, pos as int, Flavor::Selector);
        }
        return None;
    }
    let mut out: Vec<char> = Vec::new();
    let mut at: usize = pos;
    let mut done: bool = false;
    while !done
        invariant
            pos <= at <= input.len(),
            p_name_rest(input@, pos as int, seq![]) == p_name_rest(input@, at as int, out@),
            out.len() == 0 ==> at == pos,
            out.len() > 0 ==> at > pos,
            done ==> name_piece(input@, at as int) is None,
        decreases
                input.len() - at + (if done {
                    0int
                } else {
                    1int
                }),
    {
        match find_name_piece(input, at) {
            Some((c, n)) => {
                out.push(c);
                at = n;
            },
            None => {
                done = true;
            },
        }
    }
    let dash: bool = out.len() == 1 && out[0] == '-';
    proof {
        if dash {
            assert(out@ =~= seq!['-']);
        }
    }
    if out.len() == 0 || dash {
        None
    } else {
        Some((string_of(&out), at))
    }
}

/// The executable form of [`extra_escape`].
fn find_extra_escape(input: &Vec<char>, pos: usize) -> (r: Option<(Vec<char>, usize)>)
    requires
        pos <= input.len(),
    ensures
        match r {
            Some((t, n)) => extra_escape(input@, pos as int) == Some((t@, n as int)) && pos < n
                <= input.len(),
            None => extra_escape(input@, pos as int) is None,
        },
{
    reveal(extra_escape);
    if !next_is(input, pos, '\\') {
        return None;
    }
    let end = skip_class(input, pos + 1, Class::Alphanumeric);
    if end > pos + 1 {
        Some((slice(input, pos, end), end))
    } else if pos + 1 < input.len() {
        let c = input[pos + 1];
        if c == ' ' || c == '\'' || c == '"' || c == '\\' || c == '#' {
            Some((slice(input, pos, pos + 2), pos + 2))
        } else {
            None
        }
    } else {
        None
    }
}

/// The text of one character.
fn one(c: char) -> (v: Vec<char>)
    ensures
        v@ == seq![c],
{
    let mut v: Vec<char> = Vec::new();
    v.push(c);
    v
}

/// The executable form of [`selector_piece`].
fn find_selector_piece(input: &Vec<char>, pos: usize) -> (r: Option<(Vec<char>, usize)>)
    requires
        pos <= input.len(),
    ensures
        match r {
            Some((t, n)) => selector_piece(input@, pos as int) == Some((t@, n as int)) && pos < n
                <= input.len(),
            None => selector_piece(input@, pos as int) is None,
        },
{
    reveal(selector_piece);
    if pos >= input.len() {
        return None;
    }
    let c = input[pos];
    let end = skip_class(input, pos, Class::Selector);
    if end > pos {
        Some((slice(input, pos, end), end))
    } else if c == '\\' {
        if pos + 1 >= input.len() {
            return None;
        }
        let d = input[pos + 1];
        if d == ' ' || d == '"' || d == '\'' || d == '\\' {
            Some((slice(input, pos, pos + 2), pos + 2))
        } else {
            match escaped_char(input, pos) {
                Some((e, n)) => Some((one(e), n)),
                None => None,
            }
        }
    } else if c == '#' && !next_is(input, pos + 1, '{') {
        Some((one('#'), pos + 1))
    } else {
        None
    }
}

/// The executable form of [`quoted_piece`].
fn find_quoted_piece(input: &Vec<char>, pos: usize, mark: char) -> (r: Option<(Vec<char>, usize)>)
    requires
        pos <= input.len(),
    ensures
        match r {
            Some((t, n)) => quoted_piece(input@, pos as int, mark) == Some((t@, n as int)) && pos
                < n <= input.len(),
            None => quoted_piece(input@, pos as int, mark) is None,
        },
{
    reveal(quoted_piece);
    if pos >= input.len() {
        return None;
    }
    let c = input[pos];
    let end = skip_class(input, pos, Class::Quoted);
    if end > pos {
        Some((slice(input, pos, end), end))
    } else if c == '#' {
        if !next_is(input, pos + 1, '{') {
            Some((one('#'), pos + 1))
        } else {
            None
        }
    } else if c == '\\' && next_is(input, pos + 1, mark) {
        Some((one(mark), pos + 2))
    } else if c == '\\' {
        find_extra_escape(input, pos)
    } else if c != mark {
        Some((one(c), pos + 1))
    } else {
        None
    }
}

/// The executable form of [`text_piece`].
fn find_text_piece(input: &Vec<char>, pos: usize, flavor: Flavor) -> (r: Option<
    (Vec<char>, usize),
>)
    requires
        pos <= input.len(),
    ensures
        match r {
            Some((t, n)) => text_piece(input@, pos as int, flavor) == Some((t@, n as int)) && pos
                < n <= input.len(),
            None => text_piece(input@, pos as int, flavor) is None,
        },
{
    reveal(text_piece);
    match flavor {
        Flavor::Selector => find_selector_piece(input, pos),
        Flavor::Extended => {
            if pos < input.len() && is_ext_str_start_char(&input[pos]) {
                let end = skip_class(input, pos + 1, Class::Extended);
                Some((slice(input, pos, end), end))
            } else {
                None
            }
        },
        Flavor::Double => find_quoted_piece(input, pos, '"'),
        Flavor::Single => find_quoted_piece(input, pos, '\''),
        Flavor::Url => match find_selector_piece(input, pos) {
            Some(r) => Some(r),
            None => {
                let end = skip_class(input, pos, Class::Url);
                if end > pos {
                    Some((slice(input, pos, end), end))
                } else {
                    None
                }
            },
        },
        Flavor::Special => {
            if next_is(input, pos, '#') && !next_is(input, pos + 1, '{') {
                Some((one('#'), pos + 1))
            } else {
                let end = skip_class(input, pos, Class::Special);
                if end > pos {
                    Some((slice(input, pos, end), end))
                } else {
                    None
                }
            }
        },
    }
}

/// Reads an interpolation at `pos`: `#{`, a value expression and `}`.
pub fn interpolation(input: &Vec<char>, pos: usize) -> (r: Option<(Value, usize)>)
    ensures
        match r {
            Some((v, n)) => p_interpolation(input@, pos as int) == Some((v@, n as int)) && pos < n
                <= input.len(),
            None => p_interpolation(input@, pos as int) is None,
        },
{
    if pos > input.len() {
        proof {
            lemma_no_part_past_end(input@, pos as int, Flavor::Selector);
        }
        return None;
    }
    reveal(p_interpolation);
    proof {
        reveal_strlit("#{");
    }
    if !starts_with(input, pos, "#{") {
        return None;
    }
    let start = crate::parser::util::skip_ws(input, pos + 2);
    match value_expression(input, start) {
        Some((v, n)) => match find_close(input, n, '}') {
            Some(m) => Some((v, m)),
            None => None,
        },
        None => None,
    }
}

/// A part of a string that is the given text.
fn raw(text: &Vec<char>) -> (p: StringPart)
    ensures
        p@ == StringPartView::Raw(text@),
{
    StringPart::Raw(string_of(text))
}

/// Appends the parts to those gathered so far.
fn append_parts(acc: &mut Vec<StringPart>, more: Vec<StringPart>)
    ensures
        part_models(final(acc)@) == part_models(old(acc)@) + part_models(more@),
{
    let ghost start = part_models(acc@);
    let mut i: usize = 0;
    let mut more = more;
    while i < more.len()
        invariant
            i <= more.len(),
            part_models(acc@) == start + part_models(more@).take(i as int),
        decreases more.len() - i,
    {
        let ghost before = part_models(acc@);
        let p = more[i].dup();
        acc.push(p);
        assert(part_models(acc@) =~= before.push(more[i as int]@));
        i += 1;
    }
}

/// The executable form of [`p_part`].
fn part(input: &Vec<char>, pos: usize, flavor: Flavor) -> (r: Option<(Vec<StringPart>, usize)>)
    requires
        pos <= input.len(),
    ensures
        match r {
            Some((parts, n)) => p_part(input@, pos as int, flavor) == Some(
                (part_models(parts@), n as int),
            ) && pos < n <= input.len(),
            None => p_part(input@, pos as int, flavor) is None,
        },
    decreases input.len() - pos, 1nat,
{
    match interpolation(input, pos) {
        Some((v, n)) => {
            let mut parts: Vec<StringPart> = Vec::new();
            parts.push(StringPart::Interpolation(v));
            return Some((parts, n));
        },
        None => {},
    }
    let nested: bool = match flavor {
        Flavor::Special => next_is(input, pos, '"') || next_is(input, pos, '('),
        _ => false,
    };
    if nested {
        let open = input[pos];
        let close = if open == '"' {
            '"'
        } else {
            ')'
        };
        let (inner, end) = parts_from(
            input,
            pos + 1,
            if open == '"' {
                Flavor::Double
            } else {
                Flavor::Special
            },
            Vec::new(),
        );
        if next_is(input, end, close) {
            let mut parts: Vec<StringPart> = Vec::new();
            parts.push(raw(&one(open)));
            assert(part_models(parts@) =~= seq![StringPartView::Raw(seq![open])]);
            append_parts(&mut parts, inner);
            parts.push(raw(&one(close)));
            Some((parts, end + 1))
        } else {
            None
        }
    } else {
        match find_text_piece(input, pos, flavor) {
            Some((t, n)) => {
                let mut parts: Vec<StringPart> = Vec::new();
                parts.push(raw(&t));
                Some((parts, n))
            },
            None => None,
        }
    }
}

/// The executable form of [`p_parts`].
fn parts_from(input: &Vec<char>, pos: usize, flavor: Flavor, acc: Vec<StringPart>) -> (r: (
    Vec<StringPart>,
    usize,
))
    requires
        pos <= input.len(),
    ensures
        (part_models(r.0@), r.1 as int) == p_parts(
            input@,
            pos as int,
            flavor,
            part_models(acc@),
        ),
        pos <= r.1 <= input.len(),
    decreases input.len() - pos, 2nat,
{
    let mut acc = acc;
    match part(input, pos, flavor) {
        Some((parts, n)) => {
            append_parts(&mut acc, parts);
            parts_from(input, n, flavor, acc)
        },
        None => (acc, pos),
    }
}

/// No parts.
fn no_parts() -> (v: Vec<StringPart>)
    ensures
        part_models(v@) == Seq::<StringPartView>::empty(),
{
    let v: Vec<StringPart> = Vec::new();
    v
}

/// The executable form of [`p_unquoted`].
fn unquoted(input: &Vec<char>, pos: usize, flavor: Flavor) -> (r: Option<(SassString, usize)>)
    requires
        pos <= input.len(),
    ensures
        match r {
            Some((s, n)) => p_unquoted(input@, pos as int, flavor) == Some((s@, n as int))
                && pos <= n <= input.len(),
            None => p_unquoted(input@, pos as int, flavor) is None,
        },
{
    let (parts, end) = parts_from(input, pos, flavor, no_parts());
    if parts.len() == 0 {
        None
    } else {
        Some((SassString::new(parts, Quotes::Unquoted), end))
    }
}

/// Reads an unquoted string made of the text of selectors and of
/// interpolations.
pub fn sass_string(input: &Vec<char>, pos: usize) -> (r: Option<(SassString, usize)>)
    ensures
        match r {
            Some((s, n)) => p_unquoted(input@, pos as int, Flavor::Selector) == Some(
                (s@, n as int),
            ) && pos <= n <= input.len(),
            None => p_unquoted(input@, pos as int, Flavor::Selector) is None,
        },
{
    if pos > input.len() {
        proof {
            lemma_no_part_past_end(input@, pos as int, Flavor::Selector);
        }
        return None;
    }
    unquoted(input, pos, Flavor::Selector)
}

/// Reads an extended unquoted string: runs of characters of names and of
/// `*+,./:=?|`, and interpolations.
pub fn sass_string_ext(input: &Vec<char>, pos: usize) -> (r: Option<(SassString, usize)>)
    ensures
        match r {
            Some((s, n)) => p_unquoted(input@, pos as int, Flavor::Extended) == Some(
                (s@, n as int),
            ) && pos <= n <= input.len(),
            None => p_unquoted(input@, pos as int, Flavor::Extended) is None,
        },
{
    if pos > input.len() {
        proof {
            lemma_no_part_past_end(input@, pos as int, Flavor::Extended);
        }
        return None;
    }
    unquoted(input, pos, Flavor::Extended)
}

/// Reads the parts of the arguments of a special function, which may be
/// none.
pub fn special_arg_parts(input: &Vec<char>, pos: usize) -> (r: (Vec<StringPart>, usize))
    ensures
        (part_models(r.0@), r.1 as int) == p_parts(input@, pos as int, Flavor::Special, seq![]),
        pos <= r.1,
        pos <= input.len() ==> r.1 <= input.len(),
{
    if pos > input.len() {
        proof {
            lemma_no_part_past_end(input@, pos as int, Flavor::Special);
        }
        return (no_parts(), pos);
    }
    parts_from(input, pos, Flavor::Special, no_parts())
}

/// Reads the arguments of a special function as one unquoted string.
pub fn special_args(input: &Vec<char>, pos: usize) -> (r: (SassString, usize))
    ensures
        r.0@ == (SassStringView {
            parts: merged(p_parts(input@, pos as int, Flavor::Special, seq![]).0),
            quotes: Quotes::Unquoted,
        }),
        r.1 == p_parts(input@, pos as int, Flavor::Special, seq![]).1,
        pos <= r.1,
        pos <= input.len() ==> r.1 <= input.len(),
{
    let (parts, end) = special_arg_parts(input, pos);
    (SassString::new(parts, Quotes::Unquoted), end)
}

/// Reads `url(`, what stands in it, and `)`.
pub fn special_url(input: &Vec<char>, pos: usize) -> (r: Option<(SassString, usize)>)
    ensures
        match r {
            Some((s, n)) => p_special_url(input@, pos as int) == Some((s@, n as int)) && pos < n
                <= input.len(),
            None => p_special_url(input@, pos as int) is None,
        },
{
    if pos > input.len() {
        proof {
            lemma_no_part_past_end(input@, pos as int, Flavor::Url);
        }
        return None;
    }
    proof {
        reveal_strlit("url(");
        reveal_strlit(")");
    }
    if !starts_with(input, pos, "url(") {
        return None;
    }
    let (inner, end) = parts_from(input, pos + 4, Flavor::Url, no_parts());
    if inner.len() > 0 && next_is(input, end, ')') {
        let mut parts: Vec<StringPart> = Vec::new();
        parts.push(StringPart::Raw(String::from_str("url(")));
        assert(part_models(parts@) =~= seq![StringPartView::Raw("url("@)]);
        append_parts(&mut parts, inner);
        parts.push(StringPart::Raw(String::from_str(")")));
        assert(part_models(parts@) =~= seq![StringPartView::Raw("url("@)] + part_models(inner@)
            + seq![StringPartView::Raw(")"@)]);
        Some((SassString::new(parts, Quotes::Unquoted), end + 1))
    } else {
        None
    }
}

/// The executable form of [`p_quoted_string`].
fn quoted_string(input: &Vec<char>, pos: usize, mark: char) -> (r: Option<(SassString, usize)>)
    ensures
        match r {
            Some((s, n)) => p_quoted_string(input@, pos as int, mark) == Some((s@, n as int))
                && pos < n <= input.len(),
            None => p_quoted_string(input@, pos as int, mark) is None,
        },
{
    if pos >= input.len() || !next_is(input, pos, mark) {
        return None;
    }
    let (parts, end) = parts_from(
        input,
        pos + 1,
        if mark == '"' {
            Flavor::Double
        } else {
            Flavor::Single
        },
        no_parts(),
    );
    if next_is(input, end, mark) {
        Some(
            (
                SassString::new(
                    parts,
                    if mark == '"' {
                        Quotes::Double
                    } else {
                        Quotes::Single
                    },
                ),
                end + 1,
            ),
        )
    } else {
        None
    }
}

/// Reads a string in double quotes.
pub fn sass_string_dq(input: &Vec<char>, pos: usize) -> (r: Option<(SassString, usize)>)
    ensures
        match r {
            Some((s, n)) => p_quoted_string(input@, pos as int, '"') == Some((s@, n as int))
                && pos < n <= input.len(),
            None => p_quoted_string(input@, pos as int, '"') is None,
        },
{
    quoted_string(input, pos, '"')
}

/// Reads a string in single quotes.
pub fn sass_string_sq(input: &Vec<char>, pos: usize) -> (r: Option<(SassString, usize)>)
    ensures
        match r {
            Some((s, n)) => p_quoted_string(input@, pos as int, '\'') == Some((s@, n as int))
                && pos < n <= input.len(),
            None => p_quoted_string(input@, pos as int, '\'') is None,
        },
{
    quoted_string(input, pos, '\'')
}

/// Reads the text of a selector: one or more pieces, put together.
pub fn selector_string(input: &Vec<char>, pos: usize) -> (r: Option<(String, usize)>)
    ensures
        match r {
            Some((s, n)) => p_selector_rest(input@, pos as int, seq![]) == (s@, n as int) && pos
                < n <= input.len(),
            None => p_selector_rest(input@, pos as int, seq![]).1 == pos,
        },
{
    if pos > input.len() {
        proof {
            lemma_no_part_past_end(input@, pos as int, Flavor::Selector);
        }
        return None;
    }
    let mut out: Vec<char> = Vec::new();
    let mut at: usize = pos;
    let mut done: bool = false;
    while !done
        invariant
            pos <= at <= input.len(),
            p_selector_rest(input@, pos as int, seq![]) == p_selector_rest(
                input@,
                at as int,
                out@,
            ),
            done ==> selector_piece(input@, at as int) is None,
        decreases
                input.len() - at + (if done {
                    0int
                } else {
                    1int
                }),
    {
        match find_selector_piece(input, at) {
            Some((t, n)) => {
                push_all(&mut out, &t);
                at = n;
            },
            None => {
                done = true;
            },
        }
    }
    if at == pos {
        None
    } else {
        Some((string_of(&out), at))
    }
}

/// Reads a part of an extended unquoted string: a character that can start
/// one and those that go on it.
pub fn extended_part(input: &Vec<char>, pos: usize) -> (r: Option<(StringPart, usize)>)
    ensures
        match r {
            Some((p, n)) => p@ is Raw && text_piece(input@, pos as int, Flavor::Extended)
                == Some((p@->Raw_0, n as int)) && pos < n <= input.len(),
            None => text_piece(input@, pos as int, Flavor::Extended) is None,
        },
{
    if pos > input.len() {
        proof {
            lemma_no_part_past_end(input@, pos as int, Flavor::Extended);
        }
        return None;
    }
    match find_text_piece(input, pos, Flavor::Extended) {
        Some((t, n)) => Some((raw(&t), n)),
        None => None,
    }
}

} // verus!
