//! Removing the quotes of strings, with their escape sequences decoded.
use crate::text::{chars_of, string_of};
use crate::value::{models, Quotes, Value, ValueView};
use vstd::prelude::*;

verus! {

/// What the character behind a backslash stands for in a quoted string:
/// `0` for U+FFFD, another digit for the code point of its value, a hex
/// letter for the code point of its value (10 to 15), any other character
/// for itself.
pub open spec fn escape_code(c: char) -> char {
    let n = c as u32;
    if n == 0x30 {
        '\u{fffd}'
    } else if 0x31 <= n <= 0x39 {
        ((n - 0x30) as u8) as char
    } else if 0x61 <= n <= 0x66 {
        ((n - 0x61 + 10) as u8) as char
    } else if 0x41 <= n <= 0x46 {
        ((n - 0x41 + 10) as u8) as char
    } else {
        c
    }
}

/// The text of a quoted string with its escape sequences decoded. A
/// backslash at the very end stands for itself.
pub open spec fn decode_escapes(s: Seq<char>) -> Seq<char>
    decreases s.len(),
{
    if s.len() == 0 {
        seq![]
    } else if s[0] != '\\' {
        seq![s[0]] + decode_escapes(s.skip(1))
    } else if s.len() == 1 {
        seq!['\\']
    } else {
        seq![escape_code(s[1])] + decode_escapes(s.skip(2))
    }
}

/// What the character behind a backslash becomes when a string is to be
/// quoted again: as [`escape_code`], but an escaped backslash stays escaped
/// and an escaped `a` or `A` stays the escape `\a`.
pub open spec fn requote_code(c: char) -> Seq<char> {
    let n = c as u32;
    if c == '\\' {
        seq!['\\', '\\']
    } else if n == 0x61 || n == 0x41 {
        seq!['\\', 'a']
    } else {
        seq![escape_code(c)]
    }
}

/// The text of a quoted string, decoded for being quoted again.
pub open spec fn decode_for_requote(s: Seq<char>) -> Seq<char>
    decreases s.len(),
{
    if s.len() == 0 {
        seq![]
    } else if s[0] != '\\' {
        seq![s[0]] + decode_for_requote(s.skip(1))
    } else if s.len() == 1 {
        seq!['\\']
    } else {
        requote_code(s[1]) + decode_for_requote(s.skip(2))
    }
}

/// The quotes for a text: single ones if and only if it holds a `"` and no
/// `'`, else double ones.
pub open spec fn quotes_for(s: Seq<char>) -> Quotes {
    if s.contains('"') && !s.contains('\'') {
        Quotes::Single
    } else {
        Quotes::Double
    }
}

impl ValueView {
    /// The value without quotes: a quoted string becomes the unquoted
    /// string of its decoded text, a list is unquoted item by item, and
    /// anything else stays as it is.
    pub open spec fn unquote(self) -> ValueView
        decreases self,
    {
        match self {
            ValueView::Literal(s, Quotes::Unquoted) => self,
            ValueView::Literal(s, _) => ValueView::Literal(decode_escapes(s), Quotes::Unquoted),
            ValueView::List(items, sep, bracketed) => ValueView::List(
                Seq::new(
                    items.len(),
                    |i: int|
                        if 0 <= i < items.len() {
                            items[i].unquote()
                        } else {
                            ValueView::Null
                        },
                ),
                sep,
                bracketed,
            ),
            v => v,
        }
    }

    /// The value with every quoted string decoded and given the quotes that
    /// suit its text; a list is treated item by item, and anything else
    /// stays as it is.
    pub open spec fn unrequote(self) -> ValueView
        decreases self,
    {
        match self {
            ValueView::Literal(s, Quotes::Unquoted) => self,
            ValueView::Literal(s, _) => ValueView::Literal(
                decode_for_requote(s),
                quotes_for(decode_for_requote(s)),
            ),
            ValueView::List(items, sep, bracketed) => ValueView::List(
                Seq::new(
                    items.len(),
                    |i: int|
                        if 0 <= i < items.len() {
                            items[i].unrequote()
                        } else {
                            ValueView::Null
                        },
                ),
                sep,
                bracketed,
            ),
            v => v,
        }
    }
}

/// The executable form of [`escape_code`].
fn escape_char(c: char) -> (r: char)
    ensures
        r == escape_code(c),
{
    let n: u32 = c as u32;
    if n == 0x30 {
        '\u{fffd}'
    } else if 0x31 <= n && n <= 0x39 {
        ((n - 0x30) as u8) as char
    } else if 0x61 <= n && n <= 0x66 {
        ((n - 0x61 + 10) as u8) as char
    } else if 0x41 <= n && n <= 0x46 {
        ((n - 0x41 + 10) as u8) as char
    } else {
        c
    }
}

/// The text of a quoted string with its escape sequences decoded.
pub fn decode(s: &Vec<char>) -> (r: Vec<char>)
    ensures
        r@ == decode_escapes(s@),
{
    let mut out: Vec<char> = Vec::new();
    let mut i: usize = 0;
    assert(s@.skip(0) =~= s@);
    while i < s.len()
        invariant
            i <= s.len(),
            decode_escapes(s@) == out@ + decode_escapes(s@.skip(i as int)),
        decreases s.len() - i,
    {
        let ghost rest = s@.skip(i as int);
        let c = s[i];
        if c != '\\' {
            out.push(c);
            assert(rest.skip(1) =~= s@.skip(i + 1));
            i += 1;
        } else if i + 1 < s.len() {
            out.push(escape_char(s[i + 1]));
            assert(rest.skip(2) =~= s@.skip(i + 2));
            i += 2;
        } else {
            out.push('\\');
            i += 1;
        }
    }
    out
}

/// The text of a quoted string, decoded for being quoted again.
pub fn decode_requote(s: &Vec<char>) -> (r: Vec<char>)
    ensures
        r@ == decode_for_requote(s@),
{
    let mut out: Vec<char> = Vec::new();
    let mut i: usize = 0;
    assert(s@.skip(0) =~= s@);
    while i < s.len()
        invariant
            i <= s.len(),
            decode_for_requote(s@) == out@ + decode_for_requote(s@.skip(i as int)),
        decreases s.len() - i,
    {
        let ghost rest = s@.skip(i as int);
        let c = s[i];
        if c != '\\' {
            out.push(c);
            assert(rest.skip(1) =~= s@.skip(i + 1));
            i += 1;
        } else if i + 1 < s.len() {
            let e = s[i + 1];
            let n: u32 = e as u32;
            if e == '\\' {
                out.push('\\');
                out.push('\\');
            } else if n == 0x61 || n == 0x41 {
                out.push('\\');
                out.push('a');
            } else {
                out.push(escape_char(e));
            }
            assert(rest.skip(2) =~= s@.skip(i + 2));
            i += 2;
        } else {
            out.push('\\');
            i += 1;
        }
    }
    out
}

/// Whether `c` occurs in `s`.
pub fn has_char(s: &Vec<char>, c: char) -> (b: bool)
    ensures
        b == s@.contains(c),
{
    let mut i: usize = 0;
    while i < s.len()
        invariant
            i <= s.len(),
            forall|j: int| 0 <= j < i ==> s@[j] != c,
        decreases s.len() - i,
    {
        if s[i] == c {
            return true;
        }
        i += 1;
    }
    false
}

impl Value {
    /// The value without quotes. The text of a quoted string is decoded:
    /// `\0` gives U+FFFD, `\` and another digit or a hex letter the code
    /// point of its value, `\` and any other character that character, and
    /// a `\` at the end itself. A list is unquoted item by item; anything
    /// else stays as it is.
    pub fn unquote(self) -> (r: Value)
        ensures
            r@ == self@.unquote(),
        decreases self@,
    {
        match self {
            Value::Literal(s, Quotes::Unquoted) => Value::Literal(s, Quotes::Unquoted),
            Value::Literal(s, _) => {
                let decoded = decode(&chars_of(s.as_str()));
                Value::Literal(string_of(&decoded), Quotes::Unquoted)
            },
            Value::List(list, sep, bracketed) => {
                let mut out: Vec<Value> = Vec::new();
                let mut i: usize = 0;
                while i < list.len()
                    invariant
                        self@ is List,
                        self@->List_0 == models(list@),
                        i <= list.len(),
                        out.len() == i,
                        forall|j: int| 0 <= j < i ==> out[j]@ == list[j]@.unquote(),
                    decreases list.len() - i,
                {
                    let c = list[i].dup();
                    assert(self@->List_0[i as int] == c@);
                    let d = c.unquote();
                    out.push(d);
                    i += 1;
                }
                let r = Value::List(out, sep, bracketed);
                assert(r@->List_0 =~= self@.unquote()->List_0);
                r
            },
            v => v,
        }
    }

    /// The value with every quoted string decoded and quoted anew: in
    /// single quotes if and only if the decoded text holds a `"` and no
    /// `'`, else in double quotes. An escaped backslash and an escaped `a`
    /// stay escapes. A list is treated item by item; anything else, an
    /// unquoted string too, stays as it is.
    pub fn unrequote(&self) -> (r: Value)
        ensures
            r@ == self@.unrequote(),
        decreases self,
    {
        match self {
            Value::Literal(s, Quotes::Unquoted) => Value::Literal(s.clone(), Quotes::Unquoted),
            Value::Literal(s, _) => {
                let decoded = decode_requote(&chars_of(s.as_str()));
                let q = if has_char(&decoded, '"') && !has_char(&decoded, '\'') {
                    Quotes::Single
                } else {
                    Quotes::Double
                };
                Value::Literal(string_of(&decoded), q)
            },
            Value::List(list, sep, bracketed) => {
                let mut out: Vec<Value> = Vec::new();
                let mut i: usize = 0;
                while i < list.len()
                    invariant
                        self is List,
                        self->List_0 == *list,
                        i <= list.len(),
                        out.len() == i,
                        forall|j: int| 0 <= j < i ==> out[j]@ == list[j]@.unrequote(),
                    decreases list.len() - i,
                {
                    let d = list[i].unrequote();
                    out.push(d);
                    i += 1;
                }
                let r = Value::List(out, *sep, *bracketed);
                assert(r@->List_0 =~= self@.unrequote()->List_0);
                r
            },
            v => v.dup(),
        }
    }
}

} // verus!
