//! The grammar of stylesheets: declarations of variables, rules with
//! properties and rules in them, mixins and the statements that include
//! them, `@if` and `@warn`.
use crate::compile::{tidy, tidy_selector};
use crate::parser::util::{
    char_at, is_space, next_is, prefix_at, skip_ws, slice, starts_with, ws_end,
};
use crate::parser::value::{
    call_args, found, found_args, name_len, p_args, p_space_list, p_value_expression, skip_name,
    space_list, value_expression,
};
use crate::sass::{SassString, SassStringView, StringPart, StringPartView};
use crate::stylesheet::{formal_models, item_models, lemma_item_parts, FormalArgs, Item, ItemView};
use crate::text::string_of;
use crate::value::{arg_models, CallArgs, Quotes, Value, ValueView};
use vstd::prelude::*;

verus! {

/// Where a reader of source text is, as to comments and strings.
#[derive(Clone, Copy, Debug, PartialEq, Eq, Structural)]
pub enum Mode {
    /// In the text of the stylesheet.
    Code,
    /// Behind a `/` that may start a comment.
    Slash,
    /// In a comment that ends with the line.
    Line,
    /// In a comment between `/*` and `*/`.
    Block,
    /// In such a comment, behind a `*` that may end it.
    Star,
    /// In a string with the given mark.
    Quoted(char),
    /// In such a string, behind a backslash.
    Escaped(char),
}

/// What one more character makes of source text whose comments are being
/// taken out: the text so far and the mode. A comment to the end of the
/// line leaves the end of the line, a comment between `/*` and `*/` a
/// blank. Nothing in a string starts a comment.
pub open spec fn strip_step(state: (Seq<char>, Mode), c: char) -> (Seq<char>, Mode) {
    let (out, mode) = state;
    match mode {
        Mode::Code => if c == '/' {
            (out, Mode::Slash)
        } else if c == '"' || c == '\'' {
            (out.push(c), Mode::Quoted(c))
        } else {
            (out.push(c), Mode::Code)
        },
        Mode::Slash => if c == '/' {
            (out, Mode::Line)
        } else if c == '*' {
            (out, Mode::Block)
        } else if c == '"' || c == '\'' {
            (out.push('/').push(c), Mode::Quoted(c))
        } else {
            (out.push('/').push(c), Mode::Code)
        },
        Mode::Line => if c == '\n' {
            (out.push(c), Mode::Code)
        } else {
            (out, Mode::Line)
        },
        Mode::Block => if c == '*' {
            (out, Mode::Star)
        } else {
            (out, Mode::Block)
        },
        Mode::Star => if c == '/' {
            (out.push(' '), Mode::Code)
        } else if c == '*' {
            (out, Mode::Star)
        } else {
            (out, Mode::Block)
        },
        Mode::Quoted(mark) => if c == '\\' {
            (out.push(c), Mode::Escaped(mark))
        } else if c == mark {
            (out.push(c), Mode::Code)
        } else {
            (out.push(c), Mode::Quoted(mark))
        },
        Mode::Escaped(mark) => (out.push(c), Mode::Quoted(mark)),
    }
}

/// The first `n` characters of source text, with their comments taken out.
pub open spec fn strip_state(s: Seq<char>, n: nat) -> (Seq<char>, Mode)
    decreases n,
{
    if n == 0 || n > s.len() {
        (seq![], Mode::Code)
    } else {
        strip_step(strip_state(s, (n - 1) as nat), s[n - 1])
    }
}

/// Source text with its comments taken out.
pub open spec fn stripped(s: Seq<char>) -> Seq<char> {
    let state = strip_state(s, s.len());
    if state.1 == Mode::Slash {
        state.0.push('/')
    } else {
        state.0
    }
}

/// Source text with its comments taken out: see [`stripped`].
pub fn strip_comments(s: &Vec<char>) -> (r: Vec<char>)
    ensures
        r@ == stripped(s@),
{
    let mut out: Vec<char> = Vec::new();
    let mut mode = Mode::Code;
    let mut i: usize = 0;
    while i < s.len()
        invariant
            i <= s.len(),
            (out@, mode) == strip_state(s@, i as nat),
        decreases s.len() - i,
    {
        let c = s[i];
        match mode {
            Mode::Code => {
                if c == '/' {
                    mode = Mode::Slash;
                } else if c == '"' || c == '\'' {
                    out.push(c);
                    mode = Mode::Quoted(c);
                } else {
                    out.push(c);
                }
            },
            Mode::Slash => {
                if c == '/' {
                    mode = Mode::Line;
                } else if c == '*' {
                    mode = Mode::Block;
                } else if c == '"' || c == '\'' {
                    out.push('/');
                    out.push(c);
                    mode = Mode::Quoted(c);
                } else {
                    out.push('/');
                    out.push(c);
                    mode = Mode::Code;
                }
            },
            Mode::Line => {
                if c == '\n' {
                    out.push(c);
                    mode = Mode::Code;
                }
            },
            Mode::Block => {
                if c == '*' {
                    mode = Mode::Star;
                }
            },
            Mode::Star => {
                if c == '/' {
                    out.push(' ');
                    mode = Mode::Code;
                } else if c == '*' {
                } else {
                    mode = Mode::Block;
                }
            },
            Mode::Quoted(mark) => {
                out.push(c);
                if c == '\\' {
                    mode = Mode::Escaped(mark);
                } else if c == mark {
                    mode = Mode::Code;
                }
            },
            Mode::Escaped(mark) => {
                out.push(c);
                mode = Mode::Quoted(mark);
            },
        }
        i += 1;
    }
    match mode {
        Mode::Slash => {
            out.push('/');
        },
        _ => {},
    }
    out
}

/// A string of one part of plain text, tidied, without quotes.
pub open spec fn plain_string(text: Seq<char>) -> SassStringView {
    SassStringView {
        parts: crate::sass::merged(seq![StringPartView::Raw(tidy(text, false))]),
        quotes: Quotes::Unquoted,
    }
}

/// The place behind a statement that ends at `pos` or behind white space
/// that starts there: behind its semicolon, or before the closing brace or
/// the end of the text that stands in its place.
#[verifier::opaque]
pub open spec fn statement_end(s: Seq<char>, pos: int) -> Option<int> {
    let at = ws_end(s, pos);
    if char_at(s, at) == Some(';') {
        Some(at + 1)
    } else if char_at(s, at) == Some('}') || at >= s.len() {
        Some(at)
    } else {
        None
    }
}

/// The flag that stands at `pos` or behind white space that starts there:
/// `!default` (true) or `!global` (false), and the place behind it.
#[verifier::opaque]
pub open spec fn flag_at(s: Seq<char>, pos: int) -> Option<(bool, int)> {
    let at = ws_end(s, pos);
    if prefix_at(s, at, "!default"@) {
        Some((true, at + 8))
    } else if prefix_at(s, at, "!global"@) {
        Some((false, at + 7))
    } else {
        None
    }
}

/// The flags of a declaration behind its value: whether `!default` and
/// whether `!global` are among up to two flags, and the place behind them.
#[verifier::opaque]
pub open spec fn flags_at(s: Seq<char>, pos: int) -> (bool, bool, int) {
    match flag_at(s, pos) {
        None => (false, false, pos),
        Some((first, n)) => match flag_at(s, n) {
            None => (first, !first, n),
            Some((second, m)) => (first || second, !first || !second, m),
        },
    }
}

/// How a statement starts, with what of it holds no statements.
pub enum HeadView {
    /// A declaration of a variable: all of it, and the place behind it.
    Variable(Seq<char>, ValueView, bool, bool, int),
    /// `@mixin`, the name and the parameters; the place where the braces
    /// are to start.
    Mixin(Seq<char>, Seq<(Seq<char>, ValueView)>, int),
    /// `@include`: all of it, and the place behind it.
    Include(Seq<char>, Seq<(Option<Seq<char>>, ValueView)>, int),
    /// `@if` and the condition; the place where the braces are to start.
    If(ValueView, int),
    /// `@warn`: all of it, and the place behind it.
    Warn(ValueView, int),
    /// A property: all of it, and the place behind it.
    Property(Seq<char>, ValueView, int),
    /// A name and a colon before braces; the place of the braces.
    Namespace(Seq<char>, int),
    /// Selectors before braces; the place of the braces.
    Rule(Seq<char>, int),
    /// Nothing that a statement starts with.
    Nothing,
}

/// A declaration of a variable at `pos`: `$`, a name, a colon, a value
/// expression, flags and the end of the statement.
#[verifier::opaque]
pub open spec fn variable_head(s: Seq<char>, pos: int) -> HeadView {
    let name_end = pos + 1 + name_len(s, pos + 1);
    let colon = ws_end(s, name_end);
    let start = ws_end(s, colon + 1);
    if char_at(s, pos) == Some('$') && name_end > pos + 1 && char_at(s, colon) == Some(':')
        && start <= s.len() {
        match p_value_expression(s, start) {
            Some((v, n)) => {
                let flags = flags_at(s, n);
                match statement_end(s, flags.2) {
                    Some(end) => HeadView::Variable(
                        s.subrange(pos + 1, name_end),
                        v,
                        flags.0,
                        flags.1,
                        end,
                    ),
                    None => HeadView::Nothing,
                }
            },
            None => HeadView::Nothing,
        }
    } else {
        HeadView::Nothing
    }
}

/// A value expression behind a word at `pos` and white space, and the
/// place behind the expression.
#[verifier::opaque]
pub open spec fn directive_value(s: Seq<char>, pos: int, word: Seq<char>) -> Option<
    (ValueView, int),
> {
    let start = ws_end(s, pos + word.len());
    if prefix_at(s, pos, word) && start > pos + word.len() && start <= s.len() {
        p_value_expression(s, start)
    } else {
        None
    }
}

/// A name behind a word at `pos` and white space, and the place behind the
/// name.
#[verifier::opaque]
pub open spec fn directive_name(s: Seq<char>, pos: int, word: Seq<char>) -> Option<
    (Seq<char>, int),
> {
    let start = ws_end(s, pos + word.len());
    let end = start + name_len(s, start);
    if prefix_at(s, pos, word) && start > pos + word.len() && end > start {
        Some((s.subrange(start, end), end))
    } else {
        None
    }
}

/// A parameter at `pos` or behind white space that starts there: `$` and a
/// name, and behind a colon the value that it has where a call gives none;
/// and what stands behind it: a comma (true) or the closing parenthesis
/// (false), and the place behind that.
#[verifier::opaque]
pub open spec fn formal_at(s: Seq<char>, pos: int) -> Option<((Seq<char>, ValueView), bool, int)> {
    let start = ws_end(s, pos);
    let name_end = start + 1 + name_len(s, start + 1);
    let colon = ws_end(s, name_end);
    if char_at(s, start) == Some('$') && name_end > start + 1 {
        let name = s.subrange(start + 1, name_end);
        if char_at(s, colon) == Some(':') && ws_end(s, colon + 1) <= s.len() {
            match p_space_list(s, ws_end(s, colon + 1)) {
                Some((v, n)) => match formal_tail(s, n) {
                    Some((more, m)) => Some(((name, v), more, m)),
                    None => None,
                },
                None => None,
            }
        } else {
            match formal_tail(s, name_end) {
                Some((more, m)) => Some(((name, ValueView::Null), more, m)),
                None => None,
            }
        }
    } else {
        None
    }
}

/// What stands behind a parameter: a comma (true) or the closing
/// parenthesis (false), and the place behind it.
pub open spec fn formal_tail(s: Seq<char>, pos: int) -> Option<(bool, int)> {
    if char_at(s, ws_end(s, pos)) == Some(',') {
        Some((true, ws_end(s, pos) + 1))
    } else if char_at(s, ws_end(s, pos)) == Some(')') {
        Some((false, ws_end(s, pos) + 1))
    } else {
        None
    }
}

/// The parameters of a mixin behind its opening parenthesis or behind a
/// comma, up to the closing parenthesis.
pub open spec fn p_formals(s: Seq<char>, pos: int, acc: Seq<(Seq<char>, ValueView)>) -> Option<
    (Seq<(Seq<char>, ValueView)>, int),
>
    decreases s.len() - pos,
{
    match formal_at(s, pos) {
        Some((formal, more, n)) => if more {
            if pos < n <= s.len() {
                p_formals(s, n, acc.push(formal))
            } else {
                None
            }
        } else {
            Some((acc.push(formal), n))
        },
        None => None,
    }
}

/// The parameters of a mixin behind its name: none, or what stands in
/// parentheses, which may be empty; and the place behind them.
pub open spec fn formals_at(s: Seq<char>, pos: int) -> Option<
    (Seq<(Seq<char>, ValueView)>, int),
> {
    let at = ws_end(s, pos);
    if char_at(s, at) != Some('(') {
        Some((seq![], pos))
    } else if char_at(s, ws_end(s, at + 1)) == Some(')') {
        Some((seq![], ws_end(s, at + 1) + 1))
    } else {
        p_formals(s, at + 1, seq![])
    }
}

/// The arguments of a call behind the name of a mixin: none, or what
/// stands in parentheses; and the place behind them.
pub open spec fn include_args(s: Seq<char>, pos: int) -> Option<
    (Seq<(Option<Seq<char>>, ValueView)>, int),
> {
    let at = ws_end(s, pos);
    if char_at(s, at) != Some('(') {
        Some((seq![], pos))
    } else {
        p_args(s, at + 1, seq![])
    }
}

/// The place of the first `;`, `{` or `}` from `pos` on that stands in no
/// string and in no interpolation, or the end of the text. `quote` is the
/// mark of the string that `pos` stands in, and `depth` the number of
/// interpolations.
pub open spec fn delimiter(s: Seq<char>, pos: int, quote: Option<char>, depth: nat) -> int
    decreases s.len() - pos,
{
    if pos < 0 || pos >= s.len() {
        s.len() as int
    } else {
        let c = s[pos];
        match quote {
            Some(mark) => if c == '\\' && pos + 1 < s.len() {
                delimiter(s, pos + 2, quote, depth)
            } else if c == mark {
                delimiter(s, pos + 1, None, depth)
            } else {
                delimiter(s, pos + 1, quote, depth)
            },
            None => if c == '"' || c == '\'' {
                delimiter(s, pos + 1, Some(c), depth)
            } else if c == '#' && char_at(s, pos + 1) == Some('{') {
                delimiter(s, pos + 2, None, depth + 1)
            } else if c == '}' && depth > 0 {
                delimiter(s, pos + 1, None, (depth - 1) as nat)
            } else if (c == ';' || c == '{' || c == '}') && depth == 0 {
                pos
            } else {
                delimiter(s, pos + 1, None, depth)
            },
        }
    }
}

/// The place of the first colon from `pos` up to `end`, or `end`.
pub open spec fn colon_at(s: Seq<char>, pos: int, end: int) -> int
    decreases end - pos,
{
    if pos >= end || pos < 0 || pos >= s.len() {
        end
    } else if s[pos] == ':' {
        pos
    } else {
        colon_at(s, pos + 1, end)
    }
}

/// The place of the last character from `pos` up to `end` that is no white
/// space, or `pos - 1`.
pub open spec fn last_word(s: Seq<char>, pos: int, end: int) -> int
    decreases end - pos,
{
    if end <= pos || end > s.len() || pos < 0 {
        pos - 1
    } else if !is_space(s[end - 1]) {
        end - 1
    } else {
        last_word(s, pos, end - 1)
    }
}

/// A property or the start of a rule at `pos`. What stands before braces
/// is a name, if a colon ends it, or else selectors. What a semicolon, a
/// closing brace or the end of the text ends is a property: a name, a
/// colon and a value expression.
#[verifier::opaque]
pub open spec fn plain_head(s: Seq<char>, pos: int) -> HeadView {
    let end = delimiter(s, pos, None, 0);
    let last = last_word(s, pos, end);
    let colon = colon_at(s, pos, end);
    if pos < 0 || end > s.len() || last < pos {
        HeadView::Nothing
    } else if char_at(s, end) == Some('{') {
        if s[last] == ':' {
            if last > pos {
                HeadView::Namespace(s.subrange(pos, last), end)
            } else {
                HeadView::Nothing
            }
        } else {
            HeadView::Rule(s.subrange(pos, end), end)
        }
    } else if pos < colon < end && ws_end(s, colon + 1) <= s.len() {
        match p_value_expression(s, ws_end(s, colon + 1)) {
            Some((v, n)) => if ws_end(s, n) == end {
                match statement_end(s, n) {
                    Some(m) => HeadView::Property(s.subrange(pos, colon), v, m),
                    None => HeadView::Nothing,
                }
            } else {
                HeadView::Nothing
            },
            None => HeadView::Nothing,
        }
    } else {
        HeadView::Nothing
    }
}

/// How the statement at `pos` starts.
#[verifier::opaque]
pub open spec fn head_at(s: Seq<char>, pos: int) -> HeadView {
    if char_at(s, pos) == Some('$') {
        variable_head(s, pos)
    } else if char_at(s, pos) == Some('@') {
        if prefix_at(s, pos, "@mixin"@) {
            match directive_name(s, pos, "@mixin"@) {
                Some((name, n)) => match formals_at(s, n) {
                    Some((formals, m)) => HeadView::Mixin(name, formals, m),
                    None => HeadView::Nothing,
                },
                None => HeadView::Nothing,
            }
        } else if prefix_at(s, pos, "@include"@) {
            match directive_name(s, pos, "@include"@) {
                Some((name, n)) => match include_args(s, n) {
                    Some((args, m)) => match statement_end(s, m) {
                        Some(end) => HeadView::Include(name, args, end),
                        None => HeadView::Nothing,
                    },
                    None => HeadView::Nothing,
                },
                None => HeadView::Nothing,
            }
        } else if prefix_at(s, pos, "@if"@) {
            match directive_value(s, pos, "@if"@) {
                Some((v, n)) => HeadView::If(v, n),
                None => HeadView::Nothing,
            }
        } else if prefix_at(s, pos, "@warn"@) {
            match directive_value(s, pos, "@warn"@) {
                Some((v, n)) => match statement_end(s, n) {
                    Some(end) => HeadView::Warn(v, end),
                    None => HeadView::Nothing,
                },
                None => HeadView::Nothing,
            }
        } else {
            HeadView::Nothing
        }
    } else {
        plain_head(s, pos)
    }
}

/// The place behind an opening brace that stands at `pos` or behind white
/// space that starts there.
#[verifier::opaque]
pub open spec fn open_at(s: Seq<char>, pos: int) -> Option<int> {
    if char_at(s, ws_end(s, pos)) == Some('{') {
        Some(ws_end(s, pos) + 1)
    } else {
        None
    }
}

/// The place behind `@else` that stands at `pos` or behind white space
/// that starts there.
#[verifier::opaque]
pub open spec fn else_at(s: Seq<char>, pos: int) -> Option<int> {
    if prefix_at(s, ws_end(s, pos), "@else"@) {
        Some(ws_end(s, pos) + 5)
    } else {
        None
    }
}

/// The place of the next statement from `pos` on: behind white space and
/// semicolons.
pub open spec fn next_statement(s: Seq<char>, pos: int) -> int
    decreases s.len() - pos,
{
    if 0 <= pos < s.len() && (is_space(s[pos]) || s[pos] == ';') {
        next_statement(s, pos + 1)
    } else {
        pos
    }
}

/// The place behind a closing brace that stands at the place of the next
/// statement from `pos` on.
#[verifier::opaque]
pub open spec fn shut_at(s: Seq<char>, pos: int) -> Option<int> {
    if char_at(s, next_statement(s, pos)) == Some('}') {
        Some(next_statement(s, pos) + 1)
    } else {
        None
    }
}

/// The statements from `pos` on, behind those that were read, and the place
/// behind the last of them.
pub open spec fn p_items(s: Seq<char>, pos: int, acc: Seq<ItemView>) -> (Seq<ItemView>, int)
    decreases s.len() - pos, 2nat,
{
    let start = next_statement(s, pos);
    if pos <= start <= s.len() {
        match p_item(s, start) {
            Some((item, n)) => if pos < n <= s.len() {
                p_items(s, n, acc.push(item))
            } else {
                (acc, pos)
            },
            None => (acc, pos),
        }
    } else {
        (acc, pos)
    }
}

/// Statements in braces, from the opening brace at `pos` or behind white
/// space that starts there, and the place behind the closing brace.
pub open spec fn p_block(s: Seq<char>, pos: int) -> Option<(Seq<ItemView>, int)>
    decreases s.len() - pos, 3nat,
{
    match open_at(s, pos) {
        Some(start) => if pos < start <= s.len() {
            match shut_at(s, p_items(s, start, seq![]).1) {
                Some(end) => Some((p_items(s, start, seq![]).0, end)),
                None => None,
            }
        } else {
            None
        },
        None => None,
    }
}

/// The statement at `pos`, and the place behind it.
pub open spec fn p_item(s: Seq<char>, pos: int) -> Option<(ItemView, int)>
    decreases s.len() - pos, 1nat,
{
    match head_at(s, pos) {
        HeadView::Variable(name, val, default, global, end) => Some(
            (ItemView::VariableDeclaration(name, val, default, global), end),
        ),
        HeadView::Include(name, args, end) => Some((ItemView::MixinCall(name, args), end)),
        HeadView::Warn(val, end) => Some((ItemView::Warn(val), end)),
        HeadView::Property(name, val, end) => Some(
            (ItemView::Property(plain_string(name), val), end),
        ),
        HeadView::Mixin(name, formals, at) => if pos < at <= s.len() {
            match p_block(s, at) {
                Some((body, end)) => Some((ItemView::MixinDeclaration(name, formals, body), end)),
                None => None,
            }
        } else {
            None
        },
        HeadView::Namespace(name, at) => if pos < at <= s.len() {
            match p_block(s, at) {
                Some((body, end)) => Some(
                    (ItemView::NamespaceRule(plain_string(name), ValueView::Null, body), end),
                ),
                None => None,
            }
        } else {
            None
        },
        HeadView::Rule(selectors, at) => if pos < at <= s.len() {
            match p_block(s, at) {
                Some((body, end)) => Some((ItemView::Rule(plain_string(selectors), body), end)),
                None => None,
            }
        } else {
            None
        },
        HeadView::If(cond, at) => if pos < at <= s.len() {
            match p_block(s, at) {
                Some((then, end)) => match else_at(s, end) {
                    Some(other_at) => if pos < other_at <= s.len() {
                        match p_block(s, other_at) {
                            Some((other, last)) => Some(
                                (ItemView::IfStatement(cond, then, other), last),
                            ),
                            None => None,
                        }
                    } else {
                        None
                    },
                    None => Some((ItemView::IfStatement(cond, then, seq![]), end)),
                },
                None => None,
            }
        } else {
            None
        },
        HeadView::Nothing => None,
    }
}

/// The statements of a stylesheet without comments, if all of it is
/// statements; else the place where no statement starts.
pub open spec fn p_stylesheet(s: Seq<char>) -> Result<Seq<ItemView>, int> {
    let found = p_items(s, 0, seq![]);
    if next_statement(s, found.1) >= s.len() {
        Ok(found.0)
    } else {
        Err(next_statement(s, found.1))
    }
}

/// How a statement starts, with what of it holds no statements.
pub enum Head {
    Variable(String, Value, bool, bool, usize),
    Mixin(String, FormalArgs, usize),
    Include(String, CallArgs, usize),
    If(Value, usize),
    Warn(Value, usize),
    Property(Vec<char>, Value, usize),
    Namespace(Vec<char>, usize),
    Rule(Vec<char>, usize),
    Nothing,
}

impl View for Head {
    type V = HeadView;

    open spec fn view(&self) -> HeadView {
        match self {
            Head::Variable(name, val, default, global, end) => HeadView::Variable(
                name@,
                val@,
                *default,
                *global,
                *end as int,
            ),
            Head::Mixin(name, formals, at) => HeadView::Mixin(
                name@,
                formal_models(formals@),
                *at as int,
            ),
            Head::Include(name, args, end) => HeadView::Include(
                name@,
                arg_models(args@),
                *end as int,
            ),
            Head::If(cond, at) => HeadView::If(cond@, *at as int),
            Head::Warn(val, end) => HeadView::Warn(val@, *end as int),
            Head::Property(name, val, end) => HeadView::Property(name@, val@, *end as int),
            Head::Namespace(name, at) => HeadView::Namespace(name@, *at as int),
            Head::Rule(selectors, at) => HeadView::Rule(selectors@, *at as int),
            Head::Nothing => HeadView::Nothing,
        }
    }
}

impl Head {
    /// The place behind what was read lies behind `pos` and in the text.
    pub open spec fn ahead(&self, pos: usize, len: usize) -> bool {
        match self {
            Head::Variable(_, _, _, _, n) => pos < *n <= len,
            Head::Mixin(_, _, n) => pos < *n <= len,
            Head::Include(_, _, n) => pos < *n <= len,
            Head::If(_, n) => pos < *n <= len,
            Head::Warn(_, n) => pos < *n <= len,
            Head::Property(_, _, n) => pos < *n <= len,
            Head::Namespace(_, n) => pos < *n <= len,
            Head::Rule(_, n) => pos < *n <= len,
            Head::Nothing => true,
        }
    }
}

/// The executable form of [`statement_end`].
fn find_statement_end(input: &Vec<char>, pos: usize) -> (r: Option<usize>)
    requires
        pos <= input.len(),
    ensures
        match r {
            Some(n) => statement_end(input@, pos as int) == Some(n as int) && pos <= n
                <= input.len(),
            None => statement_end(input@, pos as int) is None,
        },
{
    reveal(statement_end);
    let at = skip_ws(input, pos);
    if next_is(input, at, ';') {
        Some(at + 1)
    } else if next_is(input, at, '}') || at >= input.len() {
        Some(at)
    } else {
        None
    }
}

/// The executable form of [`flag_at`].
fn find_flag(input: &Vec<char>, pos: usize) -> (r: Option<(bool, usize)>)
    requires
        pos <= input.len(),
    ensures
        match r {
            Some((d, n)) => flag_at(input@, pos as int) == Some((d, n as int)) && pos < n
                <= input.len(),
            None => flag_at(input@, pos as int) is None,
        },
{
    reveal(flag_at);
    proof {
        reveal_strlit("!default");
        reveal_strlit("!global");
    }
    let at = skip_ws(input, pos);
    if starts_with(input, at, "!default") {
        Some((true, at + 8))
    } else if starts_with(input, at, "!global") {
        Some((false, at + 7))
    } else {
        None
    }
}

/// The executable form of [`flags_at`].
fn find_flags(input: &Vec<char>, pos: usize) -> (r: (bool, bool, usize))
    requires
        pos <= input.len(),
    ensures
        (r.0, r.1, r.2 as int) == flags_at(input@, pos as int),
        pos <= r.2 <= input.len(),
{
    reveal(flags_at);
    match find_flag(input, pos) {
        None => (false, false, pos),
        Some((first, n)) => match find_flag(input, n) {
            None => (first, !first, n),
            Some((second, m)) => (first || second, !first || !second, m),
        },
    }
}

/// The executable form of [`variable_head`].
fn variable_head_at(input: &Vec<char>, pos: usize) -> (r: Head)
    requires
        pos <= input.len(),
    ensures
        r@ == variable_head(input@, pos as int),
        r.ahead(pos, input.len()),
{
    reveal(variable_head);
    if !next_is(input, pos, '$') {
        return Head::Nothing;
    }
    let name_end = skip_name(input, pos + 1);
    let colon = skip_ws(input, name_end);
    if !(name_end > pos + 1 && next_is(input, colon, ':')) {
        return Head::Nothing;
    }
    let start = skip_ws(input, colon + 1);
    match value_expression(input, start) {
        Some((v, n)) => {
            let flags = find_flags(input, n);
            match find_statement_end(input, flags.2) {
                Some(end) => Head::Variable(
                    string_of(&slice(input, pos + 1, name_end)),
                    v,
                    flags.0,
                    flags.1,
                    end,
                ),
                None => Head::Nothing,
            }
        },
        None => Head::Nothing,
    }
}

/// The executable form of [`directive_value`].
fn find_directive_value(input: &Vec<char>, pos: usize, word: &str, len: usize) -> (r: Option<
    (Value, usize),
>)
    requires
        pos <= input.len(),
        len == word@.len(),
        len > 0,
    ensures
        found(r) == directive_value(input@, pos as int, word@),
        r matches Some((_, n)) ==> pos < n <= input.len(),
{
    reveal(directive_value);
    if !starts_with(input, pos, word) {
        return None;
    }
    let start = skip_ws(input, pos + len);
    if start > pos + len {
        value_expression(input, start)
    } else {
        None
    }
}

/// The executable form of [`directive_name`].
fn find_directive_name(input: &Vec<char>, pos: usize, word: &str, len: usize) -> (r: Option<
    (String, usize),
>)
    requires
        pos <= input.len(),
        len == word@.len(),
        len > 0,
    ensures
        match r {
            Some((name, n)) => directive_name(input@, pos as int, word@) == Some(
                (name@, n as int),
            ) && pos < n <= input.len(),
            None => directive_name(input@, pos as int, word@) is None,
        },
{
    reveal(directive_name);
    if !starts_with(input, pos, word) {
        return None;
    }
    let start = skip_ws(input, pos + len);
    let end = skip_name(input, start);
    if start > pos + len && end > start {
        Some((string_of(&slice(input, start, end)), end))
    } else {
        None
    }
}

/// The executable form of [`formal_tail`].
fn find_formal_tail(input: &Vec<char>, pos: usize) -> (r: Option<(bool, usize)>)
    requires
        pos <= input.len(),
    ensures
        match r {
            Some((more, n)) => formal_tail(input@, pos as int) == Some((more, n as int)) && pos
                < n <= input.len(),
            None => formal_tail(input@, pos as int) is None,
        },
{
    let at = skip_ws(input, pos);
    if next_is(input, at, ',') {
        Some((true, at + 1))
    } else if next_is(input, at, ')') {
        Some((false, at + 1))
    } else {
        None
    }
}

/// The executable form of [`formal_at`].
fn find_formal(input: &Vec<char>, pos: usize) -> (r: Option<((String, Value), bool, usize)>)
    requires
        pos <= input.len(),
    ensures
        match r {
            Some((formal, more, n)) => formal_at(input@, pos as int) == Some(
                ((formal.0@, formal.1@), more, n as int),
            ) && pos < n <= input.len(),
            None => formal_at(input@, pos as int) is None,
        },
{
    reveal(formal_at);
    let start = skip_ws(input, pos);
    if !next_is(input, start, '$') {
        return None;
    }
    let name_end = skip_name(input, start + 1);
    if name_end <= start + 1 {
        return None;
    }
    let colon = skip_ws(input, name_end);
    let name = string_of(&slice(input, start + 1, name_end));
    if next_is(input, colon, ':') {
        match space_list(input, skip_ws(input, colon + 1)) {
            Some((v, n)) => match find_formal_tail(input, n) {
                Some((more, m)) => Some(((name, v), more, m)),
                None => None,
            },
            None => None,
        }
    } else {
        match find_formal_tail(input, name_end) {
            Some((more, m)) => Some(((name, Value::Null), more, m)),
            None => None,
        }
    }
}

/// The executable form of [`p_formals`].
fn formals_from(input: &Vec<char>, pos: usize, acc: FormalArgs) -> (r: Option<(FormalArgs, usize)>)
    requires
        pos <= input.len(),
    ensures
        match r {
            Some((formals, n)) => p_formals(input@, pos as int, formal_models(acc@)) == Some(
                (formal_models(formals@), n as int),
            ) && pos < n <= input.len(),
            None => p_formals(input@, pos as int, formal_models(acc@)) is None,
        },
    decreases input.len() - pos,
{
    let mut acc = acc;
    match find_formal(input, pos) {
        Some((formal, more, n)) => {
            let ghost before = formal_models(acc@);
            let ghost m = (formal.0@, formal.1@);
            acc.push(formal);
            assert(formal_models(acc@) =~= before.push(m));
            if more {
                formals_from(input, n, acc)
            } else {
                Some((acc, n))
            }
        },
        None => None,
    }
}

/// The executable form of [`formals_at`].
fn find_formals(input: &Vec<char>, pos: usize) -> (r: Option<(FormalArgs, usize)>)
    requires
        pos <= input.len(),
    ensures
        match r {
            Some((formals, n)) => formals_at(input@, pos as int) == Some(
                (formal_models(formals@), n as int),
            ) && pos <= n <= input.len(),
            None => formals_at(input@, pos as int) is None,
        },
{
    let at = skip_ws(input, pos);
    let none: FormalArgs = Vec::new();
    assert(formal_models(none@) =~= seq![]);
    if !next_is(input, at, '(') {
        Some((none, pos))
    } else if next_is(input, skip_ws(input, at + 1), ')') {
        Some((none, skip_ws(input, at + 1) + 1))
    } else {
        formals_from(input, at + 1, none)
    }
}

/// The executable form of [`include_args`].
fn find_include_args(input: &Vec<char>, pos: usize) -> (r: Option<(CallArgs, usize)>)
    requires
        pos <= input.len(),
    ensures
        found_args(r) == include_args(input@, pos as int),
        r matches Some((_, n)) ==> pos <= n <= input.len(),
{
    let at = skip_ws(input, pos);
    let none: CallArgs = Vec::new();
    assert(arg_models(none@) =~= seq![]);
    if !next_is(input, at, '(') {
        Some((none, pos))
    } else {
        call_args(input, at + 1, none)
    }
}

/// The executable form of [`delimiter`].
fn find_delimiter(input: &Vec<char>, pos: usize) -> (r: usize)
    requires
        pos <= input.len(),
    ensures
        r == delimiter(input@, pos as int, None, 0),
        pos <= r <= input.len(),
{
    let mut i: usize = pos;
    let mut quote: Option<char> = None;
    let mut depth: usize = 0;
    let mut found: bool = false;
    while i < input.len() && !found
        invariant
            pos <= i <= input.len(),
            delimiter(input@, pos as int, None, 0) == delimiter(
                input@,
                i as int,
                quote,
                depth as nat,
            ),
            depth <= i,
            found ==> i < input.len() && delimiter(input@, i as int, quote, depth as nat) == i,
        decreases
                input.len() - i + (if found {
                    0int
                } else {
                    1int
                }),
    {
        let c = input[i];
        match quote {
            Some(mark) => {
                if c == '\\' && i + 1 < input.len() {
                    i += 2;
                } else if c == mark {
                    quote = None;
                    i += 1;
                } else {
                    i += 1;
                }
            },
            None => {
                if c == '"' || c == '\'' {
                    quote = Some(c);
                    i += 1;
                } else if c == '#' && next_is(input, i + 1, '{') {
                    depth += 1;
                    i += 2;
                } else if c == '}' && depth > 0 {
                    depth -= 1;
                    i += 1;
                } else if (c == ';' || c == '{' || c == '}') && depth == 0 {
                    found = true;
                } else {
                    i += 1;
                }
            },
        }
    }
    i
}

/// The executable form of [`colon_at`].
fn find_colon(input: &Vec<char>, pos: usize, end: usize) -> (r: usize)
    requires
        pos <= end <= input.len(),
    ensures
        r == colon_at(input@, pos as int, end as int),
        pos <= r <= end,
{
    let mut i: usize = pos;
    while i < end && input[i] != ':'
        invariant
            pos <= i <= end <= input.len(),
            colon_at(input@, pos as int, end as int) == colon_at(input@, i as int, end as int),
        decreases end - i,
    {
        i += 1;
    }
    i
}

/// The executable form of [`last_word`].
fn find_last_word(input: &Vec<char>, pos: usize, end: usize) -> (r: Option<usize>)
    requires
        pos <= end <= input.len(),
    ensures
        match r {
            Some(n) => last_word(input@, pos as int, end as int) == n && pos <= n < end,
            None => last_word(input@, pos as int, end as int) == pos - 1,
        },
{
    let mut e: usize = end;
    while e > pos && crate::parser::util::space(input[e - 1])
        invariant
            pos <= e <= end <= input.len(),
            last_word(input@, pos as int, end as int) == last_word(input@, pos as int, e as int),
        decreases e - pos,
    {
        e -= 1;
    }
    if e > pos {
        Some(e - 1)
    } else {
        None
    }
}

/// The executable form of [`plain_head`].
fn plain_head_at(input: &Vec<char>, pos: usize) -> (r: Head)
    requires
        pos <= input.len(),
    ensures
        r@ == plain_head(input@, pos as int),
        r.ahead(pos, input.len()),
{
    reveal(plain_head);
    let end = find_delimiter(input, pos);
    let last = match find_last_word(input, pos, end) {
        Some(n) => n,
        None => {
            return Head::Nothing;
        },
    };
    if next_is(input, end, '{') {
        if input[last] == ':' {
            if last > pos {
                Head::Namespace(slice(input, pos, last), end)
            } else {
                Head::Nothing
            }
        } else {
            Head::Rule(slice(input, pos, end), end)
        }
    } else {
        let colon = find_colon(input, pos, end);
        if pos < colon && colon < end {
            match value_expression(input, skip_ws(input, colon + 1)) {
                Some((v, n)) => {
                    if skip_ws(input, n) == end {
                        match find_statement_end(input, n) {
                            Some(m) => {
                                proof {
                                    reveal(statement_end);
                                }
                                Head::Property(slice(input, pos, colon), v, m)
                            },
                            None => Head::Nothing,
                        }
                    } else {
                        Head::Nothing
                    }
                },
                None => Head::Nothing,
            }
        } else {
            Head::Nothing
        }
    }
}

/// The head of a statement that starts with `@`: see [`head_at`].
fn directive_head(input: &Vec<char>, pos: usize) -> (r: Head)
    requires
        pos <= input.len(),
        char_at(input@, pos as int) == Some('@'),
    ensures
        r@ == head_at(input@, pos as int),
        r.ahead(pos, input.len()),
{
    reveal(head_at);
    proof {
        reveal_strlit("@mixin");
        reveal_strlit("@include");
        reveal_strlit("@if");
        reveal_strlit("@warn");
    }
    if starts_with(input, pos, "@mixin") {
        match find_directive_name(input, pos, "@mixin", 6) {
            Some((name, n)) => match find_formals(input, n) {
                Some((formals, m)) => Head::Mixin(name, formals, m),
                None => Head::Nothing,
            },
            None => Head::Nothing,
        }
    } else if starts_with(input, pos, "@include") {
        match find_directive_name(input, pos, "@include", 8) {
            Some((name, n)) => match find_include_args(input, n) {
                Some((args, m)) => match find_statement_end(input, m) {
                    Some(end) => Head::Include(name, args, end),
                    None => Head::Nothing,
                },
                None => Head::Nothing,
            },
            None => Head::Nothing,
        }
    } else if starts_with(input, pos, "@if") {
        match find_directive_value(input, pos, "@if", 3) {
            Some((v, n)) => Head::If(v, n),
            None => Head::Nothing,
        }
    } else if starts_with(input, pos, "@warn") {
        match find_directive_value(input, pos, "@warn", 5) {
            Some((v, n)) => match find_statement_end(input, n) {
                Some(end) => Head::Warn(v, end),
                None => Head::Nothing,
            },
            None => Head::Nothing,
        }
    } else {
        Head::Nothing
    }
}

/// The executable form of [`head_at`].
fn head(input: &Vec<char>, pos: usize) -> (r: Head)
    requires
        pos <= input.len(),
    ensures
        r@ == head_at(input@, pos as int),
        r.ahead(pos, input.len()),
{
    if next_is(input, pos, '$') {
        reveal(head_at);
        variable_head_at(input, pos)
    } else if next_is(input, pos, '@') {
        directive_head(input, pos)
    } else {
        reveal(head_at);
        plain_head_at(input, pos)
    }
}

/// The executable form of [`open_at`].
fn find_open(input: &Vec<char>, pos: usize) -> (r: Option<usize>)
    requires
        pos <= input.len(),
    ensures
        match r {
            Some(n) => open_at(input@, pos as int) == Some(n as int) && pos < n <= input.len(),
            None => open_at(input@, pos as int) is None,
        },
{
    reveal(open_at);
    let at = skip_ws(input, pos);
    if next_is(input, at, '{') {
        Some(at + 1)
    } else {
        None
    }
}

/// The executable form of [`else_at`].
fn find_else(input: &Vec<char>, pos: usize) -> (r: Option<usize>)
    requires
        pos <= input.len(),
    ensures
        match r {
            Some(n) => else_at(input@, pos as int) == Some(n as int) && pos < n <= input.len(),
            None => else_at(input@, pos as int) is None,
        },
{
    reveal(else_at);
    proof {
        reveal_strlit("@else");
    }
    let at = skip_ws(input, pos);
    if starts_with(input, at, "@else") {
        Some(at + 5)
    } else {
        None
    }
}

/// The executable form of [`next_statement`].
fn skip_gap(input: &Vec<char>, pos: usize) -> (r: usize)
    requires
        pos <= input.len(),
    ensures
        r == next_statement(input@, pos as int),
        pos <= r <= input.len(),
{
    let mut i: usize = pos;
    while i < input.len() && (crate::parser::util::space(input[i]) || input[i] == ';')
        invariant
            pos <= i <= input.len(),
            next_statement(input@, pos as int) == next_statement(input@, i as int),
        decreases input.len() - i,
    {
        i += 1;
    }
    i
}

/// The executable form of [`shut_at`].
fn find_shut(input: &Vec<char>, pos: usize) -> (r: Option<usize>)
    requires
        pos <= input.len(),
    ensures
        match r {
            Some(n) => shut_at(input@, pos as int) == Some(n as int) && pos < n <= input.len(),
            None => shut_at(input@, pos as int) is None,
        },
{
    reveal(shut_at);
    let at = skip_gap(input, pos);
    if next_is(input, at, '}') {
        Some(at + 1)
    } else {
        None
    }
}

/// The executable form of [`plain_string`].
fn plain(text: &Vec<char>) -> (r: SassString)
    ensures
        r@ == plain_string(text@),
{
    let mut parts: Vec<StringPart> = Vec::new();
    let tidied = tidy_selector(text, false);
    parts.push(StringPart::Raw(string_of(&tidied)));
    assert(crate::sass::part_models(parts@) =~= seq![StringPartView::Raw(tidy(text@, false))]);
    SassString::new(parts, Quotes::Unquoted)
}

/// The executable form of [`p_items`].
fn items_from(input: &Vec<char>, pos: usize, acc: Vec<Item>) -> (r: (Vec<Item>, usize))
    requires
        pos <= input.len(),
    ensures
        (item_models(r.0@), r.1 as int) == p_items(input@, pos as int, item_models(acc@)),
        pos <= r.1 <= input.len(),
    decreases input.len() - pos, 2nat,
{
    let start = skip_gap(input, pos);
    let mut acc = acc;
    match item(input, start) {
        Some((it, n)) => {
            let ghost before = item_models(acc@);
            let ghost m = it@;
            acc.push(it);
            assert(item_models(acc@) =~= before.push(m));
            items_from(input, n, acc)
        },
        None => (acc, pos),
    }
}

/// No statements.
fn no_items() -> (v: Vec<Item>)
    ensures
        item_models(v@) == Seq::<ItemView>::empty(),
{
    let v: Vec<Item> = Vec::new();
    v
}

/// The executable form of [`p_block`].
fn block(input: &Vec<char>, pos: usize) -> (r: Option<(Vec<Item>, usize)>)
    requires
        pos <= input.len(),
    ensures
        match r {
            Some((body, n)) => p_block(input@, pos as int) == Some(
                (item_models(body@), n as int),
            ) && pos < n <= input.len(),
            None => p_block(input@, pos as int) is None,
        },
    decreases input.len() - pos, 3nat,
{
    match find_open(input, pos) {
        Some(start) => {
            let (body, end) = items_from(input, start, no_items());
            match find_shut(input, end) {
                Some(n) => Some((body, n)),
                None => None,
            }
        },
        None => None,
    }
}

/// The executable form of [`p_item`].
fn item(input: &Vec<char>, pos: usize) -> (r: Option<(Item, usize)>)
    requires
        pos <= input.len(),
    ensures
        match r {
            Some((it, n)) => p_item(input@, pos as int) == Some((it@, n as int)) && pos < n
                <= input.len(),
            None => p_item(input@, pos as int) is None,
        },
    decreases input.len() - pos, 1nat,
{
    let r = match head(input, pos) {
        Head::Variable(name, val, default, global, end) => Some(
            (Item::VariableDeclaration(name, val, default, global), end),
        ),
        Head::Include(name, args, end) => Some((Item::MixinCall(name, args), end)),
        Head::Warn(val, end) => Some((Item::Warn(val), end)),
        Head::Property(name, val, end) => Some((Item::Property(plain(&name), val), end)),
        Head::Mixin(name, formals, at) => match block(input, at) {
            Some((body, end)) => Some((Item::MixinDeclaration(name, formals, body), end)),
            None => None,
        },
        Head::Namespace(name, at) => match block(input, at) {
            Some((body, end)) => Some((Item::NamespaceRule(plain(&name), Value::Null, body), end)),
            None => None,
        },
        Head::Rule(selectors, at) => match block(input, at) {
            Some((body, end)) => Some((Item::Rule(plain(&selectors), body), end)),
            None => None,
        },
        Head::If(cond, at) => match block(input, at) {
            Some((then, end)) => match find_else(input, end) {
                Some(other_at) => match block(input, other_at) {
                    Some((other, last)) => Some((Item::IfStatement(cond, then, other), last)),
                    None => None,
                },
                None => Some((Item::IfStatement(cond, then, no_items()), end)),
            },
            None => None,
        },
        Head::Nothing => None,
    };
    proof {
        if r is Some {
            let read = r->0;
            lemma_item_parts(read.0);
        }
    }
    r
}

/// Reads the statements of a stylesheet without comments: see
/// [`p_stylesheet`]. The error is the place where no statement starts.
pub fn parse_scss(input: &Vec<char>) -> (r: Result<Vec<Item>, usize>)
    ensures
        match r {
            Ok(items) => p_stylesheet(input@) == Ok::<Seq<ItemView>, int>(item_models(items@)),
            Err(at) => p_stylesheet(input@) == Err::<Seq<ItemView>, int>(at as int),
        },
{
    let (items, end) = items_from(input, 0, no_items());
    let at = skip_gap(input, end);
    if at >= input.len() {
        Ok(items)
    } else {
        Err(at)
    }
}

} // verus!
