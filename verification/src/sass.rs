//! Strings as they are written in a stylesheet: runs of text with
//! interpolated values between them.
use crate::arith::outcome;
use crate::error::{Error, ErrorView};
use crate::eval::interpolated;
use crate::format::OutputStyle;
use crate::text::{chars_of, push_all, string_of};
use crate::value::{Quotes, Value, ValueView};
use crate::variablescope::{ScopeImpl, ScopeView};
use vstd::prelude::*;

verus! {

/// A part of a string: text as it stands, or a value to be evaluated and
/// written in its place.
#[derive(Debug, PartialEq, Eq)]
pub enum StringPart {
    Raw(String),
    Interpolation(Value),
}

/// The model of a [`StringPart`].
pub enum StringPartView {
    Raw(Seq<char>),
    Interpolation(ValueView),
}

impl View for StringPart {
    type V = StringPartView;

    open spec fn view(&self) -> StringPartView {
        match self {
            StringPart::Raw(s) => StringPartView::Raw(s@),
            StringPart::Interpolation(v) => StringPartView::Interpolation(v@),
        }
    }
}

impl StringPart {
    /// The text that the part stands for in a scope.
    pub fn text(&self, scope: &ScopeImpl) -> (r: Result<Vec<char>, Error>)
        ensures
            match r {
                Ok(t) => part_text(self@, scope@) == Ok::<Seq<char>, ErrorView>(t@),
                Err(e) => part_text(self@, scope@) == Err::<Seq<char>, ErrorView>(e@),
            },
    {
        match self {
            StringPart::Raw(s) => Ok(chars_of(s.as_str())),
            StringPart::Interpolation(v) => match v.do_evaluate(scope, true) {
                Ok(r) => {
                    let shown = crate::eval::interpolate(r.unquote());
                    Ok(shown.format_chars(OutputStyle::Expanded))
                },
                Err(e) => Err(e),
            },
        }
    }

    /// A copy of the part.
    pub fn dup(&self) -> (r: StringPart)
        ensures
            r@ == self@,
    {
        match self {
            StringPart::Raw(s) => StringPart::Raw(s.clone()),
            StringPart::Interpolation(v) => StringPart::Interpolation(v.dup()),
        }
    }
}

impl Clone for StringPart {
    fn clone(&self) -> (r: StringPart)
        ensures
            r@ == self@,
    {
        self.dup()
    }
}

/// A string with interpolations: its parts in order, and its quotes. No
/// part is empty text, and no two parts that follow each other are both
/// text.
#[derive(Debug, PartialEq, Eq)]
pub struct SassString {
    parts: Vec<StringPart>,
    quotes: Quotes,
}

/// The model of a [`SassString`].
pub struct SassStringView {
    pub parts: Seq<StringPartView>,
    pub quotes: Quotes,
}

/// The models of the parts of a string.
pub open spec fn part_models(parts: Seq<StringPart>) -> Seq<StringPartView> {
    Seq::new(parts.len(), |i: int| parts[i]@)
}

/// The parts with every run of text gathered into one part and empty text
/// left out.
pub open spec fn merged(parts: Seq<StringPartView>) -> Seq<StringPartView>
    decreases parts.len(),
{
    if parts.len() == 0 {
        seq![]
    } else {
        let init = merged(parts.drop_last());
        match parts.last() {
            StringPartView::Interpolation(v) => init.push(StringPartView::Interpolation(v)),
            StringPartView::Raw(s) => if s.len() == 0 {
                init
            } else if init.len() > 0 && init.last() is Raw {
                init.drop_last().push(StringPartView::Raw(init.last()->Raw_0 + s))
            } else {
                init.push(StringPartView::Raw(s))
            },
        }
    }
}

/// The text that the parts of a string stand for in a scope: text as it
/// is, and a value as its evaluation in arithmetic context is written
/// without quotes. The first error ends it.
pub open spec fn parts_text(parts: Seq<StringPartView>, scope: ScopeView) -> Result<
    Seq<char>,
    ErrorView,
>
    decreases parts.len(),
{
    if parts.len() == 0 {
        Ok(seq![])
    } else {
        match parts_text(parts.drop_last(), scope) {
            Ok(text) => match part_text(parts.last(), scope) {
                Ok(t) => Ok(text + t),
                Err(e) => Err(e),
            },
            Err(e) => Err(e),
        }
    }
}

/// The text that a part of a string stands for in a scope.
pub open spec fn part_text(part: StringPartView, scope: ScopeView) -> Result<Seq<char>, ErrorView> {
    match part {
        StringPartView::Raw(s) => Ok(s),
        StringPartView::Interpolation(v) => match v.eval(scope, true) {
            Ok(r) => Ok(interpolated(r.unquote()).format(OutputStyle::Expanded)),
            Err(e) => Err(e),
        },
    }
}

impl SassStringView {
    /// The string as a value in a scope: a string of the text that its parts
    /// stand for, with its quotes.
    pub open spec fn evaluate(self, scope: ScopeView) -> Result<ValueView, ErrorView> {
        match parts_text(self.parts, scope) {
            Ok(text) => Ok(ValueView::Literal(text, self.quotes)),
            Err(e) => Err(e),
        }
    }
}

impl View for SassString {
    type V = SassStringView;

    closed spec fn view(&self) -> SassStringView {
        SassStringView { parts: part_models(self.parts@), quotes: self.quotes }
    }
}

impl SassString {
    /// The string of the given parts, with every run of text gathered into
    /// one part and empty text left out.
    pub fn new(parts: Vec<StringPart>, quotes: Quotes) -> (s: SassString)
        ensures
            s@ == (SassStringView { parts: merged(part_models(parts@)), quotes: quotes }),
    {
        let ghost all = part_models(parts@);
        let mut out: Vec<StringPart> = Vec::new();
        let mut i: usize = 0;
        while i < parts.len()
            invariant
                i <= parts.len(),
                all == part_models(parts@),
                part_models(out@) == merged(all.take(i as int)),
            decreases parts.len() - i,
        {
            assert(all.take(i + 1).drop_last() =~= all.take(i as int));
            match &parts[i] {
                StringPart::Interpolation(v) => {
                    let part = StringPart::Interpolation(v.dup());
                    out.push(part);
                },
                StringPart::Raw(s) => {
                    let text = chars_of(s.as_str());
                    if text.len() > 0 {
                        let n = out.len();
                        let mut joined: bool = false;
                        if n > 0 {
                            match &out[n - 1] {
                                StringPart::Raw(last) => {
                                    let mut both = chars_of(last.as_str());
                                    push_all(&mut both, &text);
                                    out[n - 1] = StringPart::Raw(string_of(&both));
                                    joined = true;
                                },
                                _ => {},
                            }
                        }
                        if !joined {
                            out.push(StringPart::Raw(s.clone()));
                        }
                    }
                },
            }
            i += 1;
        }
        assert(all.take(i as int) =~= all);
        SassString { parts: out, quotes }
    }

    /// The quotes of the string.
    pub fn quotes(&self) -> (q: Quotes)
        ensures
            q == self@.quotes,
    {
        self.quotes
    }

    /// The number of parts of the string.
    pub fn len(&self) -> (n: usize)
        ensures
            n == self@.parts.len(),
    {
        self.parts.len()
    }

    /// A part of the string, if it has one at that place.
    pub fn part(&self, i: usize) -> (p: Option<&StringPart>)
        ensures
            match p {
                Some(part) => i < self@.parts.len() && part@ == self@.parts[i as int],
                None => i >= self@.parts.len(),
            },
    {
        if i < self.parts.len() {
            Some(&self.parts[i])
        } else {
            None
        }
    }

    /// A copy of the string.
    pub fn dup(&self) -> (r: SassString)
        ensures
            r@ == self@,
    {
        let mut out: Vec<StringPart> = Vec::new();
        let mut i: usize = 0;
        while i < self.parts.len()
            invariant
                i <= self.parts.len(),
                out.len() == i,
                forall|j: int| 0 <= j < i ==> out[j]@ == self.parts[j]@,
            decreases self.parts.len() - i,
        {
            out.push(self.parts[i].dup());
            i += 1;
        }
        assert(part_models(out@) =~= part_models(self.parts@));
        SassString { parts: out, quotes: self.quotes }
    }

    /// The text that the string stands for in a scope.
    pub fn text(&self, scope: &ScopeImpl) -> (r: Result<Vec<char>, Error>)
        ensures
            match r {
                Ok(t) => parts_text(self@.parts, scope@) == Ok::<Seq<char>, ErrorView>(t@),
                Err(e) => parts_text(self@.parts, scope@) == Err::<Seq<char>, ErrorView>(e@),
            },
    {
        let ghost all = part_models(self.parts@);
        let mut out: Vec<char> = Vec::new();
        let mut i: usize = 0;
        while i < self.parts.len()
            invariant
                i <= self.parts.len(),
                all == part_models(self.parts@),
                parts_text(all.take(i as int), scope@) == Ok::<Seq<char>, ErrorView>(out@),
            decreases self.parts.len() - i,
        {
            assert(all.take(i + 1).drop_last() =~= all.take(i as int));
            match self.parts[i].text(scope) {
                Ok(t) => {
                    push_all(&mut out, &t);
                },
                Err(e) => {
                    proof {
                        lemma_parts_error(all, scope@, i + 1, all.len() as int);
                        assert(all.take(all.len() as int) =~= all);
                    }
                    return Err(e);
                },
            }
            i += 1;
        }
        assert(all.take(i as int) =~= all);
        Ok(out)
    }

    /// The string as a value in a scope: a string of the text that its parts
    /// stand for, with its quotes.
    pub fn evaluate(&self, scope: &ScopeImpl) -> (r: Result<Value, Error>)
        ensures
            outcome(r) == self@.evaluate(scope@),
    {
        match self.text(scope) {
            Ok(t) => Ok(Value::Literal(string_of(&t), self.quotes)),
            Err(e) => Err(e),
        }
    }
}

impl Clone for SassString {
    fn clone(&self) -> (r: SassString)
        ensures
            r@ == self@,
    {
        self.dup()
    }
}

/// An error among the first parts is the error of any longer run of them.
proof fn lemma_parts_error(parts: Seq<StringPartView>, scope: ScopeView, n: int, m: int)
    requires
        0 <= n <= m <= parts.len(),
        parts_text(parts.take(n), scope) is Err,
    ensures
        parts_text(parts.take(m), scope) == parts_text(parts.take(n), scope),
    decreases m - n,
{
    if n < m {
        lemma_parts_error(parts, scope, n, m - 1);
        assert(parts.take(m).drop_last() =~= parts.take(m - 1));
    }
}

} // verus!
