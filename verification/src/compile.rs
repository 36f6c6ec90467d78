//! From the statements of a stylesheet to CSS text.
use crate::error::{Error, ErrorView};
use crate::eval::{eval_args, eval_call_args};
use crate::format::{join, join_into, texts, OutputStyle};
use crate::functions::{argument, get_arg};
use crate::parser::util::{is_space, space};
use crate::quoting::has_char;
use crate::sass::parts_text;
use crate::stylesheet::{
    formal_models, item_models, lemma_item_parts, FormalArgs, Item, ItemView, MixinDeclaration,
};
use crate::text::{push_all, push_str, string_of};
use crate::value::{arg_models, CallArgs, Value, ValueView};
use crate::variablescope::{ScopeImpl, ScopeView};
use vstd::prelude::*;

verus! {

/// A sign between the parts of a selector: `>`, `+` or `~`.
pub open spec fn is_combinator(c: char) -> bool {
    c == '>' || c == '+' || c == '~'
}

/// What one more character makes of a selector that is being tidied: the
/// text so far, and whether white space is owed before the next word.
pub open spec fn tidy_step(state: (Seq<char>, bool), c: char, compressed: bool) -> (Seq<char>, bool) {
    let (out, gap) = state;
    if is_space(c) {
        (out, true)
    } else if is_combinator(c) {
        if compressed {
            (out.push(c), false)
        } else if out.len() > 0 {
            (out.push(' ').push(c), true)
        } else {
            (out.push(c), true)
        }
    } else if gap && out.len() > 0 && !(compressed && is_combinator(out.last())) {
        (out.push(' ').push(c), false)
    } else {
        (out.push(c), false)
    }
}

/// The first `n` characters of a selector, tidied.
pub open spec fn tidy_state(s: Seq<char>, n: nat, compressed: bool) -> (Seq<char>, bool)
    decreases n,
{
    if n == 0 || n > s.len() {
        (seq![], false)
    } else {
        tidy_step(tidy_state(s, (n - 1) as nat, compressed), s[n - 1], compressed)
    }
}

/// A selector with its white space tidied: none at its ends, and one blank
/// for every other run of it. A sign between parts has a blank on both
/// sides or, in compressed text, none.
pub open spec fn tidy(s: Seq<char>, compressed: bool) -> Seq<char> {
    tidy_state(s, s.len(), compressed).0
}

/// What one more character makes of a list of selectors that is being
/// split at its commas: the selectors so far, and the one being read.
pub open spec fn split_step(state: (Seq<Seq<char>>, Seq<char>), c: char) -> (
    Seq<Seq<char>>,
    Seq<char>,
) {
    if c == ',' {
        (
            if tidy(state.1, false).len() > 0 {
                state.0.push(tidy(state.1, false))
            } else {
                state.0
            },
            seq![],
        )
    } else {
        (state.0, state.1.push(c))
    }
}

/// The first `n` characters of a list of selectors, split.
pub open spec fn split_state(s: Seq<char>, n: nat) -> (Seq<Seq<char>>, Seq<char>)
    decreases n,
{
    if n == 0 || n > s.len() {
        (seq![], seq![])
    } else {
        split_step(split_state(s, (n - 1) as nat), s[n - 1])
    }
}

/// The selectors of a list with commas between them, each tidied; what is
/// empty is left out.
pub open spec fn split_selectors(s: Seq<char>) -> Seq<Seq<char>> {
    split_step(split_state(s, s.len()), ',').0
}

/// The first `n` characters of a selector, with the selector around it in
/// the place of every `&`.
pub open spec fn with_parent(child: Seq<char>, parent: Seq<char>, n: nat) -> Seq<char>
    decreases n,
{
    if n == 0 || n > child.len() {
        seq![]
    } else if child[n - 1] == '&' {
        with_parent(child, parent, (n - 1) as nat) + parent
    } else {
        with_parent(child, parent, (n - 1) as nat).push(child[n - 1])
    }
}

/// A selector inside a rule with the selector `parent`: with `parent` in
/// the place of every `&`, or behind `parent` and a blank if it has none.
pub open spec fn nested(parent: Seq<char>, child: Seq<char>) -> Seq<char> {
    if child.contains('&') {
        with_parent(child, parent, child.len())
    } else {
        parent + seq![' '] + child
    }
}

/// The first `n` of the selectors inside a rule with the selector
/// `parent`.
pub open spec fn nested_row(parent: Seq<char>, children: Seq<Seq<char>>, n: nat) -> Seq<Seq<char>>
    decreases n,
{
    if n == 0 || n > children.len() {
        seq![]
    } else {
        nested_row(parent, children, (n - 1) as nat).push(nested(parent, children[n - 1]))
    }
}

/// The selectors inside a rule with the first `n` of the selectors
/// `parents`.
pub open spec fn nested_rows(parents: Seq<Seq<char>>, children: Seq<Seq<char>>, n: nat) -> Seq<
    Seq<char>,
>
    decreases n,
{
    if n == 0 || n > parents.len() {
        seq![]
    } else {
        nested_rows(parents, children, (n - 1) as nat) + nested_row(
            parents[n - 1],
            children,
            children.len(),
        )
    }
}

/// The selectors of a rule inside a rule: each selector of the rule around
/// it with each of its own. A rule with no rule around it has its own.
pub open spec fn combine(parents: Seq<Seq<char>>, children: Seq<Seq<char>>) -> Seq<Seq<char>> {
    if parents.len() == 0 {
        children
    } else {
        nested_rows(parents, children, parents.len())
    }
}

/// The first `n` selectors, tidied for compressed text.
pub open spec fn compressed_selectors(selectors: Seq<Seq<char>>, n: nat) -> Seq<Seq<char>>
    decreases n,
{
    if n == 0 || n > selectors.len() {
        seq![]
    } else {
        compressed_selectors(selectors, (n - 1) as nat).push(tidy(selectors[n - 1], true))
    }
}

/// The declarations of a rule with one more: in expanded text a line of
/// its own, in compressed text with a semicolon before it if it is not the
/// first.
pub open spec fn with_declaration(
    props: Seq<char>,
    name: Seq<char>,
    value: Seq<char>,
    style: OutputStyle,
) -> Seq<char> {
    if style == OutputStyle::Compressed {
        (if props.len() > 0 {
            props.push(';')
        } else {
            props
        }) + name + seq![':'] + value
    } else {
        props + "  "@ + name + ": "@ + value + ";\n"@
    }
}

/// A rule as it is written: its selectors with commas between them and its
/// declarations in braces. A rule without declarations is not written.
pub open spec fn rule_text(selectors: Seq<Seq<char>>, props: Seq<char>, style: OutputStyle) -> Seq<
    char,
> {
    if props.len() == 0 {
        seq![]
    } else if style == OutputStyle::Compressed {
        join(compressed_selectors(selectors, selectors.len()), ","@) + seq!['{'] + props + seq![
            '}',
        ]
    } else {
        join(selectors, ", "@) + " {\n"@ + props + "}\n"@
    }
}

/// Where statements stand: the selectors of the rule around them, what the
/// names of properties start with, and the style of the output.
pub struct Context {
    pub selectors: Vec<Vec<char>>,
    pub prefix: Vec<char>,
    pub style: OutputStyle,
}

/// The model of a [`Context`].
pub struct ContextView {
    pub selectors: Seq<Seq<char>>,
    pub prefix: Seq<char>,
    pub style: OutputStyle,
}

impl View for Context {
    type V = ContextView;

    open spec fn view(&self) -> ContextView {
        ContextView { selectors: texts(self.selectors@), prefix: self.prefix@, style: self.style }
    }
}

/// What statements have written: the declarations of the rule around
/// them, and the rules that follow it.
pub struct Output {
    pub props: Vec<char>,
    pub rules: Vec<char>,
}

/// The model of an [`Output`].
pub struct OutputView {
    pub props: Seq<char>,
    pub rules: Seq<char>,
}

impl View for Output {
    type V = OutputView;

    open spec fn view(&self) -> OutputView {
        OutputView { props: self.props@, rules: self.rules@ }
    }
}

/// What running statements gives: the scope and the output after them, or
/// an error.
pub type Ran = Result<(ScopeView, OutputView), ErrorView>;

/// The model of what running statements returns.
pub open spec fn ran(r: Result<(ScopeImpl, Output), Error>) -> Ran {
    match r {
        Ok((s, o)) => Ok((s@, o@)),
        Err(e) => Err(e@),
    }
}

/// The error for a property that stands in no rule.
pub open spec fn stray_property() -> ErrorView {
    ErrorView::Unsupported { feature: "property outside of a rule"@ }
}

/// The error for mixins that include each other too deep.
pub open spec fn too_deep() -> ErrorView {
    ErrorView::Unsupported { feature: "mixins nested too deep"@ }
}

/// A property written into the output: nothing for a null value, else a
/// declaration of the evaluated value under the name, which goes on what
/// the names of properties start with here.
pub open spec fn run_property(
    name: Seq<char>,
    val: ValueView,
    scope: ScopeView,
    ctx: ContextView,
    out: OutputView,
) -> Result<OutputView, ErrorView> {
    if ctx.selectors.len() == 0 {
        Err(stray_property())
    } else {
        match val.eval(scope, false) {
            Ok(v) => Ok(
                if v.is_null() {
                    out
                } else {
                    OutputView {
                        props: with_declaration(
                            out.props,
                            ctx.prefix + name,
                            v.format(ctx.style),
                            ctx.style,
                        ),
                        ..out
                    }
                },
            ),
            Err(e) => Err(e),
        }
    }
}

/// The scope of a mixin with the first `n` of its parameters bound: each to
/// the argument for it, or else to its own value, evaluated in the scope
/// with the parameters before it.
pub open spec fn bind(
    formals: Seq<(Seq<char>, ValueView)>,
    n: nat,
    args: Seq<(Option<Seq<char>>, ValueView)>,
    scope: ScopeView,
) -> Result<ScopeView, ErrorView>
    decreases n,
{
    if n == 0 || n > formals.len() {
        Ok(scope)
    } else {
        match bind(formals, (n - 1) as nat, args, scope) {
            Ok(s) => bind_one(formals[n - 1], n - 1, args, s),
            Err(e) => Err(e),
        }
    }
}

/// The scope of a mixin with one more parameter bound: to the argument for
/// it, or else to its own value, evaluated in that scope.
#[verifier::opaque]
pub open spec fn bind_one(
    formal: (Seq<char>, ValueView),
    index: int,
    args: Seq<(Option<Seq<char>>, ValueView)>,
    scope: ScopeView,
) -> Result<ScopeView, ErrorView> {
    match argument(args, index, formal.0) {
        Some(v) => Ok(scope.set_here(formal.0, v)),
        None => match formal.1.eval(scope, true) {
            Ok(v) => Ok(scope.set_here(formal.0, v)),
            Err(e) => Err(e),
        },
    }
}

/// The scope in which the statements of a mixin run: inside the scope of
/// the call, with the parameters bound to the arguments, which are
/// evaluated in the scope of the call.
#[verifier::opaque]
pub open spec fn include_scope(
    m: crate::stylesheet::MixinView,
    args: Seq<(Option<Seq<char>>, ValueView)>,
    scope: ScopeView,
) -> Result<ScopeView, ErrorView> {
    match eval_args(args, scope, args.len()) {
        Ok(values) => bind(m.args, m.args.len(), values, ScopeView::sub(scope)),
        Err(e) => Err(e),
    }
}

/// What was run in a scope of its own, with that scope left behind.
pub open spec fn left(r: Ran) -> Ran {
    match r {
        Ok((s, o)) => Ok((s.leave(), o)),
        Err(e) => Err(e),
    }
}

/// Where the statements of a rule stand: under the selectors of the rule,
/// each nested in those of the rule around it.
pub open spec fn rule_context(ctx: ContextView, text: Seq<char>) -> ContextView {
    ContextView {
        selectors: combine(ctx.selectors, split_selectors(text)),
        prefix: seq![],
        style: ctx.style,
    }
}

/// What a rule adds to the output, from what its statements wrote: the
/// rule with its declarations, and behind it the rules that were in it.
#[verifier::opaque]
pub open spec fn rule_result(body: Ran, inner: ContextView, out: OutputView) -> Ran {
    match body {
        Ok((s, o)) => Ok(
            (
                s.leave(),
                OutputView {
                    rules: out.rules + rule_text(inner.selectors, o.props, inner.style) + o.rules,
                    ..out
                },
            ),
        ),
        Err(e) => Err(e),
    }
}

/// What the first `n` statements make of a scope and an output. `fuel` is
/// how deep mixins may still include each other.
pub open spec fn run_items(
    items: Seq<ItemView>,
    n: nat,
    scope: ScopeView,
    ctx: ContextView,
    out: OutputView,
    fuel: nat,
) -> Ran
    decreases fuel, items, n,
{
    if n == 0 || n > items.len() {
        Ok((scope, out))
    } else {
        match run_items(items, (n - 1) as nat, scope, ctx, out, fuel) {
            Ok((s, o)) => run_item(items[n - 1], s, ctx, o, fuel),
            Err(e) => Err(e),
        }
    }
}

/// What a declaration of a variable makes of a scope.
#[verifier::opaque]
pub open spec fn declared(
    name: Seq<char>,
    val: ValueView,
    default: bool,
    global: bool,
    scope: ScopeView,
    out: OutputView,
) -> Ran {
    match (if default {
        scope.define_default(name, val, global)
    } else {
        scope.define(name, val, global)
    }) {
        Ok(s) => Ok((s, out)),
        Err(e) => Err(e),
    }
}

/// What a property makes of the output: its declaration is written under
/// its name as it stands in the scope.
#[verifier::opaque]
pub open spec fn property_result(
    name: crate::sass::SassStringView,
    val: ValueView,
    scope: ScopeView,
    ctx: ContextView,
    out: OutputView,
) -> Result<(Seq<char>, OutputView), ErrorView> {
    match parts_text(name.parts, scope) {
        Ok(n) => match run_property(n, val, scope, ctx, out) {
            Ok(o) => Ok((n, o)),
            Err(e) => Err(e),
        },
        Err(e) => Err(e),
    }
}

/// Where the statements of a rule stand: see [`rule_context`].
#[verifier::opaque]
pub open spec fn rule_start(
    selectors: crate::sass::SassStringView,
    scope: ScopeView,
    ctx: ContextView,
) -> Result<ContextView, ErrorView> {
    match parts_text(selectors.parts, scope) {
        Ok(text) => Ok(rule_context(ctx, text)),
        Err(e) => Err(e),
    }
}

/// The statements of the mixin that a call names, and the scope in which
/// they run: see [`include_scope`]. A call of a mixin that is not defined
/// is an error.
#[verifier::opaque]
pub open spec fn include_start(
    name: Seq<char>,
    args: Seq<(Option<Seq<char>>, ValueView)>,
    scope: ScopeView,
) -> Result<(Seq<ItemView>, ScopeView), ErrorView> {
    match scope.mixin(name) {
        None => Err(ErrorView::UndefinedMixin(name)),
        Some(m) => match include_scope(m, args, scope) {
            Ok(inner) => Ok((m.body, inner)),
            Err(e) => Err(e),
        },
    }
}

/// Whether a condition holds in a scope.
#[verifier::opaque]
pub open spec fn holds(cond: ValueView, scope: ScopeView) -> Result<bool, ErrorView> {
    match cond.eval(scope, false) {
        Ok(v) => Ok(v.is_true()),
        Err(e) => Err(e),
    }
}

/// What a statement makes of a scope and an output.
pub open spec fn run_item(
    item: ItemView,
    scope: ScopeView,
    ctx: ContextView,
    out: OutputView,
    fuel: nat,
) -> Ran
    decreases fuel, item, 0nat,
{
    match item {
        ItemView::VariableDeclaration(name, val, default, global) => declared(
            name,
            val,
            default,
            global,
            scope,
            out,
        ),
        ItemView::Property(name, val) => match property_result(name, val, scope, ctx, out) {
            Ok((_, o)) => Ok((scope, o)),
            Err(e) => Err(e),
        },
        ItemView::NamespaceRule(name, val, body) => match property_result(
            name,
            val,
            scope,
            ctx,
            out,
        ) {
            Ok((n, o)) => run_items(
                body,
                body.len(),
                scope,
                ContextView { prefix: ctx.prefix + n + seq!['-'], ..ctx },
                o,
                fuel,
            ),
            Err(e) => Err(e),
        },
        ItemView::Rule(selectors, body) => match rule_start(selectors, scope, ctx) {
            Ok(inner) => rule_result(
                run_items(
                    body,
                    body.len(),
                    ScopeView::sub(scope),
                    inner,
                    OutputView { props: seq![], rules: seq![] },
                    fuel,
                ),
                inner,
                out,
            ),
            Err(e) => Err(e),
        },
        ItemView::MixinDeclaration(name, args, body) => Ok(
            (
                scope.set_mixin(
                    crate::stylesheet::MixinView { name: name, args: args, body: body },
                ),
                out,
            ),
        ),
        ItemView::MixinCall(name, args) => if fuel == 0 {
            Err(too_deep())
        } else {
            match include_start(name, args, scope) {
                Ok((body, inner)) => left(
                    run_items(body, body.len(), inner, ctx, out, (fuel - 1) as nat),
                ),
                Err(e) => Err(e),
            }
        },
        ItemView::IfStatement(cond, then, other) => match holds(cond, scope) {
            Ok(b) => if b {
                run_items(then, then.len(), scope, ctx, out, fuel)
            } else {
                run_items(other, other.len(), scope, ctx, out, fuel)
            },
            Err(e) => Err(e),
        },
        ItemView::Warn(_) => Ok((scope, out)),
    }
}

/// How deep mixins may include each other.
pub open spec fn max_depth() -> nat {
    64
}

/// The CSS text of a stylesheet: the rules that its statements write, and
/// in compressed text the end of a line behind them.
pub open spec fn stylesheet_text(items: Seq<ItemView>, style: OutputStyle) -> Result<
    Seq<char>,
    ErrorView,
> {
    match run_items(
        items,
        items.len(),
        ScopeView::empty(),
        ContextView { selectors: seq![], prefix: seq![], style: style },
        OutputView { props: seq![], rules: seq![] },
        max_depth(),
    ) {
        Ok((_, out)) => Ok(
            if style == OutputStyle::Compressed && out.rules.len() > 0 {
                out.rules.push('\n')
            } else {
                out.rules
            },
        ),
        Err(e) => Err(e),
    }
}

/// The executable form of [`is_combinator`].
fn combinator(c: char) -> (b: bool)
    ensures
        b == is_combinator(c),
{
    c == '>' || c == '+' || c == '~'
}

/// A selector with its white space tidied: see [`tidy`].
pub fn tidy_selector(s: &Vec<char>, compressed: bool) -> (r: Vec<char>)
    ensures
        r@ == tidy(s@, compressed),
{
    let mut out: Vec<char> = Vec::new();
    let mut gap: bool = false;
    let mut i: usize = 0;
    while i < s.len()
        invariant
            i <= s.len(),
            (out@, gap) == tidy_state(s@, i as nat, compressed),
        decreases s.len() - i,
    {
        let c = s[i];
        if space(c) {
            gap = true;
        } else if combinator(c) {
            if compressed {
                out.push(c);
                gap = false;
            } else {
                if out.len() > 0 {
                    out.push(' ');
                }
                out.push(c);
                gap = true;
            }
        } else {
            if gap && out.len() > 0 && !(compressed && combinator(out[out.len() - 1])) {
                out.push(' ');
            }
            out.push(c);
            gap = false;
        }
        i += 1;
    }
    out
}

/// The selectors of a list with commas between them: see
/// [`split_selectors`].
pub fn split_list(s: &Vec<char>) -> (r: Vec<Vec<char>>)
    ensures
        texts(r@) == split_selectors(s@),
{
    let mut done: Vec<Vec<char>> = Vec::new();
    let mut current: Vec<char> = Vec::new();
    let mut i: usize = 0;
    while i < s.len()
        invariant
            i <= s.len(),
            (texts(done@), current@) == split_state(s@, i as nat),
        decreases s.len() - i,
    {
        let c = s[i];
        if c == ',' {
            let tidied = tidy_selector(&current, false);
            if tidied.len() > 0 {
                let ghost before = texts(done@);
                done.push(tidied);
            }
            current = Vec::new();
        } else {
            current.push(c);
        }
        i += 1;
    }
    let tidied = tidy_selector(&current, false);
    if tidied.len() > 0 {
        done.push(tidied);
    }
    done
}

/// The executable form of [`nested`].
fn nest(parent: &Vec<char>, child: &Vec<char>) -> (r: Vec<char>)
    ensures
        r@ == nested(parent@, child@),
{
    let mut out: Vec<char> = Vec::new();
    if has_char(child, '&') {
        let mut i: usize = 0;
        while i < child.len()
            invariant
                i <= child.len(),
                out@ == with_parent(child@, parent@, i as nat),
            decreases child.len() - i,
        {
            if child[i] == '&' {
                push_all(&mut out, parent);
            } else {
                out.push(child[i]);
            }
            i += 1;
        }
    } else {
        push_all(&mut out, parent);
        out.push(' ');
        push_all(&mut out, child);
    }
    out
}

/// A copy of the texts.
fn copy_texts(v: &Vec<Vec<char>>) -> (r: Vec<Vec<char>>)
    ensures
        texts(r@) == texts(v@),
{
    let mut out: Vec<Vec<char>> = Vec::new();
    let mut i: usize = 0;
    while i < v.len()
        invariant
            i <= v.len(),
            out.len() == i,
            forall|j: int| 0 <= j < i ==> out[j]@ == v[j]@,
        decreases v.len() - i,
    {
        let mut t: Vec<char> = Vec::new();
        push_all(&mut t, &v[i]);
        out.push(t);
        i += 1;
    }
    out
}

/// The selectors of a rule inside a rule: see [`combine`].
pub fn combine_selectors(parents: &Vec<Vec<char>>, children: &Vec<Vec<char>>) -> (r: Vec<
    Vec<char>,
>)
    ensures
        texts(r@) == combine(texts(parents@), texts(children@)),
{
    if parents.len() == 0 {
        return copy_texts(children);
    }
    let ghost ps = texts(parents@);
    let ghost cs = texts(children@);
    let mut out: Vec<Vec<char>> = Vec::new();
    let mut i: usize = 0;
    while i < parents.len()
        invariant
            i <= parents.len(),
            ps == texts(parents@),
            cs == texts(children@),
            texts(out@) == nested_rows(ps, cs, i as nat),
        decreases parents.len() - i,
    {
        let ghost start = texts(out@);
        let mut j: usize = 0;
        while j < children.len()
            invariant
                i < parents.len(),
                j <= children.len(),
                ps == texts(parents@),
                cs == texts(children@),
                texts(out@) == start + nested_row(ps[i as int], cs, j as nat),
            decreases children.len() - j,
        {
            let ghost before = texts(out@);
            let joined = nest(&parents[i], &children[j]);
            out.push(joined);
            assert(texts(out@) =~= before.push(joined@));
            j += 1;
        }
        i += 1;
    }
    out
}

/// The executable form of [`compressed_selectors`].
fn compress_selectors(selectors: &Vec<Vec<char>>) -> (r: Vec<Vec<char>>)
    ensures
        texts(r@) == compressed_selectors(texts(selectors@), selectors.len() as nat),
{
    let ghost all = texts(selectors@);
    let mut out: Vec<Vec<char>> = Vec::new();
    let mut i: usize = 0;
    while i < selectors.len()
        invariant
            i <= selectors.len(),
            all == texts(selectors@),
            texts(out@) == compressed_selectors(all, i as nat),
        decreases selectors.len() - i,
    {
        let t = tidy_selector(&selectors[i], true);
        out.push(t);
        i += 1;
    }
    out
}

/// The executable form of [`with_declaration`].
fn add_declaration(props: &mut Vec<char>, name: &Vec<char>, value: &Vec<char>, style: OutputStyle)
    ensures
        final(props)@ == with_declaration(old(props)@, name@, value@, style),
{
    match style {
        OutputStyle::Compressed => {
            if props.len() > 0 {
                props.push(';');
            }
            push_all(props, name);
            props.push(':');
            push_all(props, value);
        },
        OutputStyle::Expanded => {
            push_str(props, "  ");
            push_all(props, name);
            push_str(props, ": ");
            push_all(props, value);
            push_str(props, ";\n");
        },
    }
}

/// The executable form of [`rule_text`].
fn push_rule(
    out: &mut Vec<char>,
    selectors: &Vec<Vec<char>>,
    props: &Vec<char>,
    style: OutputStyle,
)
    ensures
        final(out)@ == old(out)@ + rule_text(texts(selectors@), props@, style),
{
    if props.len() == 0 {
        return ;
    }
    match style {
        OutputStyle::Compressed => {
            let short = compress_selectors(selectors);
            join_into(out, &short, ",");
            out.push('{');
            push_all(out, props);
            out.push('}');
        },
        OutputStyle::Expanded => {
            join_into(out, selectors, ", ");
            push_str(out, " {\n");
            push_all(out, props);
            push_str(out, "}\n");
        },
    }
}

/// The executable form of [`run_property`].
fn property(name: &Vec<char>, val: &Value, scope: &ScopeImpl, ctx: &Context, out: Output) -> (r:
    Result<Output, Error>)
    ensures
        match r {
            Ok(o) => run_property(name@, val@, scope@, ctx@, out@) == Ok::<OutputView, ErrorView>(
                o@,
            ),
            Err(e) => run_property(name@, val@, scope@, ctx@, out@) == Err::<
                OutputView,
                ErrorView,
            >(e@),
        },
{
    if ctx.selectors.len() == 0 {
        return Err(Error::Unsupported { feature: String::from_str("property outside of a rule") });
    }
    match val.evaluate(scope) {
        Ok(v) => {
            let mut out = out;
            if !v.is_null() {
                let mut full: Vec<char> = Vec::new();
                push_all(&mut full, &ctx.prefix);
                push_all(&mut full, name);
                let text = v.format_chars(ctx.style);
                add_declaration(&mut out.props, &full, &text, ctx.style);
            }
            Ok(out)
        },
        Err(e) => Err(e),
    }
}

/// The executable form of [`bind`].
fn bind_args(formals: &FormalArgs, n: usize, args: &CallArgs, scope: ScopeImpl) -> (r: Result<
    ScopeImpl,
    Error,
>)
    requires
        n <= formals.len(),
    ensures
        match r {
            Ok(s) => bind(formal_models(formals@), n as nat, arg_models(args@), scope@) == Ok::<
                ScopeView,
                ErrorView,
            >(s@),
            Err(e) => bind(formal_models(formals@), n as nat, arg_models(args@), scope@) == Err::<
                ScopeView,
                ErrorView,
            >(e@),
        },
    decreases n,
{
    if n == 0 {
        Ok(scope)
    } else {
        match bind_args(formals, n - 1, args, scope) {
            Ok(s) => bind_formal(&formals[n - 1], n - 1, args, s),
            Err(e) => Err(e),
        }
    }
}

/// The executable form of [`bind_one`].
fn bind_formal(formal: &(String, Value), index: usize, args: &CallArgs, scope: ScopeImpl) -> (r:
    Result<ScopeImpl, Error>)
    ensures
        match r {
            Ok(s) => bind_one((formal.0@, formal.1@), index as int, arg_models(args@), scope@)
                == Ok::<ScopeView, ErrorView>(s@),
            Err(e) => bind_one((formal.0@, formal.1@), index as int, arg_models(args@), scope@)
                == Err::<ScopeView, ErrorView>(e@),
        },
{
    reveal(bind_one);
    let mut scope = scope;
    let name = formal.0.as_str();
    match get_arg(args, index, name) {
        Some(v) => {
            let copy = v.dup();
            scope.set(name, copy, false);
            Ok(scope)
        },
        None => match formal.1.do_evaluate(&scope, true) {
            Ok(v) => {
                scope.set(name, v, false);
                Ok(scope)
            },
            Err(e) => Err(e),
        },
    }
}

/// An error among the first statements is the error of any longer run of
/// them.
proof fn lemma_run_error(
    items: Seq<ItemView>,
    n: nat,
    m: nat,
    scope: ScopeView,
    ctx: ContextView,
    out: OutputView,
    fuel: nat,
)
    requires
        n <= m <= items.len(),
        run_items(items, n, scope, ctx, out, fuel) is Err,
    ensures
        run_items(items, m, scope, ctx, out, fuel) == run_items(items, n, scope, ctx, out, fuel),
    decreases m,
{
    if n < m {
        lemma_run_error(items, n, (m - 1) as nat, scope, ctx, out, fuel);
    }
}

/// Runs statements: see [`run_items`].
pub fn run(items: &Vec<Item>, scope: ScopeImpl, ctx: &Context, out: Output, fuel: usize) -> (r:
    Result<(ScopeImpl, Output), Error>)
    ensures
        ran(r) == run_items(
            item_models(items@),
            items.len() as nat,
            scope@,
            ctx@,
            out@,
            fuel as nat,
        ),
    decreases fuel, items, 1nat,
{
    run_all(items, (scope, out), ctx, fuel)
}

/// Runs the statements in order, from a scope and an output: the loop of
/// [`run`].
fn run_all(items: &Vec<Item>, start: (ScopeImpl, Output), ctx: &Context, fuel: usize) -> (r: Result<
    (ScopeImpl, Output),
    Error,
>)
    ensures
        ran(r) == run_items(
            item_models(items@),
            items.len() as nat,
            start.0@,
            ctx@,
            start.1@,
            fuel as nat,
        ),
    decreases fuel, items, 0nat,
{
    let ghost all = item_models(items@);
    let ghost scope0 = start.0@;
    let ghost out0 = start.1@;
    let mut now = start;
    let mut i: usize = 0;
    while i < items.len()
        invariant
            i <= items.len(),
            all == item_models(items@),
            scope0 == start.0@,
            out0 == start.1@,
            run_items(all, i as nat, scope0, ctx@, out0, fuel as nat) == Ok::<
                (ScopeView, OutputView),
                ErrorView,
            >((now.0@, now.1@)),
        decreases items.len() - i,
    {
        match run_one(&items[i], now.0, ctx, now.1, fuel) {
            Ok(next) => {
                now = next;
            },
            Err(e) => {
                proof {
                    lemma_run_error(
                        all,
                        (i + 1) as nat,
                        all.len(),
                        scope0,
                        ctx@,
                        out0,
                        fuel as nat,
                    );
                }
                return Err(e);
            },
        }
        i += 1;
    }
    Ok(now)
}

/// An output that holds nothing yet.
fn empty_output() -> (o: Output)
    ensures
        o@ == (OutputView { props: seq![], rules: seq![] }),
{
    Output { props: Vec::new(), rules: Vec::new() }
}

/// Runs the body of a rule in a scope of its own and writes the rule behind
/// what its body gave: see [`rule_result`].
fn run_rule(body: &Vec<Item>, scope: ScopeImpl, inner: &Context, out: Output, fuel: usize) -> (r:
    Result<(ScopeImpl, Output), Error>)
    ensures
        ran(r) == rule_result(
            run_items(
                item_models(body@),
                body.len() as nat,
                ScopeView::sub(scope@),
                inner@,
                OutputView { props: seq![], rules: seq![] },
                fuel as nat,
            ),
            inner@,
            out@,
        ),
    decreases fuel, body, 2nat,
{
    reveal(rule_result);
    match run(body, ScopeImpl::sub(scope), inner, empty_output(), fuel) {
        Ok((s, o)) => {
            let mut out = out;
            push_rule(&mut out.rules, &inner.selectors, &o.props, inner.style);
            push_all(&mut out.rules, &o.rules);
            Ok((s.leave(), out))
        },
        Err(e) => Err(e),
    }
}

/// The executable form of [`declared`].
fn declare(name: &String, val: &Value, default: bool, global: bool, scope: ScopeImpl, out: Output)
    -> (r: Result<(ScopeImpl, Output), Error>)
    ensures
        ran(r) == declared(name@, val@, default, global, scope@, out@),
{
    reveal(declared);
    let mut scope = scope;
    let r = if default {
        scope.define_default(name.as_str(), val, global)
    } else {
        scope.define(name.as_str(), val, global)
    };
    match r {
        Ok(_) => Ok((scope, out)),
        Err(e) => Err(e),
    }
}

/// The executable form of [`property_result`].
fn write_property(
    name: &crate::sass::SassString,
    val: &Value,
    scope: &ScopeImpl,
    ctx: &Context,
    out: Output,
) -> (r: Result<(Vec<char>, Output), Error>)
    ensures
        match r {
            Ok((n, o)) => property_result(name@, val@, scope@, ctx@, out@) == Ok::<
                (Seq<char>, OutputView),
                ErrorView,
            >((n@, o@)),
            Err(e) => property_result(name@, val@, scope@, ctx@, out@) == Err::<
                (Seq<char>, OutputView),
                ErrorView,
            >(e@),
        },
{
    reveal(property_result);
    match name.text(scope) {
        Ok(n) => match property(&n, val, scope, ctx, out) {
            Ok(o) => Ok((n, o)),
            Err(e) => Err(e),
        },
        Err(e) => Err(e),
    }
}

/// The executable form of [`rule_start`].
fn start_rule(selectors: &crate::sass::SassString, scope: &ScopeImpl, ctx: &Context) -> (r: Result<
    Context,
    Error,
>)
    ensures
        match r {
            Ok(c) => rule_start(selectors@, scope@, ctx@) == Ok::<ContextView, ErrorView>(c@),
            Err(e) => rule_start(selectors@, scope@, ctx@) == Err::<ContextView, ErrorView>(e@),
        },
{
    reveal(rule_start);
    match selectors.text(scope) {
        Ok(text) => Ok(
            Context {
                selectors: combine_selectors(&ctx.selectors, &split_list(&text)),
                prefix: Vec::new(),
                style: ctx.style,
            },
        ),
        Err(e) => Err(e),
    }
}

/// The executable form of [`include_start`].
fn start_include(name: &String, args: &CallArgs, scope: ScopeImpl) -> (r: Result<
    (Vec<Item>, ScopeImpl),
    Error,
>)
    ensures
        match r {
            Ok((body, inner)) => include_start(name@, arg_models(args@), scope@) == Ok::<
                (Seq<ItemView>, ScopeView),
                ErrorView,
            >((item_models(body@), inner@)),
            Err(e) => include_start(name@, arg_models(args@), scope@) == Err::<
                (Seq<ItemView>, ScopeView),
                ErrorView,
            >(e@),
        },
{
    reveal(include_start);
    match scope.get_mixin(name.as_str()) {
        None => Err(Error::UndefinedMixin(name.clone())),
        Some(m) => match include_in(&m, args, scope) {
            Ok(inner) => Ok((m.body, inner)),
            Err(e) => Err(e),
        },
    }
}

/// The executable form of [`holds`].
fn check(cond: &Value, scope: &ScopeImpl) -> (r: Result<bool, Error>)
    ensures
        match r {
            Ok(b) => holds(cond@, scope@) == Ok::<bool, ErrorView>(b),
            Err(e) => holds(cond@, scope@) == Err::<bool, ErrorView>(e@),
        },
{
    reveal(holds);
    match cond.evaluate(scope) {
        Ok(v) => Ok(v.is_true()),
        Err(e) => Err(e),
    }
}

/// The executable form of [`include_scope`].
fn include_in(m: &MixinDeclaration, args: &CallArgs, scope: ScopeImpl) -> (r: Result<
    ScopeImpl,
    Error,
>)
    ensures
        match r {
            Ok(s) => include_scope(m@, arg_models(args@), scope@) == Ok::<ScopeView, ErrorView>(
                s@,
            ),
            Err(e) => include_scope(m@, arg_models(args@), scope@) == Err::<
                ScopeView,
                ErrorView,
            >(e@),
        },
{
    reveal(include_scope);
    match eval_call_args(args, &scope) {
        Ok(values) => bind_args(&m.args, m.args.len(), &values, ScopeImpl::sub(scope)),
        Err(e) => Err(e),
    }
}

/// Goes back to the scope around the one that the statements ran in: see
/// [`left`].
fn leave(r: Result<(ScopeImpl, Output), Error>) -> (l: Result<(ScopeImpl, Output), Error>)
    ensures
        ran(l) == left(ran(r)),
{
    match r {
        Ok((s, o)) => Ok((s.leave(), o)),
        Err(e) => Err(e),
    }
}

/// Runs the body of a mixin in the scope of its arguments, and leaves that
/// scope.
fn run_mixin(body: &Vec<Item>, inner: ScopeImpl, ctx: &Context, out: Output, fuel: usize) -> (r:
    Result<(ScopeImpl, Output), Error>)
    ensures
        ran(r) == left(
            run_items(item_models(body@), body.len() as nat, inner@, ctx@, out@, fuel as nat),
        ),
    decreases fuel, body, 2nat,
{
    leave(run(body, inner, ctx, out, fuel))
}

/// Runs one statement: see [`run_item`].
pub fn run_one(item: &Item, scope: ScopeImpl, ctx: &Context, out: Output, fuel: usize) -> (r:
    Result<(ScopeImpl, Output), Error>)
    ensures
        ran(r) == run_item(item@, scope@, ctx@, out@, fuel as nat),
    decreases fuel, item, 3nat,
{
    proof {
        lemma_item_parts(*item);
    }
    match item {
        Item::VariableDeclaration(name, val, default, global) => declare(
            name,
            val,
            *default,
            *global,
            scope,
            out,
        ),
        Item::Property(name, val) => match write_property(name, val, &scope, ctx, out) {
            Ok((_, o)) => Ok((scope, o)),
            Err(e) => Err(e),
        },
        Item::NamespaceRule(name, val, body) => match write_property(name, val, &scope, ctx, out) {
            Ok((n, o)) => {
                let mut prefix: Vec<char> = Vec::new();
                push_all(&mut prefix, &ctx.prefix);
                push_all(&mut prefix, &n);
                prefix.push('-');
                assert(prefix@ =~= ctx@.prefix + n@ + seq!['-']);
                let inner = Context {
                    selectors: copy_texts(&ctx.selectors),
                    prefix: prefix,
                    style: ctx.style,
                };
                run(body, scope, &inner, o, fuel)
            },
            Err(e) => Err(e),
        },
        Item::Rule(selectors, body) => match start_rule(selectors, &scope, ctx) {
            Ok(inner) => run_rule(body, scope, &inner, out, fuel),
            Err(e) => Err(e),
        },
        Item::MixinDeclaration(name, args, body) => {
            let mut scope = scope;
            let m = MixinDeclaration {
                name: name.clone(),
                args: crate::stylesheet::dup_formals(args),
                body: crate::stylesheet::dup_items(body),
            };
            scope.define_mixin(&m);
            Ok((scope, out))
        },
        Item::MixinCall(name, args) => if fuel == 0 {
            Err(Error::Unsupported { feature: String::from_str("mixins nested too deep") })
        } else {
            match start_include(name, args, scope) {
                Ok((body, inner)) => run_mixin(&body, inner, ctx, out, fuel - 1),
                Err(e) => Err(e),
            }
        },
        Item::IfStatement(cond, then, other) => match check(cond, &scope) {
            Ok(b) => if b {
                run(then, scope, ctx, out, fuel)
            } else {
                run(other, scope, ctx, out, fuel)
            },
            Err(e) => Err(e),
        },
        Item::Warn(_) => Ok((scope, out)),
    }
}

/// The CSS text of a stylesheet in a style: see [`stylesheet_text`].
pub fn compile_items(items: &Vec<Item>, style: OutputStyle) -> (r: Result<String, Error>)
    ensures
        match r {
            Ok(s) => stylesheet_text(item_models(items@), style) == Ok::<Seq<char>, ErrorView>(
                s@,
            ),
            Err(e) => stylesheet_text(item_models(items@), style) == Err::<
                Seq<char>,
                ErrorView,
            >(e@),
        },
{
    let ctx = Context { selectors: Vec::new(), prefix: Vec::new(), style: style };
    assert(ctx@.selectors =~= seq![]);
    match run(items, ScopeImpl::new(), &ctx, empty_output(), 64) {
        Ok((_, out)) => {
            let mut text = out.rules;
            let compressed: bool = match style {
                OutputStyle::Compressed => true,
                OutputStyle::Expanded => false,
            };
            if compressed && text.len() > 0 {
                text.push('\n');
            }
            Ok(string_of(&text))
        },
        Err(e) => Err(e),
    }
}

/// The CSS that a stylesheet compiles to: its text without comments is
/// read as statements, and they are written in the style. Source text
/// that is not UTF-8, or not all statements, is a parse error; its place
/// counts the characters of the text without comments.
pub open spec fn compiled(input: Seq<u8>, style: OutputStyle) -> Result<Seq<u8>, ErrorView> {
    if !vstd::utf8::valid_utf8(input) {
        Err(ErrorView::Parse { msg: "invalid UTF-8"@, span: 0 })
    } else {
        match crate::parser::scss::p_stylesheet(
            crate::parser::scss::stripped(vstd::utf8::decode_utf8(input)),
        ) {
            Ok(items) => match stylesheet_text(items, style) {
                Ok(text) => Ok(vstd::utf8::encode_utf8(text)),
                Err(e) => Err(e),
            },
            Err(at) => Err(ErrorView::Parse { msg: "no statement"@, span: at }),
        }
    }
}

/// Compiles a stylesheet to CSS in the given style: see [`compiled`].
pub fn compile_scss(input: &[u8], style: OutputStyle) -> (r: Result<Vec<u8>, Error>)
    ensures
        match r {
            Ok(css) => compiled(input@, style) == Ok::<Seq<u8>, ErrorView>(css@),
            Err(e) => compiled(input@, style) == Err::<Seq<u8>, ErrorView>(e@),
        },
{
    let chars = match crate::parser::strings::decode(input) {
        Some(c) => c,
        None => {
            return Err(Error::Parse { msg: String::from_str("invalid UTF-8"), span: 0 });
        },
    };
    let text = crate::parser::scss::strip_comments(&chars);
    match crate::parser::scss::parse_scss(&text) {
        Ok(items) => match compile_items(&items, style) {
            Ok(css) => Ok(css.as_str().as_bytes_vec()),
            Err(e) => Err(e),
        },
        Err(at) => Err(Error::Parse { msg: String::from_str("no statement"), span: at }),
    }
}

} // verus!
