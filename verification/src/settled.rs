//! What evaluation gives is fully evaluated: to evaluate it once more
//! changes nothing.
use crate::arith::{apply, divide};
use crate::error::ErrorView;
use crate::eval::{call_result, eval_args, eval_entries, eval_items, slash, unary};
use crate::functions::{
    argument, builtin, key_name, mix_colors, mix_result, named_from, required, rgb_result, rgba_result,
    SassFunction,
};
use crate::rational::Ratio;
use crate::laws::lemma_evaluation_idempotent;
use crate::mapping::{gathered, lemma_gathered_distinct, lemma_key_place};
use crate::operator::Operator;
use crate::value::ValueView;
use crate::variablescope::{find, lemma_find, put, ScopeView};
use vstd::prelude::*;

verus! {

impl ScopeView {
    /// Every variable of the scope holds a value that is fully evaluated
    /// for this scope, as the values are that `define` binds.
    pub open spec fn holds_results(self) -> bool {
        forall|name: Seq<char>|
            (#[trigger] self.get(name)).into_calculated().is_evaluated(self, true)
    }
}

/// A division in a value that is neither in arithmetic context nor has a
/// calculated dividend, but whose dividend becomes calculated: it is
/// evaluated with a divisor that was not evaluated for a division. Where
/// the division then stays, to evaluate it again evaluates the divisor
/// for a division, and the divisor must be ready for that.
pub open spec fn divisor_ready(
    a: ValueView,
    b: ValueView,
    space1: bool,
    space2: bool,
    scope: ScopeView,
    arithmetic: bool,
) -> bool {
    arithmetic || a.is_calculated() || match (a.eval(scope, false), b.eval(scope, false)) {
        (Ok(first), Ok(right)) => !first.is_calculated() || right.is_evaluated(scope, true)
            || !(divide(first, right, space1, space2) is Div),
        _ => true,
    }
}

impl ValueView {
    /// Every division in the value has a divisor that is ready, in the
    /// context in which the division is evaluated: see [`divisor_ready`].
    pub open spec fn steady(self, scope: ScopeView, arithmetic: bool) -> bool
        decreases self,
    {
        match self {
            ValueView::Paren(a) => a.steady(scope, true),
            ValueView::Interpolation(a) => a.steady(scope, true),
            ValueView::UnaryOp(_, a) => a.steady(scope, true),
            ValueView::BinOp(a, _, b) => a.steady(scope, true) && b.steady(scope, true),
            ValueView::List(items, _, _) => forall|i: int|
                0 <= i < items.len() ==> (#[trigger] items[i]).steady(scope, false),
            ValueView::Mapping(m) => forall|i: int|
                0 <= i < m.len() ==> (#[trigger] m[i]).0.steady(scope, false) && m[i].1.steady(
                    scope,
                    false,
                ),
            ValueView::Call(_, args) => forall|i: int|
                0 <= i < args.len() ==> (#[trigger] args[i]).1.steady(scope, true),
            ValueView::Div(a, b, space1, space2) => a.steady(scope, arithmetic) && a.steady(
                scope,
                true,
            ) && b.steady(scope, arithmetic || a.is_calculated()) && divisor_ready(
                *a,
                *b,
                space1,
                space2,
                scope,
                arithmetic,
            ),
            _ => true,
        }
    }
}

/// A value that is fully evaluated for arithmetic context is so for any
/// context.
pub proof fn lemma_any_context(w: ValueView, scope: ScopeView, arithmetic: bool)
    requires
        w.is_evaluated(scope, true),
    ensures
        w.is_evaluated(scope, arithmetic),
    decreases w,
{
    match w {
        ValueView::Div(a, b, space1, space2) => {
            lemma_any_context(*a, scope, arithmetic);
            lemma_any_context(*b, scope, arithmetic || a.is_calculated());
        },
        _ => {},
    }
}

/// What a division gives for operands that are fully evaluated for
/// arithmetic context is fully evaluated.
pub proof fn lemma_divide(
    a: ValueView,
    b: ValueView,
    space1: bool,
    space2: bool,
    scope: ScopeView,
    arithmetic: bool,
)
    requires
        a.is_evaluated(scope, true),
        b.is_evaluated(scope, true),
    ensures
        divide(a, b, space1, space2).is_evaluated(scope, arithmetic),
{
    lemma_any_context(a, scope, arithmetic);
    lemma_any_context(b, scope, arithmetic || a.is_calculated());
}

/// What an operator gives for operands that are fully evaluated for
/// arithmetic context is fully evaluated.
pub proof fn lemma_apply(op: Operator, a: ValueView, b: ValueView, scope: ScopeView, arithmetic: bool)
    requires
        a.is_evaluated(scope, true),
        b.is_evaluated(scope, true),
    ensures
        apply(op, a, b) matches Ok(w) ==> w.is_evaluated(scope, arithmetic),
{
    lemma_any_context(a, scope, arithmetic);
    lemma_any_context(b, scope, arithmetic);
    lemma_divide(a, b, false, false, scope, arithmetic);
}

/// What a unary operator gives for an operand that is fully evaluated for
/// arithmetic context is fully evaluated.
pub proof fn lemma_unary(op: Operator, a: ValueView, scope: ScopeView, arithmetic: bool)
    requires
        a.is_evaluated(scope, true),
    ensures
        unary(op, a).is_evaluated(scope, arithmetic),
{
}

/// A fully evaluated value without its quotes is fully evaluated.
pub proof fn lemma_unquote(w: ValueView, scope: ScopeView, arithmetic: bool)
    requires
        w.is_evaluated(scope, arithmetic),
    ensures
        w.unquote().is_evaluated(scope, arithmetic),
    decreases w,
{
    match w {
        ValueView::List(items, sep, bracketed) => {
            let unquoted = w.unquote()->List_0;
            assert forall|i: int| 0 <= i < unquoted.len() implies (#[trigger] unquoted[i]).is_evaluated(
                scope,
                false,
            ) by {
                lemma_unquote(items[i], scope, false);
            }
        },
        _ => {},
    }
}

/// An argument that a call has is one of its arguments.
proof fn lemma_argument(args: Seq<(Option<Seq<char>>, ValueView)>, index: int, name: Seq<char>)
    ensures
        argument(args, index, name) matches Some(v) ==> exists|j: int|
            0 <= j < args.len() && (#[trigger] args[j]).1 == v,
{
    lemma_named(args, name, 0);
}

/// What [`named_from`] finds is a place among the arguments.
proof fn lemma_named(args: Seq<(Option<Seq<char>>, ValueView)>, name: Seq<char>, from: int)
    requires
        0 <= from,
    ensures
        named_from(args, name, from) matches Some(i) ==> from <= i < args.len(),
    decreases args.len() - from,
{
    if from < args.len() {
        lemma_named(args, name, from + 1);
    }
}

/// An argument of a call whose arguments are fully evaluated is fully
/// evaluated.
proof fn lemma_required(
    args: Seq<(Option<Seq<char>>, ValueView)>,
    index: int,
    name: Seq<char>,
    scope: ScopeView,
)
    requires
        forall|i: int| 0 <= i < args.len() ==> (#[trigger] args[i]).1.is_evaluated(scope, true),
    ensures
        required(args, index, name) matches Ok(v) ==> v.is_evaluated(scope, true),
{
    lemma_argument(args, index, name);
}

/// The functions that make a color give a color.
proof fn lemma_color_functions(args: Seq<(Option<Seq<char>>, ValueView)>)
    ensures
        forall|alpha: Result<Ratio, ErrorView>|
            (#[trigger] rgb_result(args, alpha)) is Ok ==> rgb_result(args, alpha)->Ok_0 is Color,
        rgba_result(args) matches Ok(w) ==> w is Color,
        mix_result(args) matches Ok(w) ==> w is Color,
        SassFunction::Invert.result(args) matches Ok(w) ==> w is Color,
{
    assert forall|c1: (Ratio, Ratio, Ratio, Ratio), c2: (Ratio, Ratio, Ratio, Ratio), p: Ratio|
        (#[trigger] mix_colors(c1, c2, p)) is Some implies mix_colors(c1, c2, p)->Some_0 is Color by {}
}

/// What a function gives for fully evaluated arguments is fully evaluated.
pub proof fn lemma_function(
    f: SassFunction,
    args: Seq<(Option<Seq<char>>, ValueView)>,
    scope: ScopeView,
)
    requires
        forall|i: int| 0 <= i < args.len() ==> (#[trigger] args[i]).1.is_evaluated(scope, true),
    ensures
        f.result(args) matches Ok(w) ==> w.is_evaluated(scope, true),
{
    match f {
        SassFunction::Rgb | SassFunction::Rgba | SassFunction::Mix | SassFunction::Invert => {
            lemma_color_functions(args);
        },
        SassFunction::Unquote => {
            lemma_required(args, 0, "string"@, scope);
            if let Ok(v) = required(args, 0, "string"@) {
                lemma_unquote(v, scope, true);
            }
        },
        SassFunction::If => {
            lemma_required(args, 1, "if_true"@, scope);
            lemma_required(args, 2, "if_false"@, scope);
        },
        _ => {},
    }
}

/// What a call gives for fully evaluated arguments is fully evaluated.
proof fn lemma_call(
    name: Seq<char>,
    args: Seq<(Option<Seq<char>>, ValueView)>,
    scope: ScopeView,
    arithmetic: bool,
)
    requires
        forall|i: int| 0 <= i < args.len() ==> (#[trigger] args[i]).1.is_evaluated(scope, true),
    ensures
        call_result(scope, name, args) matches Ok(w) ==> w.is_evaluated(scope, arithmetic),
{
    if let Some(f) = scope.function(name) {
        lemma_function(f, args, scope);
    }
    if let Some(f) = builtin(name) {
        lemma_function(f, args, scope);
    }
    if let Ok(w) = call_result(scope, name, args) {
        lemma_any_context(w, scope, arithmetic);
    }
}

/// A calculated value is fully evaluated.
proof fn lemma_calculated(w: ValueView, scope: ScopeView, arithmetic: bool)
    requires
        w.is_calculated(),
    ensures
        w.is_evaluated(scope, arithmetic),
{
}

/// What a division gives for its evaluated operands is fully evaluated,
/// where the operands are and the divisor is ready.
proof fn lemma_slash(
    first: ValueView,
    left: ValueView,
    right: ValueView,
    calculated: bool,
    space1: bool,
    space2: bool,
    scope: ScopeView,
    arithmetic: bool,
)
    requires
        first.is_evaluated(scope, arithmetic),
        !first.is_calculated() && right.is_calculated() ==> left.is_evaluated(scope, true),
        right.is_evaluated(scope, arithmetic || calculated),
        arithmetic || calculated || !first.is_calculated() || right.is_evaluated(scope, true) || !(
        divide(first, right, space1, space2) is Div),
    ensures
        (if !first.is_calculated() && right.is_calculated() {
            slash(left, right, space1, space2, arithmetic)
        } else {
            slash(first, right, space1, space2, arithmetic)
        }).is_evaluated(scope, arithmetic),
{
    if right.is_calculated() {
        lemma_calculated(right, scope, true);
    }
    if first.is_calculated() {
        lemma_calculated(first, scope, true);
    }
    if !first.is_calculated() && right.is_calculated() {
        lemma_divide(left, right, space1, space2, scope, arithmetic);
    } else if arithmetic {
        lemma_divide(first, right, space1, space2, scope, arithmetic);
    } else if first.is_calculated() {
        if right.is_evaluated(scope, true) {
            lemma_divide(first, right, space1, space2, scope, arithmetic);
        } else {
            let w = divide(first, right, space1, space2);
            assert(!(w is Div));
            assert(w is Numeric || w is Color);
        }
    } else {
        if calculated {
            lemma_any_context(right, scope, false);
        }
    }
}

/// The first entries of a map, evaluated: fully evaluated keys and values.
proof fn lemma_entries(m: Seq<(ValueView, ValueView)>, scope: ScopeView, n: nat)
    requires
        scope.holds_results(),
        forall|i: int|
            0 <= i < m.len() ==> (#[trigger] m[i]).0.steady(scope, false) && m[i].1.steady(
                scope,
                false,
            ),
    ensures
        eval_entries(m, scope, n) matches Ok(vs) ==> forall|i: int|
            0 <= i < vs.len() ==> (#[trigger] vs[i]).0.is_evaluated(scope, false)
                && vs[i].1.is_evaluated(scope, false),
    decreases m, n,
{
    if n > 0 && n <= m.len() {
        lemma_entries(m, scope, (n - 1) as nat);
        lemma_result(m[n - 1].0, scope, false);
        lemma_result(m[n - 1].1, scope, false);
    }
}

/// The first items of a list, evaluated: fully evaluated items.
proof fn lemma_items(items: Seq<ValueView>, scope: ScopeView, n: nat)
    requires
        scope.holds_results(),
        forall|i: int| 0 <= i < items.len() ==> (#[trigger] items[i]).steady(scope, false),
    ensures
        eval_items(items, scope, n) matches Ok(vs) ==> forall|i: int|
            0 <= i < vs.len() ==> (#[trigger] vs[i]).is_evaluated(scope, false),
    decreases items, n,
{
    if n > 0 && n <= items.len() {
        lemma_items(items, scope, (n - 1) as nat);
        lemma_result(items[n - 1], scope, false);
    }
}

/// The first arguments of a call, evaluated: fully evaluated arguments.
proof fn lemma_args(args: Seq<(Option<Seq<char>>, ValueView)>, scope: ScopeView, n: nat)
    requires
        scope.holds_results(),
        forall|i: int| 0 <= i < args.len() ==> (#[trigger] args[i]).1.steady(scope, true),
    ensures
        eval_args(args, scope, n) matches Ok(vs) ==> forall|i: int|
            0 <= i < vs.len() ==> (#[trigger] vs[i]).1.is_evaluated(scope, true),
    decreases args, n,
{
    if n > 0 && n <= args.len() {
        lemma_args(args, scope, (n - 1) as nat);
        lemma_result(args[n - 1].1, scope, true);
    }
}

/// Entries that are bound one after the other are made of the keys and
/// values that were there.
proof fn lemma_gathered_parts(entries: Seq<(ValueView, ValueView)>, n: nat, scope: ScopeView)
    requires
        forall|i: int|
            0 <= i < entries.len() ==> (#[trigger] entries[i]).0.is_evaluated(scope, false)
                && entries[i].1.is_evaluated(scope, false),
    ensures
        forall|i: int|
            0 <= i < gathered(entries, n).len() ==> (#[trigger] gathered(entries, n)[i]).0.is_evaluated(
                scope,
                false,
            ) && gathered(entries, n)[i].1.is_evaluated(scope, false),
    decreases n,
{
    if n > 0 && n <= entries.len() {
        lemma_gathered_parts(entries, (n - 1) as nat, scope);
        lemma_key_place(gathered(entries, (n - 1) as nat), entries[n - 1].0, 0);
    }
}

/// A value in parentheses gives what the value gives in arithmetic
/// context.
proof fn lemma_paren(a: ValueView, scope: ScopeView, arithmetic: bool)
    requires
        a.eval(scope, true) matches Ok(w) ==> w.is_evaluated(scope, true),
    ensures
        ValueView::Paren(Box::new(a)).eval(scope, arithmetic) matches Ok(w) ==> w.is_evaluated(
            scope,
            arithmetic,
        ),
{
    if let Ok(w) = a.eval(scope, true) {
        lemma_any_context(w, scope, arithmetic);
    }
}

/// A variable gives a fully evaluated value where the scope holds results.
proof fn lemma_variable(name: Seq<char>, scope: ScopeView, arithmetic: bool)
    requires
        scope.holds_results(),
    ensures
        ValueView::Variable(name).eval(scope, arithmetic) matches Ok(w) ==> w.is_evaluated(
            scope,
            arithmetic,
        ),
{
    lemma_any_context(scope.get(name).into_calculated(), scope, arithmetic);
}

/// A map of fully evaluated entries is fully evaluated once its entries
/// are bound one after the other.
proof fn lemma_mapping(m: Seq<(ValueView, ValueView)>, scope: ScopeView, arithmetic: bool)
    requires
        eval_entries(m, scope, m.len()) matches Ok(vs) ==> forall|i: int|
            0 <= i < vs.len() ==> (#[trigger] vs[i]).0.is_evaluated(scope, false)
                && vs[i].1.is_evaluated(scope, false),
    ensures
        ValueView::Mapping(m).eval(scope, arithmetic) matches Ok(w) ==> w.is_evaluated(
            scope,
            arithmetic,
        ),
{
    if let Ok(vs) = eval_entries(m, scope, m.len()) {
        lemma_gathered_parts(vs, vs.len(), scope);
        lemma_gathered_distinct(vs, vs.len());
    }
}

/// A call with fully evaluated arguments gives a fully evaluated value.
proof fn lemma_called(
    name: Seq<char>,
    args: Seq<(Option<Seq<char>>, ValueView)>,
    scope: ScopeView,
    arithmetic: bool,
)
    requires
        eval_args(args, scope, args.len()) matches Ok(vs) ==> forall|i: int|
            0 <= i < vs.len() ==> (#[trigger] vs[i]).1.is_evaluated(scope, true),
    ensures
        ValueView::Call(name, args).eval(scope, arithmetic) matches Ok(w) ==> w.is_evaluated(
            scope,
            arithmetic,
        ),
{
    if let Ok(vs) = eval_args(args, scope, args.len()) {
        lemma_call(name, vs, scope, arithmetic);
    }
}

/// An operation on fully evaluated operands gives a fully evaluated value.
proof fn lemma_operation(
    a: ValueView,
    op: Operator,
    b: ValueView,
    scope: ScopeView,
    arithmetic: bool,
)
    requires
        a.eval(scope, true) matches Ok(w) ==> w.is_evaluated(scope, true),
        b.eval(scope, true) matches Ok(w) ==> w.is_evaluated(scope, true),
    ensures
        ValueView::BinOp(Box::new(a), op, Box::new(b)).eval(scope, arithmetic) matches Ok(w)
            ==> w.is_evaluated(scope, arithmetic),
{
    if let Ok(left) = a.eval(scope, true) {
        if let Ok(right) = b.eval(scope, true) {
            lemma_apply(op, left, right, scope, arithmetic);
        }
    }
}

/// A unary operation on a fully evaluated operand gives a fully evaluated
/// value.
proof fn lemma_unary_operation(op: Operator, a: ValueView, scope: ScopeView, arithmetic: bool)
    requires
        a.eval(scope, true) matches Ok(w) ==> w.is_evaluated(scope, true),
    ensures
        ValueView::UnaryOp(op, Box::new(a)).eval(scope, arithmetic) matches Ok(w)
            ==> w.is_evaluated(scope, arithmetic),
{
    if let Ok(w) = a.eval(scope, true) {
        lemma_unary(op, w, scope, arithmetic);
    }
}

/// A division of fully evaluated operands gives a fully evaluated value,
/// where its divisor is ready.
proof fn lemma_division(
    a: ValueView,
    b: ValueView,
    space1: bool,
    space2: bool,
    scope: ScopeView,
    arithmetic: bool,
)
    requires
        a.eval(scope, arithmetic) matches Ok(w) ==> w.is_evaluated(scope, arithmetic),
        a.eval(scope, true) matches Ok(w) ==> w.is_evaluated(scope, true),
        b.eval(scope, arithmetic || a.is_calculated()) matches Ok(w) ==> w.is_evaluated(
            scope,
            arithmetic || a.is_calculated(),
        ),
        divisor_ready(a, b, space1, space2, scope, arithmetic),
    ensures
        ValueView::Div(Box::new(a), Box::new(b), space1, space2).eval(scope, arithmetic) matches Ok(
            w,
        ) ==> w.is_evaluated(scope, arithmetic),
{
    let first = a.eval(scope, arithmetic);
    let right = b.eval(scope, arithmetic || a.is_calculated());
    let left = a.eval(scope, true);
    if first is Ok && right is Ok {
        let f = first->Ok_0;
        let r = right->Ok_0;
        if !f.is_calculated() && r.is_calculated() {
            if left is Ok {
                lemma_slash(f, left->Ok_0, r, a.is_calculated(), space1, space2, scope, arithmetic);
            }
        } else {
            lemma_slash(f, f, r, a.is_calculated(), space1, space2, scope, arithmetic);
        }
    }
}

/// What evaluation gives is fully evaluated, in a scope whose variables
/// hold results and for a value whose divisions are steady.
pub proof fn lemma_result(v: ValueView, scope: ScopeView, arithmetic: bool)
    requires
        scope.holds_results(),
        v.steady(scope, arithmetic),
    ensures
        v.eval(scope, arithmetic) matches Ok(w) ==> w.is_evaluated(scope, arithmetic),
    decreases v, 1nat,
{
    match v {
        ValueView::Paren(a) => {
            lemma_result(*a, scope, true);
            lemma_paren(*a, scope, arithmetic);
        },
        ValueView::Variable(name) => {
            lemma_variable(name, scope, arithmetic);
        },
        ValueView::List(items, _, _) => {
            lemma_items(items, scope, items.len());
        },
        ValueView::Mapping(m) => {
            lemma_entries(m, scope, m.len());
            lemma_mapping(m, scope, arithmetic);
        },
        ValueView::Call(name, args) => {
            lemma_args(args, scope, args.len());
            lemma_called(name, args, scope, arithmetic);
        },
        ValueView::BinOp(a, op, b) => {
            lemma_result(*a, scope, true);
            lemma_result(*b, scope, true);
            lemma_operation(*a, op, *b, scope, arithmetic);
        },
        ValueView::UnaryOp(op, a) => {
            lemma_result(*a, scope, true);
            lemma_unary_operation(op, *a, scope, arithmetic);
        },
        ValueView::Div(a, b, space1, space2) => {
            lemma_result(*a, scope, arithmetic);
            lemma_result(*a, scope, true);
            lemma_result(*b, scope, arithmetic || a.is_calculated());
            lemma_division(*a, *b, space1, space2, scope, arithmetic);
        },
        _ => {},
    }
}

/// To evaluate what evaluation gave changes nothing, in a scope whose
/// variables hold results and for a value whose divisions are steady.
pub proof fn lemma_evaluated_twice(v: ValueView, scope: ScopeView, arithmetic: bool)
    requires
        scope.holds_results(),
        v.steady(scope, arithmetic),
    ensures
        v.eval(scope, arithmetic) matches Ok(w) ==> w.eval(scope, arithmetic) == Ok::<
            ValueView,
            ErrorView,
        >(w),
{
    lemma_result(v, scope, arithmetic);
    if let Ok(w) = v.eval(scope, arithmetic) {
        lemma_evaluation_idempotent(w, scope, arithmetic);
    }
}

/// Whether a value is fully evaluated depends on the scope only by the
/// functions that it binds.
pub proof fn lemma_same_functions(w: ValueView, s1: ScopeView, s2: ScopeView, arithmetic: bool)
    requires
        forall|name: Seq<char>| #[trigger] s1.function(name) == s2.function(name),
        w.is_evaluated(s1, arithmetic),
    ensures
        w.is_evaluated(s2, arithmetic),
    decreases w,
{
    match w {
        ValueView::List(items, _, _) => {
            assert forall|i: int| 0 <= i < items.len() implies (#[trigger] items[i]).is_evaluated(
                s2,
                false,
            ) by {
                lemma_same_functions(items[i], s1, s2, false);
            }
        },
        ValueView::Mapping(m) => {
            assert forall|i: int| 0 <= i < m.len() implies (#[trigger] m[i]).0.is_evaluated(
                s2,
                false,
            ) && m[i].1.is_evaluated(s2, false) by {
                lemma_same_functions(m[i].0, s1, s2, false);
                lemma_same_functions(m[i].1, s1, s2, false);
            }
        },
        ValueView::Call(_, args) => {
            assert forall|i: int| 0 <= i < args.len() implies (#[trigger] args[i]).1.is_evaluated(
                s2,
                true,
            ) by {
                lemma_same_functions(args[i].1, s1, s2, true);
            }
        },
        ValueView::BinOp(a, _, b) => {
            lemma_same_functions(*a, s1, s2, true);
            lemma_same_functions(*b, s1, s2, true);
        },
        ValueView::UnaryOp(_, a) => {
            lemma_same_functions(*a, s1, s2, true);
        },
        ValueView::Div(a, b, _, _) => {
            lemma_same_functions(*a, s1, s2, arithmetic);
            lemma_same_functions(*b, s1, s2, arithmetic || a.is_calculated());
            if !a.is_calculated() && b.is_calculated() {
                lemma_same_functions(*a, s1, s2, true);
            }
        },
        _ => {},
    }
}

/// A fully evaluated value whose numbers are marked as calculated is fully
/// evaluated for arithmetic context.
pub proof fn lemma_into_calculated(w: ValueView, scope: ScopeView, arithmetic: bool)
    requires
        w.is_evaluated(scope, arithmetic),
    ensures
        w.into_calculated().is_evaluated(scope, arithmetic),
    decreases w,
{
    match w {
        ValueView::List(items, _, _) => {
            let marked = w.into_calculated()->List_0;
            assert forall|i: int| 0 <= i < marked.len() implies (#[trigger] marked[i]).is_evaluated(
                scope,
                false,
            ) by {
                lemma_into_calculated(items[i], scope, false);
            }
        },
        _ => {},
    }
}

/// A scope that binds nothing holds results, and so does a scope that
/// binds nothing inside one that holds results.
pub proof fn lemma_new_scope_holds_results(parent: ScopeView)
    ensures
        ScopeView::empty().holds_results(),
        parent.holds_results() ==> ScopeView::sub(parent).holds_results(),
{
    if parent.holds_results() {
        let s = ScopeView::sub(parent);
        assert forall|name: Seq<char>| (#[trigger] s.get(name)).into_calculated().is_evaluated(
            s,
            true,
        ) by {
            assert(s.get(name) == parent.get(name));
            assert(forall|n: Seq<char>| #[trigger] parent.function(n) == s.function(n));
            lemma_same_functions(parent.get(name).into_calculated(), parent, s, true);
        }
    }
}

/// A scope that holds results still does when `define` has bound a
/// variable, in it or in the outermost scope, to a value whose divisions
/// are steady.
pub proof fn lemma_define_holds_results(
    scope: ScopeView,
    name: Seq<char>,
    val: ValueView,
    global: bool,
)
    requires
        scope.holds_results(),
        val.steady(scope, true),
        scope.define(name, val, global) is Ok,
    ensures
        scope.define(name, val, global)->Ok_0.holds_results(),
{
    let w = val.eval(scope, true)->Ok_0;
    let s = scope.define(name, val, global)->Ok_0;
    lemma_result(val, scope, true);
    lemma_into_calculated(w, scope, true);
    assert forall|n: Seq<char>| (#[trigger] s.get(n)).into_calculated().is_evaluated(s, true) by {
        assert forall|f: Seq<char>| #[trigger] scope.function(f) == s.function(f) by {
            lemma_function_after_set_root(scope, name, w, f);
        }
        if global {
            lemma_get_after_set_root(scope, name, w, n);
        } else {
            lemma_get_after_set(scope, name, w, n);
        }
        if s.get(n) == w {
            lemma_same_functions(w.into_calculated(), scope, s, true);
        } else {
            lemma_same_functions(scope.get(n).into_calculated(), scope, s, true);
        }
    }
}

/// To bind a variable in the outermost scope changes no function.
proof fn lemma_function_after_set_root(
    scope: ScopeView,
    name: Seq<char>,
    w: ValueView,
    f: Seq<char>,
)
    ensures
        scope.set_root(name, w).function(f) == scope.function(f),
        scope.set_here(name, w).function(f) == scope.function(f),
    decreases scope,
{
    match scope.parent {
        Some(p) => {
            lemma_function_after_set_root(*p, name, w, f);
        },
        None => {},
    }
}

/// A variable of a scope in whose outermost scope a name was bound is the
/// value that was bound or the value that it was before.
proof fn lemma_get_after_set_root(scope: ScopeView, name: Seq<char>, w: ValueView, n: Seq<char>)
    ensures
        scope.set_root(name, w).get(n) == w || scope.set_root(name, w).get(n) == scope.get(n),
    decreases scope,
{
    match scope.parent {
        Some(p) => {
            lemma_get_after_set_root(*p, name, w, n);
        },
        None => {
            lemma_get_after_set(scope, name, w, n);
        },
    }
}

/// A variable of a scope in which a name was bound is the value that was
/// bound or the value that it was before.
proof fn lemma_get_after_set(scope: ScopeView, name: Seq<char>, w: ValueView, n: Seq<char>)
    ensures
        scope.set_here(name, w).get(n) == w || scope.set_here(name, w).get(n) == scope.get(n),
{
    let table = scope.variables;
    let key = key_name(name);
    let after = put(table, key, w);
    lemma_find(table, key, 0);
    let s = scope.set_here(name, w);
    assert(s.variables == after);
    assert(s.parent == scope.parent);
    lemma_find(table, key_name(n), 0);
    match find(table, key, 0) {
        Some(i) => {
            assert(after == table.update(i, (key, w)));
            lemma_same_keys(table, after, key_name(n), 0);
            assert(find(after, key_name(n), 0) == find(table, key_name(n), 0));
        },
        None => {
            assert(after == table.push((key, w)));
            lemma_one_more(table, (key, w), key_name(n), 0);
            if let Some(j) = find(table, key_name(n), 0) {
                assert(after[j] == table[j]);
            }
        },
    }
}

/// Tables with the same keys at the same places have an entry for a key
/// at the same place.
proof fn lemma_same_keys(
    t1: Seq<(Seq<char>, ValueView)>,
    t2: Seq<(Seq<char>, ValueView)>,
    key: Seq<char>,
    from: int,
)
    requires
        0 <= from,
        t1.len() == t2.len(),
        forall|i: int| 0 <= i < t1.len() ==> t1[i].0 == t2[i].0,
    ensures
        find(t1, key, from) == find(t2, key, from),
    decreases t1.len() - from,
{
    if from < t1.len() && t1[from].0 != key {
        lemma_same_keys(t1, t2, key, from + 1);
    }
}

/// A table with one more entry at its end has the entries that it had,
/// and the new one for a key that had none.
proof fn lemma_one_more(
    table: Seq<(Seq<char>, ValueView)>,
    entry: (Seq<char>, ValueView),
    key: Seq<char>,
    from: int,
)
    requires
        0 <= from <= table.len(),
    ensures
        find(table.push(entry), key, from) == match find(table, key, from) {
            Some(i) => Some(i),
            None => if entry.0 == key {
                Some(table.len() as int)
            } else {
                None
            },
        },
    decreases table.len() - from,
{
    let more = table.push(entry);
    if from < table.len() {
        assert(more[from] == table[from]);
        if table[from].0 != key {
            lemma_one_more(table, entry, key, from + 1);
        }
    } else {
        assert(more[from] == entry);
        assert(find(more, key, from + 1) is None);
    }
}

} // verus!
