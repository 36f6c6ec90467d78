//! Laws that hold of every value: what unquoting keeps, how short a color
//! can be written, what null lists do in lists, which values evaluation
//! leaves alone, and that sums of numbers do not depend on their grouping.
use crate::arith::{apply, equal};
use crate::error::ErrorView;
use crate::eval::{eval_args, eval_entries, eval_items, slash, unary};
use crate::format::{channel_byte, is_short, item_infos, visible, OutputStyle};
use crate::functions::builtin;
use crate::mapping::{distinct_keys, lemma_gathered_distinct, lemma_gathered_same};
use crate::operator::Operator;
use crate::rational::{lemma_reduce, lemma_reduce_same, Ratio};
use crate::value::{ListSeparator, Quotes, ValueView};
use crate::variablescope::ScopeView;
use vstd::prelude::*;

verus! {

/// The part of a value that a path leads to: each number of the path picks
/// an item of a list.
pub open spec fn item_at(v: ValueView, path: Seq<int>) -> Option<ValueView>
    decreases path.len(),
{
    if path.len() == 0 {
        Some(v)
    } else {
        match v {
            ValueView::List(items, _, _) => if 0 <= path[0] < items.len() {
                item_at(items[path[0]], path.skip(1))
            } else {
                None
            },
            _ => None,
        }
    }
}

/// Unquoting leaves every unquoted string where it is and as it is: where
/// a path leads to an unquoted string in a value, it leads to the same
/// string in the unquoted value.
pub proof fn lemma_unquote_keeps_unquoted(v: ValueView, path: Seq<int>, s: Seq<char>)
    requires
        item_at(v, path) == Some(ValueView::Literal(s, Quotes::Unquoted)),
    ensures
        item_at(v.unquote(), path) == Some(ValueView::Literal(s, Quotes::Unquoted)),
    decreases path.len(),
{
    if path.len() > 0 {
        match v {
            ValueView::List(items, _, _) => {
                lemma_unquote_keeps_unquoted(items[path[0]], path.skip(1), s);
            },
            _ => {},
        }
    }
}

/// Unquoting twice is unquoting once.
pub proof fn lemma_unquote_idempotent(v: ValueView)
    ensures
        v.unquote().unquote() == v.unquote(),
    decreases v,
{
    match v {
        ValueView::List(items, sep, bracketed) => {
            let once = v.unquote()->List_0;
            let twice = v.unquote().unquote()->List_0;
            assert forall|i: int| 0 <= i < items.len() implies twice[i] == once[i] by {
                lemma_unquote_idempotent(items[i]);
            }
            assert(twice =~= once);
        },
        _ => {},
    }
}

/// A computed color that is opaque and whose channels are multiples of 17
/// takes at most four characters in the compressed style.
pub proof fn lemma_short_color(r: Ratio, g: Ratio, b: Ratio, a: Ratio)
    requires
        Ratio::from_int(1).le(a),
        is_short(channel_byte(r), channel_byte(g), channel_byte(b)),
    ensures
        ValueView::Color(r, g, b, a, None).format(OutputStyle::Compressed).len() <= 4,
{
}

/// A color with a source name is written as that name, in every style.
pub proof fn lemma_named_color(
    r: Ratio,
    g: Ratio,
    b: Ratio,
    a: Ratio,
    name: Seq<char>,
    style: OutputStyle,
)
    ensures
        ValueView::Color(r, g, b, a, Some(name)).format(style) == name,
{
}

/// An opaque color whose channels are multiples of 17 takes at most four
/// characters more than its source name in the compressed style.
pub proof fn lemma_color_length(r: Ratio, g: Ratio, b: Ratio, a: Ratio, name: Option<Seq<char>>)
    requires
        Ratio::from_int(1).le(a),
        is_short(channel_byte(r), channel_byte(g), channel_byte(b)),
    ensures
        ValueView::Color(r, g, b, a, name).format(OutputStyle::Compressed).len() <= 4 + (
        match name {
            Some(n) => n.len(),
            None => 0,
        }),
{
}

/// The visible texts of two runs of items, one after the other.
proof fn lemma_visible_concat(a: Seq<(bool, Seq<char>)>, b: Seq<(bool, Seq<char>)>)
    ensures
        visible(a + b) == visible(a) + visible(b),
    decreases b.len(),
{
    if b.len() > 0 {
        lemma_visible_concat(a, b.drop_last());
        assert((a + b).drop_last() =~= a + b.drop_last());
    }
}

/// Items that are all null have no visible text.
proof fn lemma_visible_nulls(a: Seq<(bool, Seq<char>)>)
    requires
        forall|i: int| 0 <= i < a.len() ==> (#[trigger] a[i]).0,
    ensures
        visible(a) == Seq::<Seq<char>>::empty(),
    decreases a.len(),
{
    if a.len() > 0 {
        lemma_visible_nulls(a.drop_last());
    }
}

/// A list without brackets whose items are all null is null itself, and
/// is written as nothing.
pub proof fn lemma_null_list(
    items: Seq<ValueView>,
    sep: ListSeparator,
    style: OutputStyle,
)
    requires
        forall|i: int| 0 <= i < items.len() ==> (#[trigger] items[i]).is_null(),
    ensures
        ValueView::List(items, sep, false).is_null(),
        ValueView::List(items, sep, false).format(style) == Seq::<char>::empty(),
{
    let infos = item_infos(items, sep, false, style);
    assert forall|i: int| 0 <= i < infos.len() implies (#[trigger] infos[i]).0 by {
    }
    lemma_visible_nulls(infos);
}

/// Inside another list a null value leaves no trace: the list is written
/// as if the value were not among its items.
pub proof fn lemma_null_item_vanishes(
    before: Seq<ValueView>,
    item: ValueView,
    after: Seq<ValueView>,
    sep: ListSeparator,
    bracketed: bool,
    style: OutputStyle,
)
    requires
        item.is_null(),
    ensures
        ValueView::List(before + seq![item] + after, sep, bracketed).format(style)
            == ValueView::List(before + after, sep, bracketed).format(style),
{
    let with = item_infos(before + seq![item] + after, sep, bracketed, style);
    let without = item_infos(before + after, sep, bracketed, style);
    let a = item_infos(before, sep, bracketed, style);
    let m = item_infos(seq![item], sep, bracketed, style);
    let b = item_infos(after, sep, bracketed, style);
    assert(with =~= a + m + b);
    assert(without =~= a + b);
    lemma_visible_concat(a + m, b);
    lemma_visible_concat(a, m);
    lemma_visible_concat(a, b);
    assert(visible(m.drop_last()) =~= seq![]);
}

impl ValueView {
    /// The value is fully evaluated for a scope and a context: it holds no
    /// variable, parenthesis or interpolation, every number that stands in
    /// arithmetic context is marked as calculated, no map has two equal
    /// keys, and a call, an operation or a division is left only where
    /// evaluation cannot resolve it.
    pub open spec fn is_evaluated(self, scope: ScopeView, arithmetic: bool) -> bool
        decreases self,
    {
        match self {
            ValueView::Paren(_) | ValueView::Variable(_) | ValueView::Interpolation(_) => false,
            ValueView::Numeric(_, _, _, calculated) => arithmetic ==> calculated,
            ValueView::List(items, _, _) => forall|i: int|
                0 <= i < items.len() ==> (#[trigger] items[i]).is_evaluated(scope, false),
            ValueView::Mapping(m) => distinct_keys(m) && forall|i: int|
                0 <= i < m.len() ==> (#[trigger] m[i]).0.is_evaluated(scope, false)
                    && m[i].1.is_evaluated(scope, false),
            ValueView::Call(name, args) => scope.function(name) is None && builtin(name) is None
                && forall|i: int|
                0 <= i < args.len() ==> (#[trigger] args[i]).1.is_evaluated(scope, true),
            ValueView::BinOp(a, op, b) => a.is_evaluated(scope, true) && b.is_evaluated(
                scope,
                true,
            ) && apply(op, *a, *b) == Ok::<ValueView, ErrorView>(self),
            ValueView::UnaryOp(op, a) => a.is_evaluated(scope, true) && unary(op, *a) == self,
            ValueView::Div(a, b, space1, space2) => a.is_evaluated(scope, arithmetic)
                && b.is_evaluated(scope, arithmetic || a.is_calculated()) && (!a.is_calculated()
                && b.is_calculated() ==> a.is_evaluated(scope, true)) && slash(
                *a,
                *b,
                space1,
                space2,
                arithmetic,
            ) == self,
            _ => true,
        }
    }
}

/// Evaluation leaves a fully evaluated value as it is.
pub proof fn lemma_evaluation_idempotent(v: ValueView, scope: ScopeView, arithmetic: bool)
    requires
        v.is_evaluated(scope, arithmetic),
    ensures
        v.eval(scope, arithmetic) == Ok::<ValueView, ErrorView>(v),
    decreases v, 0nat,
{
    match v {
        ValueView::List(items, sep, bracketed) => {
            lemma_items_idempotent(items, scope, items.len());
            assert(items.take(items.len() as int) =~= items);
        },
        ValueView::Mapping(m) => {
            lemma_entries_idempotent(m, scope, m.len());
            assert(m.take(m.len() as int) =~= m);
            lemma_gathered_same(m, m.len());
        },
        ValueView::Call(name, args) => {
            lemma_args_idempotent(args, scope, args.len());
            assert(args.take(args.len() as int) =~= args);
        },
        ValueView::BinOp(a, op, b) => {
            lemma_evaluation_idempotent(*a, scope, true);
            lemma_evaluation_idempotent(*b, scope, true);
        },
        ValueView::UnaryOp(op, a) => {
            lemma_evaluation_idempotent(*a, scope, true);
        },
        ValueView::Div(a, b, space1, space2) => {
            lemma_evaluation_idempotent(*a, scope, arithmetic);
            lemma_evaluation_idempotent(*b, scope, arithmetic || a.is_calculated());
            if !a.is_calculated() && b.is_calculated() {
                lemma_evaluation_idempotent(*a, scope, true);
            }
        },
        _ => {},
    }
}

/// Evaluation leaves fully evaluated items as they are.
proof fn lemma_items_idempotent(items: Seq<ValueView>, scope: ScopeView, n: nat)
    requires
        n <= items.len(),
        forall|i: int| 0 <= i < items.len() ==> (#[trigger] items[i]).is_evaluated(scope, false),
    ensures
        eval_items(items, scope, n) == Ok::<Seq<ValueView>, ErrorView>(items.take(n as int)),
    decreases items, n,
{
    if n == 0 {
        assert(items.take(0) =~= seq![]);
    } else {
        lemma_items_idempotent(items, scope, (n - 1) as nat);
        lemma_evaluation_idempotent(items[n - 1], scope, false);
        assert(items.take(n as int) =~= items.take(n - 1).push(items[n - 1]));
    }
}

/// Evaluation leaves fully evaluated entries of a map as they are.
proof fn lemma_entries_idempotent(m: Seq<(ValueView, ValueView)>, scope: ScopeView, n: nat)
    requires
        n <= m.len(),
        forall|i: int|
            0 <= i < m.len() ==> (#[trigger] m[i]).0.is_evaluated(scope, false)
                && m[i].1.is_evaluated(scope, false),
    ensures
        eval_entries(m, scope, n) == Ok::<Seq<(ValueView, ValueView)>, ErrorView>(
            m.take(n as int),
        ),
    decreases m, n,
{
    if n == 0 {
        assert(m.take(0) =~= seq![]);
    } else {
        lemma_entries_idempotent(m, scope, (n - 1) as nat);
        lemma_evaluation_idempotent(m[n - 1].0, scope, false);
        lemma_evaluation_idempotent(m[n - 1].1, scope, false);
        assert(m.take(n as int) =~= m.take(n - 1).push(m[n - 1]));
    }
}

/// Evaluation leaves fully evaluated arguments as they are.
proof fn lemma_args_idempotent(
    args: Seq<(Option<Seq<char>>, ValueView)>,
    scope: ScopeView,
    n: nat,
)
    requires
        n <= args.len(),
        forall|i: int| 0 <= i < args.len() ==> (#[trigger] args[i]).1.is_evaluated(scope, true),
    ensures
        eval_args(args, scope, n) == Ok::<Seq<(Option<Seq<char>>, ValueView)>, ErrorView>(
            args.take(n as int),
        ),
    decreases args, n,
{
    if n == 0 {
        assert(args.take(0) =~= seq![]);
    } else {
        lemma_args_idempotent(args, scope, (n - 1) as nat);
        lemma_evaluation_idempotent(args[n - 1].1, scope, true);
        assert(args.take(n as int) =~= args.take(n - 1).push(args[n - 1]));
    }
}

/// The map that evaluation gives has no two equal keys.
pub proof fn lemma_evaluated_map(m: Seq<(ValueView, ValueView)>, scope: ScopeView, arithmetic: bool)
    ensures
        ValueView::Mapping(m).eval(scope, arithmetic) matches Ok(w) ==> w is Mapping
            && distinct_keys(w->Mapping_0),
{
    if let Ok(vs) = eval_entries(m, scope, m.len()) {
        lemma_gathered_distinct(vs, vs.len());
    }
}

impl ValueView {
    /// The value is made of results alone: numbers, colors, strings,
    /// functions, true, false and null, and lists and maps of such values,
    /// the maps without equal keys.
    pub open spec fn is_plain(self) -> bool
        decreases self,
    {
        match self {
            ValueView::Numeric(_, _, _, _)
            | ValueView::Color(_, _, _, _, _)
            | ValueView::Literal(_, _)
            | ValueView::Function(_, _)
            | ValueView::Null
            | ValueView::True
            | ValueView::False => true,
            ValueView::List(items, _, _) => forall|i: int|
                0 <= i < items.len() ==> (#[trigger] items[i]).is_plain(),
            ValueView::Mapping(m) => distinct_keys(m) && forall|i: int|
                0 <= i < m.len() ==> (#[trigger] m[i]).0.is_plain() && m[i].1.is_plain(),
            _ => false,
        }
    }
}

/// A value made of results alone is fully evaluated, in every scope.
pub proof fn lemma_plain_is_evaluated(v: ValueView, scope: ScopeView)
    requires
        v.is_plain(),
    ensures
        v.is_evaluated(scope, false),
    decreases v,
{
    match v {
        ValueView::List(items, _, _) => {
            assert forall|i: int| 0 <= i < items.len() implies (#[trigger] items[i]).is_evaluated(
                scope,
                false,
            ) by {
                lemma_plain_is_evaluated(items[i], scope);
            }
        },
        ValueView::Mapping(m) => {
            assert forall|i: int| 0 <= i < m.len() implies (#[trigger] m[i]).0.is_evaluated(
                scope,
                false,
            ) && m[i].1.is_evaluated(scope, false) by {
                lemma_plain_is_evaluated(m[i].0, scope);
                lemma_plain_is_evaluated(m[i].1, scope);
            }
        },
        _ => {},
    }
}

/// Evaluation leaves a value made of results alone as it is, whatever the
/// scope holds.
pub proof fn lemma_plain_evaluation(v: ValueView, scope: ScopeView)
    requires
        v.is_plain(),
    ensures
        v.eval(scope, false) == Ok::<ValueView, ErrorView>(v),
{
    lemma_plain_is_evaluated(v, scope);
    lemma_evaluation_idempotent(v, scope, false);
}

/// The sum of three fractions does not depend on how they are grouped.
pub proof fn lemma_add_associative(a: Ratio, b: Ratio, c: Ratio)
    requires
        a.wf(),
        b.wf(),
        c.wf(),
    ensures
        a.add(b).add(c) == a.add(b.add(c)),
{
    let s = a.add(b);
    let t = b.add(c);
    assert(a.den * b.den > 0) by (nonlinear_arith)
        requires
            a.den > 0,
            b.den > 0,
    ;
    assert(b.den * c.den > 0) by (nonlinear_arith)
        requires
            b.den > 0,
            c.den > 0,
    ;
    lemma_reduce(a.num * b.den + b.num * a.den, a.den * b.den);
    lemma_reduce(b.num * c.den + c.num * b.den, b.den * c.den);
    assert(s.den * c.den > 0) by (nonlinear_arith)
        requires
            s.den > 0,
            c.den > 0,
    ;
    assert(a.den * t.den > 0) by (nonlinear_arith)
        requires
            a.den > 0,
            t.den > 0,
    ;
    let n1 = s.num * c.den + c.num * s.den;
    let d1 = s.den * c.den;
    let n2 = a.num * t.den + t.num * a.den;
    let d2 = a.den * t.den;
    // Both sides times b.den are s.den * t.den times the sum over the
    // common denominator.
    let ab = a.den * b.den;
    let bc = b.den * c.den;
    let p = a.num * b.den + b.num * a.den;
    let q = b.num * c.den + c.num * b.den;
    lemma_regroup_left(s.num, c.den, c.num, s.den, a.den, t.den, b.den);
    lemma_factor(p, s.den, c.den, t.den, c.num * ab);
    lemma_common_numerator(a.num, a.den, b.num, b.den, c.num, c.den);
    lemma_regroup_right(a.num, t.den, t.num, a.den, s.den, c.den, b.den);
    lemma_factor(q, t.den, a.den, s.den, a.num * bc);
    assert(n1 * d2 == n2 * d1) by (nonlinear_arith)
        requires
            (n1 * d2) * b.den == (n2 * d1) * b.den,
            b.den > 0,
    ;
    lemma_reduce_same(n1, d1, n2, d2);
}

/// The numerator of a sum of three fractions over their common denominator,
/// grouped to the left and to the right.
proof fn lemma_common_numerator(an: int, a: int, bn: int, b: int, cn: int, c: int)
    ensures
        (an * b + bn * a) * c + cn * (a * b) == an * (b * c) + (bn * c + cn * b) * a,
{
    let x = an * b;
    let y = bn * a;
    assert((x + y) * c == x * c + y * c) by (nonlinear_arith);
    let u = bn * c;
    let v = cn * b;
    assert((u + v) * a == u * a + v * a) by (nonlinear_arith);
    assert(x * c == an * (b * c)) by (nonlinear_arith)
        requires
            x == an * b,
    ;
    assert(y * c == u * a) by (nonlinear_arith)
        requires
            y == bn * a,
            u == bn * c,
    ;
    assert(cn * (a * b) == v * a) by (nonlinear_arith)
        requires
            v == cn * b,
    ;
}

/// The sum grouped to the left, times the denominators of both groupings.
proof fn lemma_regroup_left(sn: int, c: int, cn: int, s: int, a: int, t: int, b: int)
    ensures
        ((sn * c + cn * s) * (a * t)) * b == (sn * (a * b)) * (c * t) + (cn * (a * b)) * (s * t),
{
    let m1 = sn * c;
    let m2 = cn * s;
    let u = a * t;
    assert((m1 + m2) * u == m1 * u + m2 * u) by (nonlinear_arith);
    assert((m1 * u + m2 * u) * b == (m1 * u) * b + (m2 * u) * b) by (nonlinear_arith);
    assert((m1 * u) * b == (sn * (a * b)) * (c * t)) by (nonlinear_arith)
        requires
            m1 == sn * c,
            u == a * t,
    ;
    assert((m2 * u) * b == (cn * (a * b)) * (s * t)) by (nonlinear_arith)
        requires
            m2 == cn * s,
            u == a * t,
    ;
}

/// The sum grouped to the right, times the denominators of both groupings.
proof fn lemma_regroup_right(an: int, t: int, tn: int, a: int, s: int, c: int, b: int)
    ensures
        ((an * t + tn * a) * (s * c)) * b == (tn * (b * c)) * (a * s) + (an * (b * c)) * (s * t),
{
    let m1 = an * t;
    let m2 = tn * a;
    let u = s * c;
    assert((m1 + m2) * u == m1 * u + m2 * u) by (nonlinear_arith);
    assert((m1 * u + m2 * u) * b == (m1 * u) * b + (m2 * u) * b) by (nonlinear_arith);
    assert((m1 * u) * b == (an * (b * c)) * (s * t)) by (nonlinear_arith)
        requires
            m1 == an * t,
            u == s * c,
    ;
    assert((m2 * u) * b == (tn * (b * c)) * (a * s)) by (nonlinear_arith)
        requires
            m2 == tn * a,
            u == s * c,
    ;
}

/// A common factor taken out of a sum of two products.
proof fn lemma_factor(p: int, s: int, c: int, t: int, k: int)
    ensures
        (p * s) * (c * t) + k * (s * t) == (s * t) * (p * c + k),
{
    assert((p * s) * (c * t) + k * (s * t) == (s * t) * (p * c + k)) by (nonlinear_arith);
}

/// The sum of two numbers with one unit, as the operator `+` gives it.
pub open spec fn sum(x: ValueView, y: ValueView) -> ValueView {
    apply(Operator::Plus, x, y)->Ok_0
}

/// The sum of two numbers with one unit is the number of that unit whose
/// fraction is the sum of theirs, where a number can hold that.
pub proof fn lemma_sum(x: ValueView, y: ValueView)
    requires
        x is Numeric,
        y is Numeric,
        x->Numeric_1 == y->Numeric_1,
        x->Numeric_0.add(y->Numeric_0).fits(),
    ensures
        apply(Operator::Plus, x, y) == Ok::<ValueView, ErrorView>(
            ValueView::Numeric(x->Numeric_0.add(y->Numeric_0), x->Numeric_1, false, true),
        ),
{
}

/// Sums of numbers with one unit do not depend on their grouping: where
/// every sum on the way can be held, `(x + y) + z` and `x + (y + z)` are the
/// same value, and `==` finds them equal.
pub proof fn lemma_sum_associative(x: ValueView, y: ValueView, z: ValueView)
    requires
        x.wf(),
        y.wf(),
        z.wf(),
        x is Numeric,
        y is Numeric,
        z is Numeric,
        x->Numeric_1 == y->Numeric_1,
        y->Numeric_1 == z->Numeric_1,
        x->Numeric_0.add(y->Numeric_0).fits(),
        y->Numeric_0.add(z->Numeric_0).fits(),
        x->Numeric_0.add(y->Numeric_0).add(z->Numeric_0).fits(),
    ensures
        sum(sum(x, y), z) == sum(x, sum(y, z)),
        apply(Operator::Equal, sum(sum(x, y), z), sum(x, sum(y, z))) == Ok::<
            ValueView,
            ErrorView,
        >(ValueView::True),
{
    let a = x->Numeric_0;
    let b = y->Numeric_0;
    let c = z->Numeric_0;
    lemma_add_associative(a, b, c);
    lemma_sum(x, y);
    lemma_sum(y, z);
    lemma_sum(sum(x, y), z);
    lemma_sum(x, sum(y, z));
}

/// A number in arithmetic context, as it is evaluated.
pub open spec fn in_sum(x: ValueView) -> ValueView {
    ValueView::Numeric(x->Numeric_0, x->Numeric_1, x->Numeric_2, true)
}

/// Sums of three numbers with one unit evaluate to the same number however
/// they are grouped, in every scope and context: the number of that unit
/// whose fraction is the sum of the three, where every sum on the way can
/// be held.
pub proof fn lemma_grouped_sums_evaluate_alike(
    x: ValueView,
    y: ValueView,
    z: ValueView,
    scope: ScopeView,
    arithmetic: bool,
)
    requires
        x.wf(),
        y.wf(),
        z.wf(),
        x is Numeric,
        y is Numeric,
        z is Numeric,
        x->Numeric_1 == y->Numeric_1,
        y->Numeric_1 == z->Numeric_1,
        x->Numeric_0.add(y->Numeric_0).fits(),
        y->Numeric_0.add(z->Numeric_0).fits(),
        x->Numeric_0.add(y->Numeric_0).add(z->Numeric_0).fits(),
    ensures
        ValueView::BinOp(
            Box::new(ValueView::BinOp(Box::new(x), Operator::Plus, Box::new(y))),
            Operator::Plus,
            Box::new(z),
        ).eval(scope, arithmetic) == Ok::<ValueView, ErrorView>(
            ValueView::Numeric(
                x->Numeric_0.add(y->Numeric_0).add(z->Numeric_0),
                x->Numeric_1,
                false,
                true,
            ),
        ),
        ValueView::BinOp(
            Box::new(x),
            Operator::Plus,
            Box::new(ValueView::BinOp(Box::new(y), Operator::Plus, Box::new(z))),
        ).eval(scope, arithmetic) == Ok::<ValueView, ErrorView>(
            ValueView::Numeric(
                x->Numeric_0.add(y->Numeric_0).add(z->Numeric_0),
                x->Numeric_1,
                false,
                true,
            ),
        ),
{
    let a = x->Numeric_0;
    let b = y->Numeric_0;
    let c = z->Numeric_0;
    lemma_add_associative(a, b, c);
    let left = ValueView::BinOp(Box::new(x), Operator::Plus, Box::new(y));
    let right = ValueView::BinOp(Box::new(y), Operator::Plus, Box::new(z));
    assert(x.eval(scope, true) == Ok::<ValueView, ErrorView>(in_sum(x)));
    assert(y.eval(scope, true) == Ok::<ValueView, ErrorView>(in_sum(y)));
    assert(z.eval(scope, true) == Ok::<ValueView, ErrorView>(in_sum(z)));
    lemma_sum(in_sum(x), in_sum(y));
    lemma_sum(in_sum(y), in_sum(z));
    assert(left.eval(scope, true) == apply(Operator::Plus, in_sum(x), in_sum(y)));
    assert(right.eval(scope, true) == apply(Operator::Plus, in_sum(y), in_sum(z)));
    lemma_sum(sum(in_sum(x), in_sum(y)), in_sum(z));
    lemma_sum(in_sum(x), sum(in_sum(y), in_sum(z)));
}

} // verus!
