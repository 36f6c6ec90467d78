//! Evaluation: from a value as it was written to the value that it stands
//! for in a scope.
use crate::arith::{apply, divide, divide_values, outcome};
use crate::error::{Error, ErrorView};
use crate::format::OutputStyle;
use crate::functions::{builtin, get_builtin_function};
use crate::mapping::gathered;
use crate::operator::Operator;
use crate::rational::fit;
use crate::value::{
    arg_models, dup_opt_text, entry_models, lemma_model_parts, models, opt_text, CallArgs, Quotes,
    Value, ValueView,
};
use crate::variablescope::{ScopeImpl, ScopeView};
use vstd::prelude::*;

verus! {

/// What a unary operator makes of an evaluated operand: `not` of a boolean
/// or a number is the opposite of its truth, and a number is always true;
/// `-` negates a number; `+` marks a number as written with a sign. The
/// operation on anything else, and a negation that no number can hold,
/// stays as it stands.
pub open spec fn unary(op: Operator, v: ValueView) -> ValueView {
    match (op, v) {
        (Operator::Not, ValueView::Numeric(..)) => ValueView::False,
        (Operator::Not, ValueView::True) => ValueView::False,
        (Operator::Not, ValueView::False) => ValueView::True,
        (Operator::Minus, ValueView::Numeric(q, u, _, _)) => match fit(q.neg()) {
            Some(n) => ValueView::Numeric(n, u, false, true),
            None => ValueView::UnaryOp(op, Box::new(v)),
        },
        (Operator::Plus, ValueView::Numeric(q, u, _, _)) => ValueView::Numeric(q, u, true, true),
        _ => ValueView::UnaryOp(op, Box::new(v)),
    }
}

/// What an interpolation makes of an evaluated and unquoted value: null
/// stays null, and everything else becomes an unquoted string, a string of
/// its own text and any other value of what it is written as.
pub open spec fn interpolated(v: ValueView) -> ValueView {
    match v {
        ValueView::Null => ValueView::Null,
        ValueView::Literal(s, _) => ValueView::Literal(s, Quotes::Unquoted),
        other => ValueView::Literal(other.format(OutputStyle::Expanded), Quotes::Unquoted),
    }
}

/// The outcome of a function, with an error wrapped as the failure of the
/// call.
pub open spec fn wrapped(name: Seq<char>, r: Result<ValueView, ErrorView>) -> Result<
    ValueView,
    ErrorView,
> {
    match r {
        Ok(v) => Ok(v),
        Err(e) => Err(ErrorView::BadCall { name: name, cause: Box::new(e) }),
    }
}

/// What a call gives for evaluated arguments: the result of the function
/// that the scope binds to the name, else of the built-in function of that
/// name, else the call as it stands.
pub open spec fn call_result(
    scope: ScopeView,
    name: Seq<char>,
    args: Seq<(Option<Seq<char>>, ValueView)>,
) -> Result<ValueView, ErrorView> {
    match scope.function(name) {
        Some(f) => wrapped(name, f.result(args)),
        None => match builtin(name) {
            Some(f) => wrapped(name, f.result(args)),
            None => Ok(ValueView::Call(name, args)),
        },
    }
}

/// What a division makes of its evaluated operands: an actual division in
/// arithmetic context or if an operand is calculated, and else the division
/// as it was written.
pub open spec fn slash(
    a: ValueView,
    b: ValueView,
    space1: bool,
    space2: bool,
    arithmetic: bool,
) -> ValueView {
    if arithmetic || a.is_calculated() || b.is_calculated() {
        divide(a, b, space1, space2)
    } else {
        ValueView::Div(Box::new(a), Box::new(b), space1, space2)
    }
}

impl ValueView {
    /// What the value stands for in a scope. `arithmetic` says that the
    /// value stands in parentheses or in an operation, where a slash
    /// divides.
    pub open spec fn eval(self, scope: ScopeView, arithmetic: bool) -> Result<
        ValueView,
        ErrorView,
    >
        decreases self, 0nat,
    {
        match self {
            ValueView::Paren(a) => a.eval(scope, true),
            ValueView::Variable(name) => Ok(scope.get(name).into_calculated()),
            ValueView::List(items, sep, bracketed) => match eval_items(
                items,
                scope,
                items.len(),
            ) {
                Ok(vs) => Ok(ValueView::List(vs, sep, bracketed)),
                Err(e) => Err(e),
            },
            ValueView::Call(name, args) => match eval_args(args, scope, args.len()) {
                Ok(vs) => call_result(scope, name, vs),
                Err(e) => Err(e),
            },
            ValueView::Div(a, b, space1, space2) => match a.eval(scope, arithmetic) {
                Ok(first) => match b.eval(scope, arithmetic || a.is_calculated()) {
                    Ok(right) => {
                        if !first.is_calculated() && right.is_calculated() {
                            match a.eval(scope, true) {
                                Ok(left) => Ok(slash(left, right, space1, space2, arithmetic)),
                                Err(e) => Err(e),
                            }
                        } else {
                            Ok(slash(first, right, space1, space2, arithmetic))
                        }
                    },
                    Err(e) => Err(e),
                },
                Err(e) => Err(e),
            },
            ValueView::Numeric(q, u, sign, calculated) => Ok(
                ValueView::Numeric(q, u, sign, arithmetic || calculated),
            ),
            ValueView::BinOp(a, op, b) => match a.eval(scope, true) {
                Ok(left) => match b.eval(scope, true) {
                    Ok(right) => apply(op, left, right),
                    Err(e) => Err(e),
                },
                Err(e) => Err(e),
            },
            ValueView::UnaryOp(op, a) => match a.eval(scope, true) {
                Ok(v) => Ok(unary(op, v)),
                Err(e) => Err(e),
            },
            ValueView::Interpolation(a) => match a.eval(scope, true) {
                Ok(v) => Ok(interpolated(v.unquote())),
                Err(e) => Err(e),
            },
            ValueView::Mapping(m) => match eval_entries(m, scope, m.len()) {
                Ok(vs) => Ok(ValueView::Mapping(gathered(vs, vs.len()))),
                Err(e) => Err(e),
            },
            other => Ok(other),
        }
    }
}

/// The first `n` items of a list, evaluated in order and outside arithmetic
/// context; the first error ends it.
pub open spec fn eval_items(items: Seq<ValueView>, scope: ScopeView, n: nat) -> Result<
    Seq<ValueView>,
    ErrorView,
>
    decreases items, n,
{
    if n == 0 || n > items.len() {
        Ok(seq![])
    } else {
        match eval_items(items, scope, (n - 1) as nat) {
            Ok(vs) => match items[n - 1].eval(scope, false) {
                Ok(v) => Ok(vs.push(v)),
                Err(e) => Err(e),
            },
            Err(e) => Err(e),
        }
    }
}

/// The first `n` arguments of a call, evaluated in order and in arithmetic
/// context; the first error ends it.
pub open spec fn eval_args(args: Seq<(Option<Seq<char>>, ValueView)>, scope: ScopeView, n: nat)
    -> Result<Seq<(Option<Seq<char>>, ValueView)>, ErrorView>
    decreases args, n,
{
    if n == 0 || n > args.len() {
        Ok(seq![])
    } else {
        match eval_args(args, scope, (n - 1) as nat) {
            Ok(vs) => match args[n - 1].1.eval(scope, true) {
                Ok(v) => Ok(vs.push((args[n - 1].0, v))),
                Err(e) => Err(e),
            },
            Err(e) => Err(e),
        }
    }
}

/// The first `n` entries of a mapping, key and value evaluated in order and
/// outside arithmetic context; the first error ends it.
pub open spec fn eval_entries(m: Seq<(ValueView, ValueView)>, scope: ScopeView, n: nat) -> Result<
    Seq<(ValueView, ValueView)>,
    ErrorView,
>
    decreases m, n,
{
    if n == 0 || n > m.len() {
        Ok(seq![])
    } else {
        match eval_entries(m, scope, (n - 1) as nat) {
            Ok(vs) => match m[n - 1].0.eval(scope, false) {
                Ok(k) => match m[n - 1].1.eval(scope, false) {
                    Ok(v) => Ok(vs.push((k, v))),
                    Err(e) => Err(e),
                },
                Err(e) => Err(e),
            },
            Err(e) => Err(e),
        }
    }
}

/// The executable form of [`eval_items`].
fn eval_list(items: &Vec<Value>, scope: &ScopeImpl) -> (r: Result<Vec<Value>, Error>)
    ensures
        match r {
            Ok(vs) => eval_items(models(items@), scope@, items.len() as nat) == Ok::<
                Seq<ValueView>,
                ErrorView,
            >(models(vs@)),
            Err(e) => eval_items(models(items@), scope@, items.len() as nat) == Err::<
                Seq<ValueView>,
                ErrorView,
            >(e@),
        },
    decreases items,
{
    let mut out: Vec<Value> = Vec::new();
    let mut i: usize = 0;
    assert(models(out@) =~= seq![]);
    while i < items.len()
        invariant
            i <= items.len(),
            eval_items(models(items@), scope@, i as nat) == Ok::<Seq<ValueView>, ErrorView>(
                models(out@),
            ),
        decreases items.len() - i,
    {
        let ghost before = models(out@);
        match items[i].do_evaluate(scope, false) {
            Ok(v) => {
                out.push(v);
                assert(models(out@) =~= before.push(v@));
            },
            Err(e) => {
                proof {
                    lemma_items_error(models(items@), scope@, (i + 1) as nat, items.len() as nat);
                }
                return Err(e);
            },
        }
        i += 1;
    }
    Ok(out)
}

/// The executable form of [`eval_args`].
pub(crate) fn eval_call_args(args: &CallArgs, scope: &ScopeImpl) -> (r: Result<CallArgs, Error>)
    ensures
        match r {
            Ok(vs) => eval_args(arg_models(args@), scope@, args.len() as nat) == Ok::<
                Seq<(Option<Seq<char>>, ValueView)>,
                ErrorView,
            >(arg_models(vs@)),
            Err(e) => eval_args(arg_models(args@), scope@, args.len() as nat) == Err::<
                Seq<(Option<Seq<char>>, ValueView)>,
                ErrorView,
            >(e@),
        },
    decreases args,
{
    let mut out: CallArgs = Vec::new();
    let mut i: usize = 0;
    assert(arg_models(out@) =~= seq![]);
    while i < args.len()
        invariant
            i <= args.len(),
            eval_args(arg_models(args@), scope@, i as nat) == Ok::<
                Seq<(Option<Seq<char>>, ValueView)>,
                ErrorView,
            >(arg_models(out@)),
        decreases args.len() - i,
    {
        let ghost before = arg_models(out@);
        match args[i].1.do_evaluate(scope, true) {
            Ok(v) => {
                let name = dup_opt_text(&args[i].0);
                out.push((name, v));
                assert(arg_models(out@) =~= before.push((opt_text(args[i as int].0), v@)));
            },
            Err(e) => {
                proof {
                    lemma_args_error(
                        arg_models(args@),
                        scope@,
                        (i + 1) as nat,
                        args.len() as nat,
                    );
                }
                return Err(e);
            },
        }
        i += 1;
    }
    Ok(out)
}

/// The executable form of [`eval_entries`].
fn eval_mapping(m: &Vec<(Value, Value)>, scope: &ScopeImpl) -> (r: Result<
    Vec<(Value, Value)>,
    Error,
>)
    ensures
        match r {
            Ok(vs) => eval_entries(entry_models(m@), scope@, m.len() as nat) == Ok::<
                Seq<(ValueView, ValueView)>,
                ErrorView,
            >(entry_models(vs@)),
            Err(e) => eval_entries(entry_models(m@), scope@, m.len() as nat) == Err::<
                Seq<(ValueView, ValueView)>,
                ErrorView,
            >(e@),
        },
    decreases m,
{
    let mut out: Vec<(Value, Value)> = Vec::new();
    let mut i: usize = 0;
    assert(entry_models(out@) =~= seq![]);
    while i < m.len()
        invariant
            i <= m.len(),
            eval_entries(entry_models(m@), scope@, i as nat) == Ok::<
                Seq<(ValueView, ValueView)>,
                ErrorView,
            >(entry_models(out@)),
        decreases m.len() - i,
    {
        let ghost before = entry_models(out@);
        match m[i].0.do_evaluate(scope, false) {
            Ok(k) => match m[i].1.do_evaluate(scope, false) {
                Ok(v) => {
                    let ghost pair = (k@, v@);
                    out.push((k, v));
                    assert(entry_models(out@) =~= before.push(pair));
                },
                Err(e) => {
                    proof {
                        lemma_entries_error(
                            entry_models(m@),
                            scope@,
                            (i + 1) as nat,
                            m.len() as nat,
                        );
                    }
                    return Err(e);
                },
            },
            Err(e) => {
                proof {
                    lemma_entries_error(entry_models(m@), scope@, (i + 1) as nat, m.len() as nat);
                }
                return Err(e);
            },
        }
        i += 1;
    }
    Ok(out)
}

/// An error among the first items is the error of any longer run of them.
proof fn lemma_items_error(items: Seq<ValueView>, scope: ScopeView, n: nat, m: nat)
    requires
        n <= m <= items.len(),
        eval_items(items, scope, n) is Err,
    ensures
        eval_items(items, scope, m) == eval_items(items, scope, n),
    decreases m,
{
    if n < m {
        lemma_items_error(items, scope, n, (m - 1) as nat);
    }
}

/// An error among the first arguments is the error of any longer run of
/// them.
proof fn lemma_args_error(
    args: Seq<(Option<Seq<char>>, ValueView)>,
    scope: ScopeView,
    n: nat,
    m: nat,
)
    requires
        n <= m <= args.len(),
        eval_args(args, scope, n) is Err,
    ensures
        eval_args(args, scope, m) == eval_args(args, scope, n),
    decreases m,
{
    if n < m {
        lemma_args_error(args, scope, n, (m - 1) as nat);
    }
}

/// An error among the first entries is the error of any longer run of them.
proof fn lemma_entries_error(m: Seq<(ValueView, ValueView)>, scope: ScopeView, n: nat, k: nat)
    requires
        n <= k <= m.len(),
        eval_entries(m, scope, n) is Err,
    ensures
        eval_entries(m, scope, k) == eval_entries(m, scope, n),
    decreases k,
{
    if n < k {
        lemma_entries_error(m, scope, n, (k - 1) as nat);
    }
}

/// The executable form of [`wrapped`].
fn wrap(name: &String, r: Result<Value, Error>) -> (w: Result<Value, Error>)
    ensures
        outcome(w) == wrapped(name@, outcome(r)),
{
    match r {
        Ok(v) => Ok(v),
        Err(e) => Err(Error::bad_call(name.as_str(), e)),
    }
}

/// The executable form of [`call_result`].
fn call_function(scope: &ScopeImpl, name: &String, args: CallArgs) -> (r: Result<Value, Error>)
    ensures
        outcome(r) == call_result(scope@, name@, arg_models(args@)),
{
    match scope.get_function(name.as_str()) {
        Some(f) => wrap(name, f.call(&args)),
        None => match get_builtin_function(name.as_str()) {
            Some(f) => wrap(name, f.call(&args)),
            None => {
                let v = Value::Call(name.clone(), args);
                proof {
                    lemma_model_parts(v);
                }
                Ok(v)
            },
        },
    }
}

/// The executable form of [`unary`].
fn unary_value(op: Operator, v: Value) -> (r: Value)
    ensures
        r@ == unary(op, v@),
{
    match (op, v) {
        (Operator::Not, Value::Numeric(..)) => Value::False,
        (Operator::Not, Value::True) => Value::False,
        (Operator::Not, Value::False) => Value::True,
        (Operator::Minus, Value::Numeric(q, u, s, c)) => match q.checked_neg() {
            Some(n) => Value::Numeric(n, u, false, true),
            None => Value::UnaryOp(op, Box::new(Value::Numeric(q, u, s, c))),
        },
        (Operator::Plus, Value::Numeric(q, u, _, _)) => Value::Numeric(q, u, true, true),
        (op, v) => Value::UnaryOp(op, Box::new(v)),
    }
}

/// What an interpolation makes of an evaluated and unquoted value: see
/// [`interpolated`].
pub fn interpolate(v: Value) -> (r: Value)
    ensures
        r@ == interpolated(v@),
{
    match v {
        Value::Null => Value::Null,
        Value::Literal(s, _) => Value::Literal(s, Quotes::Unquoted),
        other => Value::Literal(other.format(OutputStyle::Expanded), Quotes::Unquoted),
    }
}

/// The executable form of [`slash`].
fn slash_values(a: Value, b: Value, space1: bool, space2: bool, arithmetic: bool) -> (r: Value)
    ensures
        r@ == slash(a@, b@, space1, space2, arithmetic),
{
    if arithmetic || a.is_calculated() || b.is_calculated() {
        divide_values(a, b, space1, space2)
    } else {
        Value::Div(Box::new(a), Box::new(b), space1, space2)
    }
}

impl Value {
    /// What the value stands for in a scope, outside arithmetic context.
    pub fn evaluate(&self, scope: &ScopeImpl) -> (r: Result<Value, Error>)
        ensures
            outcome(r) == self@.eval(scope@, false),
    {
        self.do_evaluate(scope, false)
    }

    /// What the value stands for in a scope. `arithmetic` says that the
    /// value stands in parentheses or in an operation, where a slash
    /// divides.
    pub fn do_evaluate(&self, scope: &ScopeImpl, arithmetic: bool) -> (r: Result<Value, Error>)
        ensures
            outcome(r) == self@.eval(scope@, arithmetic),
        decreases self,
    {
        match self {
            Value::Paren(v) => v.do_evaluate(scope, true),
            Value::Variable(name) => Ok(scope.get(name.as_str()).into_calculated()),
            Value::List(v, sep, bracketed) => {
                proof {
                    lemma_model_parts(*self);
                }
                match eval_list(v, scope) {
                    Ok(vs) => {
                        let r = Value::List(vs, *sep, *bracketed);
                        proof {
                            lemma_model_parts(r);
                        }
                        Ok(r)
                    },
                    Err(e) => Err(e),
                }
            },
            Value::Call(name, args) => {
                proof {
                    lemma_model_parts(*self);
                }
                match eval_call_args(args, scope) {
                    Ok(vs) => call_function(scope, name, vs),
                    Err(e) => Err(e),
                }
            },
            Value::Div(a, b, space1, space2) => {
                let first = match a.do_evaluate(scope, arithmetic) {
                    Ok(v) => v,
                    Err(e) => {
                        return Err(e);
                    },
                };
                let right = match b.do_evaluate(scope, arithmetic || a.is_calculated()) {
                    Ok(v) => v,
                    Err(e) => {
                        return Err(e);
                    },
                };
                if !first.is_calculated() && right.is_calculated() {
                    match a.do_evaluate(scope, true) {
                        Ok(left) => Ok(slash_values(left, right, *space1, *space2, arithmetic)),
                        Err(e) => Err(e),
                    }
                } else {
                    Ok(slash_values(first, right, *space1, *space2, arithmetic))
                }
            },
            Value::Numeric(v, u, sign, calculated) => Ok(
                Value::Numeric(*v, u.dup(), *sign, arithmetic || *calculated),
            ),
            Value::BinOp(a, op, b) => {
                let left = match a.do_evaluate(scope, true) {
                    Ok(v) => v,
                    Err(e) => {
                        return Err(e);
                    },
                };
                let right = match b.do_evaluate(scope, true) {
                    Ok(v) => v,
                    Err(e) => {
                        return Err(e);
                    },
                };
                op.eval(left, right)
            },
            Value::UnaryOp(op, v) => match v.do_evaluate(scope, true) {
                Ok(value) => Ok(unary_value(*op, value)),
                Err(e) => Err(e),
            },
            Value::Interpolation(v) => match v.do_evaluate(scope, true) {
                Ok(value) => Ok(interpolate(value.unquote())),
                Err(e) => Err(e),
            },
            Value::Mapping(m) => {
                proof {
                    lemma_model_parts(*self);
                }
                match eval_mapping(m, scope) {
                    Ok(vs) => Ok(Value::mapping(&vs)),
                    Err(e) => Err(e),
                }
            },
            other => Ok(other.dup()),
        }
    }
}

impl ScopeImpl {
    /// What the value stands for in this scope, outside arithmetic context.
    pub fn evaluate(&mut self, val: &Value) -> (r: Result<Value, Error>)
        ensures
            outcome(r) == val@.eval(old(self)@, false),
            final(self)@ == old(self)@,
    {
        val.do_evaluate(self, false)
    }

    /// Binds a variable: the value is evaluated in this scope, in
    /// arithmetic context, and bound here or, if `global`, in the outermost
    /// scope. After an error the scope is as it was.
    pub fn define(&mut self, name: &str, val: &Value, global: bool) -> (r: Result<(), Error>)
        ensures
            match r {
                Ok(_) => old(self)@.define(name@, val@, global) == Ok::<ScopeView, ErrorView>(
                    final(self)@,
                ),
                Err(e) => old(self)@.define(name@, val@, global) == Err::<ScopeView, ErrorView>(
                    e@,
                ) && final(self)@ == old(self)@,
            },
            old(self)@.unique_names() ==> final(self)@.unique_names(),
    {
        match val.do_evaluate(self, true) {
            Ok(v) => {
                self.set(name, v, global);
                Ok(())
            },
            Err(e) => Err(e),
        }
    }

    /// Binds a variable as `define` does, if it is `Null` so far; else the
    /// scope stays as it is.
    pub fn define_default(&mut self, name: &str, val: &Value, global: bool) -> (r: Result<
        (),
        Error,
    >)
        ensures
            match r {
                Ok(_) => old(self)@.define_default(name@, val@, global) == Ok::<
                    ScopeView,
                    ErrorView,
                >(final(self)@),
                Err(e) => old(self)@.define_default(name@, val@, global) == Err::<
                    ScopeView,
                    ErrorView,
                >(e@) && final(self)@ == old(self)@,
            },
            old(self)@.unique_names() ==> final(self)@.unique_names(),
    {
        let current = self.get(name);
        match current {
            Value::Null => self.define(name, val, global),
            _ => Ok(()),
        }
    }
}

} // verus!
