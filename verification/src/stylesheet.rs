//! The statements of a stylesheet.
use crate::sass::{SassString, SassStringView};
use crate::value::{arg_models, dup_opt_text, opt_text, CallArgs, Value, ValueView};
use vstd::prelude::*;

verus! {

/// The parameters of a mixin: each a name, and the value that it has where
/// a call gives none. `Null` stands for no such value.
pub type FormalArgs = Vec<(String, Value)>;

/// A statement of a stylesheet.
#[derive(Debug, PartialEq, Eq)]
pub enum Item {
    /// `$name: value`, with the flags `!default` and `!global`.
    VariableDeclaration(String, Value, bool, bool),
    /// Selectors and the statements in their braces.
    Rule(SassString, Vec<Item>),
    /// `name: value`.
    Property(SassString, Value),
    /// `name: value { .. }`: properties whose names go on the name.
    NamespaceRule(SassString, Value, Vec<Item>),
    /// `@mixin`: a name, parameters and statements.
    MixinDeclaration(String, FormalArgs, Vec<Item>),
    /// `@include`: the name of a mixin and arguments.
    MixinCall(String, CallArgs),
    /// `@if`: a condition, the statements for where it holds, and those for
    /// where it does not.
    IfStatement(Value, Vec<Item>, Vec<Item>),
    /// `@warn`: a message, which leaves no trace in the output.
    Warn(Value),
}

/// The model of an [`Item`].
pub enum ItemView {
    VariableDeclaration(Seq<char>, ValueView, bool, bool),
    Rule(SassStringView, Seq<ItemView>),
    Property(SassStringView, ValueView),
    NamespaceRule(SassStringView, ValueView, Seq<ItemView>),
    MixinDeclaration(Seq<char>, Seq<(Seq<char>, ValueView)>, Seq<ItemView>),
    MixinCall(Seq<char>, Seq<(Option<Seq<char>>, ValueView)>),
    IfStatement(ValueView, Seq<ItemView>, Seq<ItemView>),
    Warn(ValueView),
}

/// The models of the parameters of a mixin.
pub open spec fn formal_models(args: Seq<(String, Value)>) -> Seq<(Seq<char>, ValueView)> {
    Seq::new(args.len(), |i: int| (args[i].0@, args[i].1@))
}

impl Item {
    /// The model of the statement.
    pub open spec fn model(&self) -> ItemView
        decreases self,
    {
        match self {
            Item::VariableDeclaration(name, val, default, global) => ItemView::VariableDeclaration(
                name@,
                val@,
                *default,
                *global,
            ),
            Item::Rule(selectors, body) => ItemView::Rule(
                selectors@,
                Seq::new(
                    body.len() as nat,
                    |i: int|
                        if 0 <= i < body.len() {
                            body[i].model()
                        } else {
                            ItemView::Warn(ValueView::Null)
                        },
                ),
            ),
            Item::Property(name, val) => ItemView::Property(name@, val@),
            Item::NamespaceRule(name, val, body) => ItemView::NamespaceRule(
                name@,
                val@,
                Seq::new(
                    body.len() as nat,
                    |i: int|
                        if 0 <= i < body.len() {
                            body[i].model()
                        } else {
                            ItemView::Warn(ValueView::Null)
                        },
                ),
            ),
            Item::MixinDeclaration(name, args, body) => ItemView::MixinDeclaration(
                name@,
                formal_models(args@),
                Seq::new(
                    body.len() as nat,
                    |i: int|
                        if 0 <= i < body.len() {
                            body[i].model()
                        } else {
                            ItemView::Warn(ValueView::Null)
                        },
                ),
            ),
            Item::MixinCall(name, args) => ItemView::MixinCall(name@, arg_models(args@)),
            Item::IfStatement(cond, then, other) => ItemView::IfStatement(
                cond@,
                Seq::new(
                    then.len() as nat,
                    |i: int|
                        if 0 <= i < then.len() {
                            then[i].model()
                        } else {
                            ItemView::Warn(ValueView::Null)
                        },
                ),
                Seq::new(
                    other.len() as nat,
                    |i: int|
                        if 0 <= i < other.len() {
                            other[i].model()
                        } else {
                            ItemView::Warn(ValueView::Null)
                        },
                ),
            ),
            Item::Warn(v) => ItemView::Warn(v@),
        }
    }
}

impl View for Item {
    type V = ItemView;

    open spec fn view(&self) -> ItemView {
        self.model()
    }
}

/// The models of statements.
pub open spec fn item_models(items: Seq<Item>) -> Seq<ItemView> {
    Seq::new(items.len(), |i: int| items[i]@)
}

/// The model of a statement with statements in it is made of their models.
pub proof fn lemma_item_parts(item: Item)
    ensures
        item matches Item::Rule(s, body) ==> item@ == ItemView::Rule(s@, item_models(body@)),
        item matches Item::NamespaceRule(n, v, body) ==> item@ == ItemView::NamespaceRule(
            n@,
            v@,
            item_models(body@),
        ),
        item matches Item::MixinDeclaration(n, a, body) ==> item@ == ItemView::MixinDeclaration(
            n@,
            formal_models(a@),
            item_models(body@),
        ),
        item matches Item::IfStatement(c, then, other) ==> item@ == ItemView::IfStatement(
            c@,
            item_models(then@),
            item_models(other@),
        ),
{
    match item {
        Item::Rule(s, body) => {
            assert(item@->Rule_1 =~= item_models(body@));
        },
        Item::NamespaceRule(n, v, body) => {
            assert(item@->NamespaceRule_2 =~= item_models(body@));
        },
        Item::MixinDeclaration(n, a, body) => {
            assert(item@->MixinDeclaration_2 =~= item_models(body@));
        },
        Item::IfStatement(c, then, other) => {
            assert(item@->IfStatement_1 =~= item_models(then@));
            assert(item@->IfStatement_2 =~= item_models(other@));
        },
        _ => {},
    }
}

/// A copy of the arguments of a call.
pub fn dup_args(args: &CallArgs) -> (r: CallArgs)
    ensures
        arg_models(r@) == arg_models(args@),
{
    let mut out: CallArgs = Vec::new();
    let mut i: usize = 0;
    while i < args.len()
        invariant
            i <= args.len(),
            out.len() == i,
            forall|j: int|
                0 <= j < i ==> opt_text(out[j].0) == opt_text(args[j].0) && out[j].1@
                    == args[j].1@,
        decreases args.len() - i,
    {
        out.push((dup_opt_text(&args[i].0), args[i].1.dup()));
        i += 1;
    }
    out
}

/// A copy of the parameters of a mixin.
pub fn dup_formals(args: &FormalArgs) -> (r: FormalArgs)
    ensures
        formal_models(r@) == formal_models(args@),
{
    let mut out: FormalArgs = Vec::new();
    let mut i: usize = 0;
    while i < args.len()
        invariant
            i <= args.len(),
            out.len() == i,
            forall|j: int| 0 <= j < i ==> out[j].0@ == args[j].0@ && out[j].1@ == args[j].1@,
        decreases args.len() - i,
    {
        out.push((args[i].0.clone(), args[i].1.dup()));
        i += 1;
    }
    out
}

/// A copy of statements.
pub fn dup_items(items: &Vec<Item>) -> (r: Vec<Item>)
    ensures
        item_models(r@) == item_models(items@),
    decreases items,
{
    let mut out: Vec<Item> = Vec::new();
    let mut i: usize = 0;
    while i < items.len()
        invariant
            i <= items.len(),
            out.len() == i,
            forall|j: int| 0 <= j < i ==> out[j]@ == items[j]@,
        decreases items.len() - i,
    {
        out.push(items[i].dup());
        i += 1;
    }
    out
}

impl Item {
    /// A copy of the statement.
    pub fn dup(&self) -> (r: Item)
        ensures
            r@ == self@,
        decreases self,
    {
        proof {
            lemma_item_parts(*self);
        }
        let r = match self {
            Item::VariableDeclaration(name, val, default, global) => Item::VariableDeclaration(
                name.clone(),
                val.dup(),
                *default,
                *global,
            ),
            Item::Rule(selectors, body) => Item::Rule(selectors.dup(), dup_items(body)),
            Item::Property(name, val) => Item::Property(name.dup(), val.dup()),
            Item::NamespaceRule(name, val, body) => Item::NamespaceRule(
                name.dup(),
                val.dup(),
                dup_items(body),
            ),
            Item::MixinDeclaration(name, args, body) => Item::MixinDeclaration(
                name.clone(),
                dup_formals(args),
                dup_items(body),
            ),
            Item::MixinCall(name, args) => Item::MixinCall(name.clone(), dup_args(args)),
            Item::IfStatement(cond, then, other) => Item::IfStatement(
                cond.dup(),
                dup_items(then),
                dup_items(other),
            ),
            Item::Warn(v) => Item::Warn(v.dup()),
        };
        proof {
            lemma_item_parts(r);
        }
        r
    }
}

impl Clone for Item {
    fn clone(&self) -> (r: Item)
        ensures
            r@ == self@,
    {
        self.dup()
    }
}

/// A mixin: its name, its parameters and its statements.
#[derive(Debug, PartialEq, Eq)]
pub struct MixinDeclaration {
    pub name: String,
    pub args: FormalArgs,
    pub body: Vec<Item>,
}

/// The model of a [`MixinDeclaration`].
pub struct MixinView {
    pub name: Seq<char>,
    pub args: Seq<(Seq<char>, ValueView)>,
    pub body: Seq<ItemView>,
}

impl View for MixinDeclaration {
    type V = MixinView;

    open spec fn view(&self) -> MixinView {
        MixinView {
            name: self.name@,
            args: formal_models(self.args@),
            body: item_models(self.body@),
        }
    }
}

impl MixinDeclaration {
    /// A copy of the mixin.
    pub fn dup(&self) -> (r: MixinDeclaration)
        ensures
            r@ == self@,
    {
        MixinDeclaration {
            name: self.name.clone(),
            args: dup_formals(&self.args),
            body: dup_items(&self.body),
        }
    }
}

impl Clone for MixinDeclaration {
    fn clone(&self) -> (r: MixinDeclaration)
        ensures
            r@ == self@,
    {
        self.dup()
    }
}

} // verus!
