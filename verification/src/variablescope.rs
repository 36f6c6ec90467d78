//! A scope is something that contains variable values.
use crate::arith::outcome;
use crate::error::{Error, ErrorView};
use crate::functions::{fold_name, folded, key_name, keyed, SassFunction};
use crate::stylesheet::{MixinDeclaration, MixinView};
use crate::text::same_text;
use crate::value::{Value, ValueView};
use vstd::prelude::*;

verus! {

/// The model of a scope: what it binds itself, and the scope around it.
/// The names are kept as they are compared.
pub struct ScopeView {
    pub parent: Option<Box<ScopeView>>,
    pub variables: Seq<(Seq<char>, ValueView)>,
    pub functions: Seq<(Seq<char>, SassFunction)>,
    pub mixins: Seq<(Seq<char>, MixinView)>,
}

/// The place of the first entry for `key`, from `from` on.
pub open spec fn find<V>(table: Seq<(Seq<char>, V)>, key: Seq<char>, from: int) -> Option<int>
    decreases table.len() - from,
{
    if from < 0 || from >= table.len() {
        None
    } else if table[from].0 == key {
        Some(from)
    } else {
        find(table, key, from + 1)
    }
}

/// The table with `key` bound to `v`: in place of the entry that it had, or
/// as a new entry at the end.
pub open spec fn put<V>(table: Seq<(Seq<char>, V)>, key: Seq<char>, v: V) -> Seq<(Seq<char>, V)> {
    match find(table, key, 0) {
        Some(i) => table.update(i, (key, v)),
        None => table.push((key, v)),
    }
}

/// No key occurs twice in the table.
pub open spec fn distinct<V>(table: Seq<(Seq<char>, V)>) -> bool {
    forall|i: int, j: int| 0 <= i < j < table.len() ==> table[i].0 != table[j].0
}

/// What [`find`] finds is an entry for the key, and where it finds none the
/// key has no entry from `from` on.
pub proof fn lemma_find<V>(table: Seq<(Seq<char>, V)>, key: Seq<char>, from: int)
    requires
        0 <= from,
    ensures
        match find(table, key, from) {
            Some(i) => from <= i < table.len() && table[i].0 == key,
            None => forall|j: int| from <= j < table.len() ==> table[j].0 != key,
        },
    decreases table.len() - from,
{
    if from < table.len() && table[from].0 != key {
        lemma_find(table, key, from + 1);
    }
}

/// To bind a key keeps a table free of keys that occur twice.
pub proof fn lemma_put_distinct<V>(table: Seq<(Seq<char>, V)>, key: Seq<char>, v: V)
    requires
        distinct(table),
    ensures
        distinct(put(table, key, v)),
{
    lemma_find(table, key, 0);
}

impl ScopeView {
    /// A scope that binds nothing and has no scope around it.
    pub open spec fn empty() -> ScopeView {
        ScopeView { parent: None, variables: seq![], functions: seq![], mixins: seq![] }
    }

    /// A scope that binds nothing, inside `parent`.
    pub open spec fn sub(parent: ScopeView) -> ScopeView {
        ScopeView {
            parent: Some(Box::new(parent)),
            variables: seq![],
            functions: seq![],
            mixins: seq![],
        }
    }

    /// The value of a variable: that of the innermost scope that binds the
    /// name, and `Null` if none does.
    pub open spec fn get(self, name: Seq<char>) -> ValueView
        decreases self,
    {
        match find(self.variables, key_name(name), 0) {
            Some(i) => self.variables[i].1,
            None => match self.parent {
                Some(p) => p.get(name),
                None => ValueView::Null,
            },
        }
    }

    /// The function that a name is bound to: in the innermost scope that
    /// binds the name.
    pub open spec fn function(self, name: Seq<char>) -> Option<SassFunction>
        decreases self,
    {
        match find(self.functions, fold_name(name), 0) {
            Some(i) => Some(self.functions[i].1),
            None => match self.parent {
                Some(p) => p.function(name),
                None => None,
            },
        }
    }

    /// The scope with the variable bound in it.
    pub open spec fn set_here(self, name: Seq<char>, v: ValueView) -> ScopeView {
        ScopeView { variables: put(self.variables, key_name(name), v), ..self }
    }

    /// The scope with the variable bound in the outermost scope around it.
    pub open spec fn set_root(self, name: Seq<char>, v: ValueView) -> ScopeView
        decreases self,
    {
        match self.parent {
            Some(p) => ScopeView { parent: Some(Box::new(p.set_root(name, v))), ..self },
            None => self.set_here(name, v),
        }
    }

    /// The scope with the function bound in it.
    pub open spec fn set_function(self, name: Seq<char>, f: SassFunction) -> ScopeView {
        ScopeView { functions: put(self.functions, fold_name(name), f), ..self }
    }

    /// The mixin of a name: that of the innermost scope that has one of
    /// that name.
    pub open spec fn mixin(self, name: Seq<char>) -> Option<MixinView>
        decreases self,
    {
        match find(self.mixins, key_name(name), 0) {
            Some(i) => Some(self.mixins[i].1),
            None => match self.parent {
                Some(p) => p.mixin(name),
                None => None,
            },
        }
    }

    /// The scope around this one, or this one if there is none around it.
    pub open spec fn leave(self) -> ScopeView {
        match self.parent {
            Some(p) => *p,
            None => self,
        }
    }

    /// The scope with the mixin in it, under its name.
    pub open spec fn set_mixin(self, m: MixinView) -> ScopeView {
        ScopeView { mixins: put(self.mixins, key_name(m.name), m), ..self }
    }

    /// No name is bound twice in one scope: not in this one, and in none
    /// of those around it.
    pub open spec fn unique_names(self) -> bool
        decreases self,
    {
        distinct(self.variables) && distinct(self.functions) && distinct(self.mixins) && match self.parent {
            Some(p) => p.unique_names(),
            None => true,
        }
    }

    /// What `define` makes of the scope: the value is evaluated in this
    /// scope, in arithmetic context, and bound here or, if `global`, in the
    /// outermost scope.
    pub open spec fn define(self, name: Seq<char>, val: ValueView, global: bool) -> Result<
        ScopeView,
        ErrorView,
    > {
        match val.eval(self, true) {
            Ok(v) => Ok(
                if global {
                    self.set_root(name, v)
                } else {
                    self.set_here(name, v)
                },
            ),
            Err(e) => Err(e),
        }
    }

    /// What `define_default` makes of the scope: as `define` where the
    /// variable is `Null` so far, and nothing otherwise.
    pub open spec fn define_default(self, name: Seq<char>, val: ValueView, global: bool) -> Result<
        ScopeView,
        ErrorView,
    > {
        if self.get(name) is Null {
            self.define(name, val, global)
        } else {
            Ok(self)
        }
    }
}

/// Every way to make or change a scope keeps its names unique: a new scope
/// and a scope inside another bind nothing, and to bind a variable, a
/// function or a mixin, here or in the outermost scope, to define a
/// variable and to leave a scope put no name there twice.
pub proof fn lemma_unique_names(scope: ScopeView, name: Seq<char>, v: ValueView)
    requires
        scope.unique_names(),
    ensures
        ScopeView::empty().unique_names(),
        ScopeView::sub(scope).unique_names(),
        scope.leave().unique_names(),
        scope.set_here(name, v).unique_names(),
        scope.set_root(name, v).unique_names(),
        forall|f: SassFunction| (#[trigger] scope.set_function(name, f)).unique_names(),
        forall|m: MixinView| (#[trigger] scope.set_mixin(m)).unique_names(),
        forall|val: ValueView, global: bool|
            (#[trigger] scope.define(name, val, global)) is Ok ==> scope.define(
                name,
                val,
                global,
            )->Ok_0.unique_names(),
        forall|val: ValueView, global: bool|
            (#[trigger] scope.define_default(name, val, global)) is Ok ==> scope.define_default(
                name,
                val,
                global,
            )->Ok_0.unique_names(),
    decreases scope,
{
    lemma_put_distinct(scope.variables, key_name(name), v);
    lemma_set_root_unique(scope, name);
    assert forall|f: SassFunction| (#[trigger] scope.set_function(name, f)).unique_names() by {
        lemma_put_distinct(scope.functions, fold_name(name), f);
    }
    assert forall|m: MixinView| (#[trigger] scope.set_mixin(m)).unique_names() by {
        lemma_put_distinct(scope.mixins, key_name(m.name), m);
    }
    assert forall|val: ValueView, global: bool|
        (#[trigger] scope.define(name, val, global)) is Ok implies scope.define(
            name,
            val,
            global,
        )->Ok_0.unique_names() by {
        let w = val.eval(scope, true)->Ok_0;
        lemma_put_distinct(scope.variables, key_name(name), w);
    }
}

/// To bind a variable in the outermost scope keeps the names unique,
/// whatever the value.
proof fn lemma_set_root_unique(scope: ScopeView, name: Seq<char>)
    requires
        scope.unique_names(),
    ensures
        forall|v: ValueView| (#[trigger] scope.set_root(name, v)).unique_names(),
    decreases scope,
{
    assert forall|v: ValueView| (#[trigger] scope.set_root(name, v)).unique_names() by {
        match scope.parent {
            Some(p) => {
                lemma_set_root_unique(*p, name);
                assert(p.set_root(name, v).unique_names());
            },
            None => {
                lemma_put_distinct(scope.variables, key_name(name), v);
            },
        }
    }
}

/// A scope with the scope around it, if there is one.
pub struct ScopeImpl {
    parent: Option<Box<ScopeImpl>>,
    variables: Vec<(Vec<char>, Value)>,
    functions: Vec<(Vec<char>, SassFunction)>,
    mixins: Vec<(Vec<char>, MixinDeclaration)>,
}

/// The model of a table of mixins.
pub open spec fn mixin_models(table: Seq<(Vec<char>, MixinDeclaration)>) -> Seq<
    (Seq<char>, MixinView),
> {
    Seq::new(table.len(), |i: int| (table[i].0@, table[i].1@))
}

/// The place of a key in a table of mixins: see [`find`].
fn find_mixin(table: &Vec<(Vec<char>, MixinDeclaration)>, key: &Vec<char>) -> (r: Option<usize>)
    ensures
        match r {
            Some(i) => find(mixin_models(table@), key@, 0) == Some(i as int) && i < table.len(),
            None => find(mixin_models(table@), key@, 0) is None,
        },
{
    let ghost models = mixin_models(table@);
    let mut i: usize = 0;
    while i < table.len()
        invariant
            i <= table.len(),
            models == mixin_models(table@),
            find(models, key@, 0) == find(models, key@, i as int),
        decreases table.len() - i,
    {
        if same_text(&table[i].0, key) {
            return Some(i);
        }
        i += 1;
    }
    None
}

/// The model of a table of variables.
pub open spec fn variable_models(table: Seq<(Vec<char>, Value)>) -> Seq<(Seq<char>, ValueView)> {
    Seq::new(table.len(), |i: int| (table[i].0@, table[i].1@))
}

/// The model of a table of functions.
pub open spec fn function_models(table: Seq<(Vec<char>, SassFunction)>) -> Seq<
    (Seq<char>, SassFunction),
> {
    Seq::new(table.len(), |i: int| (table[i].0@, table[i].1))
}

/// The place of a key in a table of variables: see [`find`].
fn find_variable(table: &Vec<(Vec<char>, Value)>, key: &Vec<char>) -> (r: Option<usize>)
    ensures
        match r {
            Some(i) => find(variable_models(table@), key@, 0) == Some(i as int) && i
                < table.len(),
            None => find(variable_models(table@), key@, 0) is None,
        },
{
    let ghost models = variable_models(table@);
    let mut i: usize = 0;
    while i < table.len()
        invariant
            i <= table.len(),
            models == variable_models(table@),
            find(models, key@, 0) == find(models, key@, i as int),
        decreases table.len() - i,
    {
        if same_text(&table[i].0, key) {
            return Some(i);
        }
        i += 1;
    }
    None
}

/// The place of a key in a table of functions: see [`find`].
fn find_function(table: &Vec<(Vec<char>, SassFunction)>, key: &Vec<char>) -> (r: Option<usize>)
    ensures
        match r {
            Some(i) => find(function_models(table@), key@, 0) == Some(i as int) && i
                < table.len(),
            None => find(function_models(table@), key@, 0) is None,
        },
{
    let ghost models = function_models(table@);
    let mut i: usize = 0;
    while i < table.len()
        invariant
            i <= table.len(),
            models == function_models(table@),
            find(models, key@, 0) == find(models, key@, i as int),
        decreases table.len() - i,
    {
        if same_text(&table[i].0, key) {
            return Some(i);
        }
        i += 1;
    }
    None
}

/// Binds a key in a table of variables: see [`put`].
fn put_variable(table: &mut Vec<(Vec<char>, Value)>, key: Vec<char>, v: Value)
    ensures
        variable_models(final(table)@) == put(variable_models(old(table)@), key@, v@),
{
    match find_variable(table, &key) {
        Some(i) => {
            table[i] = (key, v);
        },
        None => {
            table.push((key, v));
        },
    }
}

impl ScopeImpl {
    /// The model of the scope.
    pub closed spec fn model(&self) -> ScopeView
        decreases self,
    {
        ScopeView {
            parent: match self.parent {
                Some(p) => Some(Box::new(p.model())),
                None => None,
            },
            variables: variable_models(self.variables@),
            functions: function_models(self.functions@),
            mixins: mixin_models(self.mixins@),
        }
    }

    /// A scope that binds nothing and has no scope around it.
    pub fn new() -> (s: ScopeImpl)
        ensures
            s@ == ScopeView::empty(),
            s@.unique_names(),
    {
        let s = ScopeImpl {
            parent: None,
            variables: Vec::new(),
            functions: Vec::new(),
            mixins: Vec::new(),
        };
        assert(s.model().variables =~= seq![]);
        assert(s.model().functions =~= seq![]);
        assert(s.model().mixins =~= seq![]);
        s
    }

    /// A scope that binds nothing, inside `parent`.
    pub fn sub(parent: ScopeImpl) -> (s: ScopeImpl)
        ensures
            s@ == ScopeView::sub(parent@),
            parent@.unique_names() ==> s@.unique_names(),
    {
        proof {
            if parent@.unique_names() {
                lemma_unique_names(parent@, seq![], ValueView::Null);
            }
        }
        let s = ScopeImpl {
            parent: Some(Box::new(parent)),
            variables: Vec::new(),
            functions: Vec::new(),
            mixins: Vec::new(),
        };
        assert(s.model().variables =~= seq![]);
        assert(s.model().functions =~= seq![]);
        assert(s.model().mixins =~= seq![]);
        s
    }

    /// Ends the scope: the scope around it, with what was bound in it
    /// meanwhile, or the scope itself if there is none around it.
    pub fn leave(self) -> (p: ScopeImpl)
        ensures
            p@ == self@.leave(),
            self@.unique_names() ==> p@.unique_names(),
    {
        proof {
            if self@.unique_names() {
                lemma_unique_names(self@, seq![], ValueView::Null);
            }
        }
        let ScopeImpl { parent, variables, functions, mixins } = self;
        match parent {
            Some(p) => *p,
            None => ScopeImpl {
                parent: None,
                variables: variables,
                functions: functions,
                mixins: mixins,
            },
        }
    }

    /// Ends the scope and gives back the scope around it, with what was
    /// bound in it meanwhile.
    pub fn into_parent(self) -> (p: Option<ScopeImpl>)
        ensures
            match p {
                Some(s) => self@.parent == Some(Box::new(s@)),
                None => self@.parent is None,
            },
    {
        match self.parent {
            Some(p) => Some(*p),
            None => None,
        }
    }

    /// The function that a name is bound to, in the innermost scope that
    /// binds the name.
    pub fn get_function(&self, name: &str) -> (f: Option<SassFunction>)
        ensures
            f == self@.function(name@),
    {
        proof {
            lemma_function_in(self@, name@);
        }
        self.function_for(&folded(name))
    }

    /// The executable form of [`function_in`].
    fn function_for(&self, key: &Vec<char>) -> (f: Option<SassFunction>)
        ensures
            f == function_in(self@, key@),
        decreases self,
    {
        match find_function(&self.functions, key) {
            Some(i) => Some(self.functions[i].1),
            None => match &self.parent {
                Some(p) => p.function_for(key),
                None => None,
            },
        }
    }

    /// The executable form of [`mixin_in`].
    fn mixin_for(&self, key: &Vec<char>) -> (m: Option<MixinDeclaration>)
        ensures
            match m {
                Some(d) => mixin_in(self@, key@) == Some(d@),
                None => mixin_in(self@, key@) is None,
            },
        decreases self,
    {
        match find_mixin(&self.mixins, key) {
            Some(i) => {
                Some(self.mixins[i].1.dup())
            },
            None => match &self.parent {
                Some(p) => p.mixin_for(key),
                None => None,
            },
        }
    }

    /// A copy of the mixin of a name: that of the innermost scope that has
    /// one of that name.
    pub fn get_mixin(&self, name: &str) -> (m: Option<MixinDeclaration>)
        ensures
            match m {
                Some(d) => self@.mixin(name@) == Some(d@),
                None => self@.mixin(name@) is None,
            },
    {
        proof {
            lemma_mixin_in(self@, name@);
        }
        self.mixin_for(&keyed(name))
    }

    /// Puts a copy of the mixin into this scope, under its name.
    pub fn define_mixin(&mut self, m: &MixinDeclaration)
        ensures
            final(self)@ == old(self)@.set_mixin(m@),
            old(self)@.unique_names() ==> final(self)@.unique_names(),
    {
        proof {
            if self@.unique_names() {
                lemma_unique_names(self@, m.name@, ValueView::Null);
            }
        }
        let key = keyed(m.name.as_str());
        let copy = m.dup();
        let ghost before = mixin_models(self.mixins@);
        let ghost k = key@;
        let ghost v = copy@;
        match find_mixin(&self.mixins, &key) {
            Some(i) => {
                self.mixins[i] = (key, copy);
                assert(mixin_models(self.mixins@) =~= before.update(i as int, (k, v)));
            },
            None => {
                self.mixins.push((key, copy));
                assert(mixin_models(self.mixins@) =~= before.push((k, v)));
            },
        }
    }

    /// Binds a name to a function in this scope.
    pub fn define_function(&mut self, name: &str, f: SassFunction)
        ensures
            final(self)@ == old(self)@.set_function(name@, f),
            old(self)@.unique_names() ==> final(self)@.unique_names(),
    {
        proof {
            if self@.unique_names() {
                lemma_unique_names(self@, name@, ValueView::Null);
            }
        }
        let key = folded(name);
        let ghost before = function_models(self.functions@);
        match find_function(&self.functions, &key) {
            Some(i) => {
                let ghost k = key@;
                self.functions[i] = (key, f);
                assert(function_models(self.functions@) =~= before.update(i as int, (k, f)));
            },
            None => {
                let ghost k = key@;
                self.functions.push((key, f));
                assert(function_models(self.functions@) =~= before.push((k, f)));
            },
        }
    }

    /// The executable form of [`value_in`].
    fn value_for(&self, key: &Vec<char>) -> (v: Value)
        ensures
            v@ == value_in(self@, key@),
        decreases self,
    {
        match find_variable(&self.variables, key) {
            Some(i) => {
                self.variables[i].1.dup()
            },
            None => match &self.parent {
                Some(p) => p.value_for(key),
                None => Value::Null,
            },
        }
    }

    /// The value of a variable: that of the innermost scope that binds the
    /// name, and `Null` if none does.
    pub fn get(&self, name: &str) -> (v: Value)
        ensures
            v@ == self@.get(name@),
    {
        proof {
            lemma_value_in(self@, name@);
        }
        self.value_for(&keyed(name))
    }

    /// Binds a variable to an evaluated value, in this scope or in the
    /// outermost one.
    pub fn set(&mut self, name: &str, v: Value, global: bool)
        ensures
            final(self)@ == if global {
                old(self)@.set_root(name@, v@)
            } else {
                old(self)@.set_here(name@, v@)
            },
            old(self)@.unique_names() ==> final(self)@.unique_names(),
    {
        proof {
            if self@.unique_names() {
                lemma_unique_names(self@, name@, v@);
            }
        }
        let key = keyed(name);
        if global {
            proof {
                lemma_root_with(self@, name@, v@);
            }
            let parent = self.parent.take();
            match parent {
                Some(p) => {
                    self.parent = Some(Box::new(rooted(*p, key, v)));
                },
                None => {
                    put_variable(&mut self.variables, key, v);
                },
            }
        } else {
            put_variable(&mut self.variables, key, v);
        }
    }
}

/// The scope with a variable bound in the outermost scope.
fn rooted(scope: ScopeImpl, key: Vec<char>, v: Value) -> (r: ScopeImpl)
    ensures
        r@ == root_with(scope@, key@, v@),
    decreases scope,
{
    let ScopeImpl { parent, variables, functions, mixins } = scope;
    match parent {
        Some(p) => ScopeImpl {
            parent: Some(Box::new(rooted(*p, key, v))),
            variables: variables,
            functions: functions,
            mixins: mixins,
        },
        None => {
            let mut variables = variables;
            put_variable(&mut variables, key, v);
            ScopeImpl { parent: None, variables: variables, functions: functions, mixins: mixins }
        },
    }
}

impl View for ScopeImpl {
    type V = ScopeView;

    open spec fn view(&self) -> ScopeView {
        self.model()
    }
}

/// The value bound to a key as it is compared.
pub open spec fn value_in(scope: ScopeView, key: Seq<char>) -> ValueView
    decreases scope,
{
    match find(scope.variables, key, 0) {
        Some(i) => scope.variables[i].1,
        None => match scope.parent {
            Some(p) => value_in(*p, key),
            None => ValueView::Null,
        },
    }
}

/// The function bound to a key as it is compared.
pub open spec fn function_in(scope: ScopeView, key: Seq<char>) -> Option<SassFunction>
    decreases scope,
{
    match find(scope.functions, key, 0) {
        Some(i) => Some(scope.functions[i].1),
        None => match scope.parent {
            Some(p) => function_in(*p, key),
            None => None,
        },
    }
}

/// The mixin under a key as it is compared.
pub open spec fn mixin_in(scope: ScopeView, key: Seq<char>) -> Option<MixinView>
    decreases scope,
{
    match find(scope.mixins, key, 0) {
        Some(i) => Some(scope.mixins[i].1),
        None => match scope.parent {
            Some(p) => mixin_in(*p, key),
            None => None,
        },
    }
}

/// To look a mixin up by its key is to look it up by its name.
proof fn lemma_mixin_in(scope: ScopeView, name: Seq<char>)
    ensures
        mixin_in(scope, key_name(name)) == scope.mixin(name),
    decreases scope,
{
    match scope.parent {
        Some(p) => lemma_mixin_in(*p, name),
        None => {},
    }
}

/// The scope with a key as it is compared bound in the outermost scope.
pub open spec fn root_with(scope: ScopeView, key: Seq<char>, v: ValueView) -> ScopeView
    decreases scope,
{
    match scope.parent {
        Some(p) => ScopeView { parent: Some(Box::new(root_with(*p, key, v))), ..scope },
        None => ScopeView { variables: put(scope.variables, key, v), ..scope },
    }
}

/// To look a variable up by its key is to look it up by its name.
proof fn lemma_value_in(scope: ScopeView, name: Seq<char>)
    ensures
        value_in(scope, key_name(name)) == scope.get(name),
    decreases scope,
{
    match scope.parent {
        Some(p) => lemma_value_in(*p, name),
        None => {},
    }
}

/// To look a function up by its key is to look it up by its name.
proof fn lemma_function_in(scope: ScopeView, name: Seq<char>)
    ensures
        function_in(scope, fold_name(name)) == scope.function(name),
    decreases scope,
{
    match scope.parent {
        Some(p) => lemma_function_in(*p, name),
        None => {},
    }
}

/// To bind a key in the outermost scope is to bind its name there.
proof fn lemma_root_with(scope: ScopeView, name: Seq<char>, v: ValueView)
    ensures
        root_with(scope, key_name(name), v) == scope.set_root(name, v),
    decreases scope,
{
    match scope.parent {
        Some(p) => lemma_root_with(*p, name, v),
        None => {},
    }
}

/// What a scope can do: bind and look up variables and mixins, and
/// evaluate values.
pub trait Scope {
    /// The model of the scope.
    spec fn scope_view(&self) -> ScopeView;

    /// Binds a variable: see [`ScopeView::define`]. After an error the scope
    /// is as it was.
    fn define(&mut self, name: &str, val: &Value, global: bool) -> (r: Result<(), Error>)
        ensures
            match r {
                Ok(_) => old(self).scope_view().define(name@, val@, global) == Ok::<
                    ScopeView,
                    ErrorView,
                >(final(self).scope_view()),
                Err(e) => old(self).scope_view().define(name@, val@, global) == Err::<
                    ScopeView,
                    ErrorView,
                >(e@) && final(self).scope_view() == old(self).scope_view(),
            },
    ;

    /// Binds a variable that is `Null` so far: see
    /// [`ScopeView::define_default`]. After an error the scope is as it was.
    fn define_default(&mut self, name: &str, val: &Value, global: bool) -> (r: Result<(), Error>)
        ensures
            match r {
                Ok(_) => old(self).scope_view().define_default(name@, val@, global) == Ok::<
                    ScopeView,
                    ErrorView,
                >(final(self).scope_view()),
                Err(e) => old(self).scope_view().define_default(name@, val@, global) == Err::<
                    ScopeView,
                    ErrorView,
                >(e@) && final(self).scope_view() == old(self).scope_view(),
            },
    ;

    /// The value of a variable: `Null` if none is bound.
    fn get(&self, name: &str) -> (v: Value)
        ensures
            v@ == self.scope_view().get(name@),
    ;

    /// Puts a copy of the mixin into the scope, under its name.
    fn define_mixin(&mut self, m: &MixinDeclaration)
        ensures
            final(self).scope_view() == old(self).scope_view().set_mixin(m@),
    ;

    /// A copy of the mixin of a name.
    fn get_mixin(&self, name: &str) -> (m: Option<MixinDeclaration>)
        ensures
            match m {
                Some(d) => self.scope_view().mixin(name@) == Some(d@),
                None => self.scope_view().mixin(name@) is None,
            },
    ;

    /// What a value stands for in the scope, outside arithmetic context.
    /// The scope stays as it is.
    fn evaluate(&mut self, val: &Value) -> (r: Result<Value, Error>)
        ensures
            outcome(r) == val@.eval(old(self).scope_view(), false),
            final(self).scope_view() == old(self).scope_view(),
    ;
}

impl Scope for ScopeImpl {
    open spec fn scope_view(&self) -> ScopeView {
        self@
    }

    fn define(&mut self, name: &str, val: &Value, global: bool) -> (r: Result<(), Error>) {
        ScopeImpl::define(self, name, val, global)
    }

    fn define_default(&mut self, name: &str, val: &Value, global: bool) -> (r: Result<
        (),
        Error,
    >) {
        ScopeImpl::define_default(self, name, val, global)
    }

    fn get(&self, name: &str) -> (v: Value) {
        ScopeImpl::get(self, name)
    }

    fn define_mixin(&mut self, m: &MixinDeclaration) {
        ScopeImpl::define_mixin(self, m)
    }

    fn get_mixin(&self, name: &str) -> (m: Option<MixinDeclaration>) {
        ScopeImpl::get_mixin(self, name)
    }

    fn evaluate(&mut self, val: &Value) -> (r: Result<Value, Error>) {
        ScopeImpl::evaluate(self, val)
    }
}

} // verus!
