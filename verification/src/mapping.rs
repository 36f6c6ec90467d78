//! Maps from values to values: the entries stand in the order in which
//! their keys came, and no two keys are equal.
use crate::arith::equal;
use crate::value::{entry_models, lemma_model_parts, Value, ValueView};
use vstd::prelude::*;

verus! {

/// The place of the first entry whose key equals `key`, from `from` on.
pub open spec fn key_place(m: Seq<(ValueView, ValueView)>, key: ValueView, from: int) -> Option<
    int,
>
    decreases m.len() - from,
{
    if from < 0 || from >= m.len() {
        None
    } else if equal(m[from].0, key) {
        Some(from)
    } else {
        key_place(m, key, from + 1)
    }
}

/// The entries with `key` bound to `v`: the entry of an equal key keeps its
/// key and its place and takes the value, and a new key comes last.
pub open spec fn with_entry(m: Seq<(ValueView, ValueView)>, key: ValueView, v: ValueView) -> Seq<
    (ValueView, ValueView),
> {
    match key_place(m, key, 0) {
        Some(i) => m.update(i, (m[i].0, v)),
        None => m.push((key, v)),
    }
}

/// The first `n` of the entries, bound one after the other in a map that
/// was empty.
pub open spec fn gathered(entries: Seq<(ValueView, ValueView)>, n: nat) -> Seq<
    (ValueView, ValueView),
>
    decreases n,
{
    if n == 0 || n > entries.len() {
        seq![]
    } else {
        with_entry(gathered(entries, (n - 1) as nat), entries[n - 1].0, entries[n - 1].1)
    }
}

/// No two entries have equal keys.
pub open spec fn distinct_keys(m: Seq<(ValueView, ValueView)>) -> bool {
    forall|i: int, j: int| 0 <= i < j < m.len() ==> !equal(m[i].0, m[j].0)
}

/// What [`key_place`] finds is an entry with an equal key, and where it
/// finds none no key from `from` on is equal.
pub proof fn lemma_key_place(m: Seq<(ValueView, ValueView)>, key: ValueView, from: int)
    requires
        0 <= from,
    ensures
        match key_place(m, key, from) {
            Some(i) => from <= i < m.len() && equal(m[i].0, key),
            None => forall|j: int| from <= j < m.len() ==> !equal(m[j].0, key),
        },
    decreases m.len() - from,
{
    if from < m.len() && !equal(m[from].0, key) {
        lemma_key_place(m, key, from + 1);
    }
}

/// To bind a key keeps the keys distinct.
pub proof fn lemma_with_entry_distinct(
    m: Seq<(ValueView, ValueView)>,
    key: ValueView,
    v: ValueView,
)
    requires
        distinct_keys(m),
    ensures
        distinct_keys(with_entry(m, key, v)),
{
    lemma_key_place(m, key, 0);
}

/// Entries that were bound one after the other have distinct keys.
pub proof fn lemma_gathered_distinct(entries: Seq<(ValueView, ValueView)>, n: nat)
    ensures
        distinct_keys(gathered(entries, n)),
    decreases n,
{
    if n > 0 && n <= entries.len() {
        lemma_gathered_distinct(entries, (n - 1) as nat);
        lemma_with_entry_distinct(
            gathered(entries, (n - 1) as nat),
            entries[n - 1].0,
            entries[n - 1].1,
        );
    }
}

/// Entries with distinct keys stay as they are when they are bound one
/// after the other.
pub proof fn lemma_gathered_same(entries: Seq<(ValueView, ValueView)>, n: nat)
    requires
        distinct_keys(entries),
        n <= entries.len(),
    ensures
        gathered(entries, n) == entries.take(n as int),
    decreases n,
{
    if n > 0 {
        lemma_gathered_same(entries, (n - 1) as nat);
        let before = entries.take(n - 1);
        lemma_key_place(before, entries[n - 1].0, 0);
        assert(entries.take(n as int) =~= before.push(entries[n - 1]));
    } else {
        assert(entries.take(0) =~= seq![]);
    }
}

/// The executable form of [`key_place`].
fn find_key(m: &Vec<(Value, Value)>, key: &Value) -> (r: Option<usize>)
    ensures
        match r {
            Some(i) => key_place(entry_models(m@), key@, 0) == Some(i as int) && i < m.len(),
            None => key_place(entry_models(m@), key@, 0) is None,
        },
{
    let ghost all = entry_models(m@);
    let mut i: usize = 0;
    while i < m.len()
        invariant
            i <= m.len(),
            all == entry_models(m@),
            key_place(all, key@, 0) == key_place(all, key@, i as int),
        decreases m.len() - i,
    {
        if m[i].0.equals(key) {
            return Some(i);
        }
        i += 1;
    }
    None
}

/// Binds a key in the entries of a map: see [`with_entry`].
pub fn insert_entry(m: &mut Vec<(Value, Value)>, key: Value, v: Value)
    ensures
        entry_models(final(m)@) == with_entry(entry_models(old(m)@), key@, v@),
{
    match find_key(m, &key) {
        Some(i) => {
            let kept = m[i].0.dup();
            m[i] = (kept, v);
        },
        None => {
            m.push((key, v));
        },
    }
}

impl Value {
    /// The map of the entries, bound one after the other: no two of its
    /// keys are equal.
    pub fn mapping(entries: &Vec<(Value, Value)>) -> (r: Value)
        ensures
            r@ == ValueView::Mapping(gathered(entry_models(entries@), entries.len() as nat)),
            distinct_keys(r@->Mapping_0),
    {
        let ghost all = entry_models(entries@);
        let mut m: Vec<(Value, Value)> = Vec::new();
        let mut i: usize = 0;
        while i < entries.len()
            invariant
                i <= entries.len(),
                all == entry_models(entries@),
                entry_models(m@) == gathered(all, i as nat),
            decreases entries.len() - i,
        {
            insert_entry(&mut m, entries[i].0.dup(), entries[i].1.dup());
            i += 1;
        }
        let r = Value::Mapping(m);
        proof {
            lemma_model_parts(r);
            lemma_gathered_distinct(all, entries.len() as nat);
        }
        r
    }
}

} // verus!
