//! TOML values as the manifest reader sees them, and the dotted keys of
//! their leaves.

use vstd::prelude::*;
use vstd::string::*;
use crate::paths::str_eq;

verus! {

/// A TOML value. Tables keep their entries in the order the TOML parser
/// gives them; floats are kept as the text of their value.
#[derive(Debug)]
pub enum TomlValue {
    Text(String),
    Integer(i64),
    Float(String),
    Boolean(bool),
    Datetime(String),
    Array(Vec<TomlValue>),
    Table(Vec<(String, TomlValue)>),
}

/// What a TOML value holds, as plain values.
pub enum TomlValueView {
    Text(Seq<char>),
    Integer(i64),
    Float(Seq<char>),
    Boolean(bool),
    Datetime(Seq<char>),
    Array(Seq<TomlValueView>),
    Table(Seq<(Seq<char>, TomlValueView)>),
}

/// What a `TomlValue` holds.
pub open spec fn value_view(v: TomlValue) -> TomlValueView
    decreases v, 0nat,
{
    match v {
        TomlValue::Text(s) => TomlValueView::Text(s@),
        TomlValue::Integer(i) => TomlValueView::Integer(i),
        TomlValue::Float(f) => TomlValueView::Float(f@),
        TomlValue::Boolean(b) => TomlValueView::Boolean(b),
        TomlValue::Datetime(d) => TomlValueView::Datetime(d@),
        TomlValue::Array(items) => TomlValueView::Array(items_view(items@, items@.len())),
        TomlValue::Table(entries) => TomlValueView::Table(entries_view(entries@, entries@.len())),
    }
}

/// What the first `n` elements of an array hold.
pub open spec fn items_view(items: Seq<TomlValue>, n: nat) -> Seq<TomlValueView>
    decreases items, n,
{
    if n == 0 || n > items.len() {
        Seq::empty()
    } else {
        items_view(items, (n - 1) as nat).push(value_view(items[n - 1]))
    }
}

/// What the first `n` entries of a table hold.
pub open spec fn entries_view(es: Seq<(String, TomlValue)>, n: nat) -> Seq<(Seq<char>, TomlValueView)>
    decreases es, n,
{
    if n == 0 || n > es.len() {
        Seq::empty()
    } else {
        entries_view(es, (n - 1) as nat).push((es[n - 1].0@, value_view(es[n - 1].1)))
    }
}

impl View for TomlValue {
    type V = TomlValueView;

    open spec fn view(&self) -> TomlValueView {
        value_view(*self)
    }
}

/// What the elements of an array hold.
pub open spec fn array_view(items: Seq<TomlValue>) -> Seq<TomlValueView> {
    items_view(items, items.len())
}

/// What the entries of a table hold.
pub open spec fn table_view(es: Seq<(String, TomlValue)>) -> Seq<(Seq<char>, TomlValueView)> {
    entries_view(es, es.len())
}

proof fn lemma_items_view(items: Seq<TomlValue>, n: nat)
    requires
        n <= items.len(),
    ensures
        items_view(items, n).len() == n,
        forall|j: int| 0 <= j < n ==> #[trigger] items_view(items, n)[j] == value_view(items[j]),
    decreases n,
{
    if n > 0 {
        lemma_items_view(items, (n - 1) as nat);
    }
}

proof fn lemma_entries_view(es: Seq<(String, TomlValue)>, n: nat)
    requires
        n <= es.len(),
    ensures
        entries_view(es, n).len() == n,
        forall|j: int| 0 <= j < n ==> #[trigger] entries_view(es, n)[j] == (es[j].0@, value_view(es[j].1)),
    decreases n,
{
    if n > 0 {
        lemma_entries_view(es, (n - 1) as nat);
    }
}

/// An array's view has an element for each element.
pub broadcast proof fn lemma_array_view_len(items: Seq<TomlValue>)
    ensures
        #[trigger] array_view(items).len() == items.len(),
{
    lemma_items_view(items, items.len());
}

/// Each element of an array's view is the view of that element.
pub broadcast proof fn lemma_array_view_index(items: Seq<TomlValue>, j: int)
    requires
        0 <= j < items.len(),
    ensures
        #[trigger] array_view(items)[j] == items[j]@,
{
    lemma_items_view(items, items.len());
}

/// A table's view has an entry for each entry.
pub broadcast proof fn lemma_table_view_len(es: Seq<(String, TomlValue)>)
    ensures
        #[trigger] table_view(es).len() == es.len(),
{
    lemma_entries_view(es, es.len());
}

/// Each entry of a table's view is the entry's key and the view of its value.
pub broadcast proof fn lemma_table_view_index(es: Seq<(String, TomlValue)>, j: int)
    requires
        0 <= j < es.len(),
    ensures
        #[trigger] table_view(es)[j] == (es[j].0@, es[j].1@),
{
    lemma_entries_view(es, es.len());
}

pub broadcast group group_toml_view {
    lemma_array_view_len,
    lemma_array_view_index,
    lemma_table_view_len,
    lemma_table_view_index,
}

/// Whether no table anywhere in a value has a key twice.
pub open spec fn keys_unique(v: TomlValueView) -> bool
    decreases v,
{
    match v {
        TomlValueView::Table(es) => {
            &&& forall|i: int, j: int| 0 <= i < j < es.len() ==> es[i].0 != es[j].0
            &&& forall|i: int| #![trigger es[i]] 0 <= i < es.len() ==> keys_unique(es[i].1)
        },
        TomlValueView::Array(items) => forall|i: int| #![trigger items[i]] 0 <= i < items.len() ==> keys_unique(items[i]),
        _ => true,
    }
}

/// `k` under the dotted key `prefix`; at the top level, `k` itself.
pub open spec fn join_key(prefix: Seq<char>, k: Seq<char>) -> Seq<char> {
    if prefix.len() == 0 {
        k
    } else {
        prefix + "."@ + k
    }
}

/// The dotted keys of a value's leaves, in order: a table's entries extend
/// the key, an array's elements keep it, and any other value is a leaf. An
/// empty table or array has no leaves.
pub open spec fn leaf_keys(v: TomlValueView, key: Seq<char>) -> Seq<Seq<char>>
    decreases v, 0nat,
{
    match v {
        TomlValueView::Table(entries) => entries_leaf_keys(entries, key, entries.len()),
        TomlValueView::Array(items) => items_leaf_keys(items, key, items.len()),
        _ => seq![key],
    }
}

/// The leaf keys of the first `n` entries of a table at `key`.
pub open spec fn entries_leaf_keys(es: Seq<(Seq<char>, TomlValueView)>, key: Seq<char>, n: nat) -> Seq<Seq<char>>
    decreases es, n,
{
    if n == 0 || n > es.len() {
        Seq::empty()
    } else {
        entries_leaf_keys(es, key, (n - 1) as nat) + leaf_keys(es[n - 1].1, join_key(key, es[n - 1].0))
    }
}

/// The leaf keys of the first `n` elements of an array at `key`.
pub open spec fn items_leaf_keys(items: Seq<TomlValueView>, key: Seq<char>, n: nat) -> Seq<Seq<char>>
    decreases items, n,
{
    if n == 0 || n > items.len() {
        Seq::empty()
    } else {
        items_leaf_keys(items, key, (n - 1) as nat) + leaf_keys(items[n - 1], key)
    }
}

/// `k` under `prefix` (see `join_key`).
pub fn join_key_exec(prefix: &str, k: &str) -> (res: String)
    ensures
        res@ == join_key(prefix@, k@),
{
    let mut res = String::from_str(prefix);
    if prefix.unicode_len() != 0 {
        res.append(".");
    }
    res.append(k);
    res
}

/// Appends the dotted keys of a value's leaves (see `leaf_keys`).
pub fn push_leaf_keys(v: &TomlValue, key: &str, out: &mut Vec<String>)
    ensures
        final(out).deep_view() == old(out).deep_view() + leaf_keys(v@, key@),
    decreases v, 0nat,
{
    broadcast use group_toml_view;

    match v {
        TomlValue::Table(entries) => {
            let ghost start = out.deep_view();
            let mut i: usize = 0;
            while i < entries.len()
                invariant
                    i <= entries.len(),
                    out.deep_view() == start + entries_leaf_keys(table_view(entries@), key@, i as nat),
                    *v == TomlValue::Table(*entries),
                decreases entries.len() - i,
            {
                let child_key = join_key_exec(key, entries[i].0.as_str());
                proof {
                    lemma_table_view_len(entries@);
                    lemma_table_view_index(entries@, i as int);
                    assert(decreases_to!(*v => (*v)->Table_0));
                    assert(decreases_to!((*v)->Table_0 => (*v)->Table_0@));
                    assert(decreases_to!(entries@ => entries@[i as int]));
                    assert(decreases_to!(entries@[i as int] => entries@[i as int].1));
                }
                push_leaf_keys(&entries[i].1, child_key.as_str(), out);
                assert(out.deep_view() =~= start + entries_leaf_keys(table_view(entries@), key@, i as nat + 1));
                i = i + 1;
            }
        },
        TomlValue::Array(items) => {
            let ghost start = out.deep_view();
            let mut i: usize = 0;
            while i < items.len()
                invariant
                    i <= items.len(),
                    out.deep_view() == start + items_leaf_keys(array_view(items@), key@, i as nat),
                    *v == TomlValue::Array(*items),
                decreases items.len() - i,
            {
                proof {
                    lemma_array_view_len(items@);
                    lemma_array_view_index(items@, i as int);
                    assert(decreases_to!(*v => (*v)->Array_0));
                    assert(decreases_to!((*v)->Array_0 => (*v)->Array_0@));
                    assert(decreases_to!(items@ => items@[i as int]));
                }
                push_leaf_keys(&items[i], key, out);
                assert(out.deep_view() =~= start + items_leaf_keys(array_view(items@), key@, i as nat + 1));
                i = i + 1;
            }
        },
        _ => {
            let ghost before = out.deep_view();
            out.push(String::from_str(key));
            assert(out.deep_view() =~= before + seq![key@]);
        },
    }
}

/// The index of the first entry whose key is `k`, or -1.
pub open spec fn find_key(es: Seq<(Seq<char>, TomlValueView)>, k: Seq<char>) -> int
    decreases es.len(),
{
    if es.len() == 0 {
        -1
    } else {
        let r = find_key(es.drop_last(), k);
        if r >= 0 {
            r
        } else if es.last().0 == k {
            es.len() - 1
        } else {
            -1
        }
    }
}

pub proof fn lemma_find_key_bounds(es: Seq<(Seq<char>, TomlValueView)>, k: Seq<char>)
    ensures
        -1 <= find_key(es, k) < es.len(),
        find_key(es, k) >= 0 ==> es[find_key(es, k)].0 == k,
        find_key(es, k) == -1 ==> forall|j: int| 0 <= j < es.len() ==> es[j].0 != k,
    decreases es.len(),
{
    if es.len() > 0 {
        lemma_find_key_bounds(es.drop_last(), k);
        assert forall|j: int| 0 <= j < es.len() - 1 implies es[j] == es.drop_last()[j] by {}
    }
}

/// The index of the first entry whose key is `k` (see `find_key`).
pub fn find_key_exec(es: &Vec<(String, TomlValue)>, k: &str) -> (res: Option<usize>)
    ensures
        match res {
            Some(i) => i == find_key(table_view(es@), k@),
            None => find_key(table_view(es@), k@) == -1,
        },
{
    broadcast use group_toml_view;
    let ghost tv = table_view(es@);
    proof {
        lemma_table_view_len(es@);
    }
    let mut i: usize = 0;
    while i < es.len()
        invariant
            i <= es.len(),
            tv == table_view(es@),
            tv.len() == es@.len(),
            find_key(tv.take(i as int), k@) == -1,
        decreases es.len() - i,
    {
        assert(tv.take(i + 1).drop_last() =~= tv.take(i as int));
        proof {
            lemma_table_view_index(es@, i as int);
        }
        if str_eq(es[i].0.as_str(), k) {
            proof {
                lemma_find_key_prefix(tv, k@, i as int + 1);
            }
            return Some(i);
        }
        i = i + 1;
    }
    assert(tv.take(i as int) =~= tv);
    None
}

proof fn lemma_find_key_prefix(es: Seq<(Seq<char>, TomlValueView)>, k: Seq<char>, n: int)
    requires
        0 < n <= es.len(),
        find_key(es.take(n), k) >= 0,
    ensures
        find_key(es, k) == find_key(es.take(n), k),
    decreases es.len() - n,
{
    if n < es.len() {
        assert(es.take(n + 1).drop_last() =~= es.take(n));
        lemma_find_key_prefix(es, k, n + 1);
    } else {
        assert(es.take(n) =~= es);
    }
}

/// The entry a struct field is read from: the one keyed by the field's name,
/// else the one keyed by its alternative spelling (with `-` for `_`).
pub open spec fn field_index(es: Seq<(Seq<char>, TomlValueView)>, name: Seq<char>, alt: Seq<char>) -> int {
    let i = find_key(es, name);
    if i >= 0 {
        i
    } else {
        find_key(es, alt)
    }
}

/// The entry a struct field is read from (see `field_index`).
pub fn field_index_exec(es: &Vec<(String, TomlValue)>, name: &str, alt: &str) -> (res: Option<usize>)
    ensures
        match res {
            Some(i) => i == field_index(table_view(es@), name@, alt@) && 0 <= i < es@.len(),
            None => field_index(table_view(es@), name@, alt@) == -1,
        },
{
    broadcast use group_toml_view;
    proof {
        lemma_find_key_bounds(table_view(es@), name@);
        lemma_find_key_bounds(table_view(es@), alt@);
    }
    match find_key_exec(es, name) {
        Some(i) => Some(i),
        None => find_key_exec(es, alt),
    }
}

} // verus!
