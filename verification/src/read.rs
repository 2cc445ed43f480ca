//! Reading a manifest file: its bytes as UTF-8 text, the text as TOML, and
//! the TOML as a manifest.

use vstd::prelude::*;
use vstd::string::*;
use vstd::utf8::{decode_utf8, valid_utf8};
use crate::decode::{decode_manifest, spec_decode_manifest, spec_unused_keys, unused_keys};
use crate::layout::{Layout, LayoutView};
use crate::manifest::{result_view, spec_toml_to_manifest};
use crate::model::{Manifest, ManifestError, ManifestErrorView, ManifestView, SourceId, SourceIdView};
use crate::toml_value::{array_view, keys_unique, table_view, TomlValue, TomlValueView};

verus! {

// ---------------------------------------------------------------------------
// Outside calls
// ---------------------------------------------------------------------------

#[verifier::external_type_specification]
#[verifier::external_body]
pub struct ExTomlValue(toml::Value);

/// What a value that the `toml` crate parsed holds.
pub uninterp spec fn toml_value_contents(v: toml::Value) -> TomlValueView;

/// What the `toml` crate makes of a text, parsed as a `toml::Table`: the
/// document's top-level table, or the span and the message of the error it
/// reports.
pub uninterp spec fn toml_parse(text: Seq<char>) -> Result<TomlValueView, (Option<(usize, usize)>, Seq<char>)>;

/// What the elements of a parsed array hold.
pub open spec fn toml_items_contents(items: Seq<toml::Value>) -> Seq<TomlValueView> {
    items.map_values(|x: toml::Value| toml_value_contents(x))
}

/// What the entries of a parsed table hold.
pub open spec fn toml_entries_contents(es: Seq<(String, toml::Value)>) -> Seq<(Seq<char>, TomlValueView)> {
    es.map_values(|e: (String, toml::Value)| (e.0@, toml_value_contents(e.1)))
}

/// A parse error that the `toml` crate reported: the byte range of the text
/// where it failed, when it has one, and what went wrong.
pub struct TomlSyntaxError {
    pub span: Option<(usize, usize)>,
    pub message: String,
}

/// One level of a value that the `toml` crate parsed: a leaf, or the
/// elements or entries of an array or table, still as `toml` values.
enum TomlNode {
    Text(String),
    Integer(i64),
    Float(String),
    Boolean(bool),
    Datetime(String),
    Array(Vec<toml::Value>),
    Table(Vec<(String, toml::Value)>),
}

/// Parses TOML text with `toml`'s `FromStr` for `toml::Table`. On success it
/// gives the table's entries in the order the table holds them (the table is
/// a map, so no key occurs twice); on failure, the error's `span` and
/// `message`. Both are named by `toml_parse`, a function of the text alone.
#[verifier::external_body]
fn toml_parse_table(text: &str) -> (res: Result<Vec<(String, toml::Value)>, TomlSyntaxError>)
    ensures
        match res {
            Ok(es) => toml_parse(text@) == Ok::<TomlValueView, (Option<(usize, usize)>, Seq<char>)>(
                TomlValueView::Table(toml_entries_contents(es@)),
            ),
            Err(e) => toml_parse(text@) == Err::<TomlValueView, (Option<(usize, usize)>, Seq<char>)>((e.span, e.message@)),
        },
        res matches Ok(es) ==> forall|i: int, j: int| 0 <= i < j < es@.len() ==> es@[i].0@ != es@[j].0@,
{
    match text.parse::<toml::Table>() {
        Ok(table) => Ok(table.into_iter().collect()),
        Err(e) => Err(TomlSyntaxError { span: e.span().map(|r| (r.start, r.end)), message: e.message().to_string() }),
    }
}

/// Takes a `toml::Value` apart by its variant, one level deep: a string, an
/// integer or a boolean as it is, a float or a datetime as its `to_string`
/// text, an array's elements, or a table's entries (no key twice). What the
/// value holds, `toml_value_contents`, is what the part holds.
#[verifier::external_body]
fn toml_node(v: &toml::Value) -> (res: TomlNode)
    ensures
        match res {
            TomlNode::Text(s) => toml_value_contents(*v) == TomlValueView::Text(s@),
            TomlNode::Integer(i) => toml_value_contents(*v) == TomlValueView::Integer(i),
            TomlNode::Float(f) => toml_value_contents(*v) == TomlValueView::Float(f@),
            TomlNode::Boolean(b) => toml_value_contents(*v) == TomlValueView::Boolean(b),
            TomlNode::Datetime(d) => toml_value_contents(*v) == TomlValueView::Datetime(d@),
            TomlNode::Array(items) => toml_value_contents(*v) == TomlValueView::Array(toml_items_contents(items@)),
            TomlNode::Table(es) => toml_value_contents(*v) == TomlValueView::Table(toml_entries_contents(es@))
                && forall|i: int, j: int| 0 <= i < j < es@.len() ==> es@[i].0@ != es@[j].0@,
        },
{
    match v {
        toml::Value::String(s) => TomlNode::Text(s.clone()),
        toml::Value::Integer(i) => TomlNode::Integer(*i),
        toml::Value::Float(f) => TomlNode::Float(f.to_string()),
        toml::Value::Boolean(b) => TomlNode::Boolean(*b),
        toml::Value::Datetime(d) => TomlNode::Datetime(d.to_string()),
        toml::Value::Array(a) => TomlNode::Array(a.clone()),
        toml::Value::Table(t) => TomlNode::Table(t.clone().into_iter().collect()),
    }
}

/// `std::str::from_utf8`: the text the bytes encode, when they are valid
/// UTF-8, as the standard library documents.
#[verifier::external_body]
fn utf8_text(bytes: &[u8]) -> (res: Option<&str>)
    ensures
        res is Some == valid_utf8(bytes@),
        res matches Some(s) ==> s@ == decode_utf8(bytes@),
{
    match std::str::from_utf8(bytes) {
        Ok(text) => Some(text),
        Err(_) => None,
    }
}

// ---------------------------------------------------------------------------
// Positions and numbers
// ---------------------------------------------------------------------------

/// The number of newline bytes in `b`.
pub open spec fn count_newlines(b: Seq<u8>) -> nat
    decreases b.len(),
{
    if b.len() == 0 {
        0
    } else {
        count_newlines(b.drop_last()) + if b.last() == 10u8 { 1nat } else { 0nat }
    }
}

/// Where the line that `b` ends in starts: just after its last newline, or 0.
pub open spec fn line_start(b: Seq<u8>) -> nat
    decreases b.len(),
{
    if b.len() == 0 {
        0
    } else if b.last() == 10u8 {
        b.len()
    } else {
        line_start(b.drop_last())
    }
}

/// The zero-based line and column (in bytes) of a byte offset into a text;
/// an offset past the end counts as the end.
pub open spec fn spec_linecol(b: Seq<u8>, offset: int) -> (nat, nat) {
    let o = if offset < b.len() { offset } else { b.len() as int };
    let pre = b.take(o);
    (count_newlines(pre), (o - line_start(pre)) as nat)
}

proof fn lemma_line_start_bound(b: Seq<u8>)
    ensures
        line_start(b) <= b.len(),
        count_newlines(b) <= b.len(),
    decreases b.len(),
{
    if b.len() > 0 {
        lemma_line_start_bound(b.drop_last());
    }
}

/// The zero-based line and column of a byte offset (see `spec_linecol`).
pub fn linecol(b: &[u8], offset: usize) -> (res: (usize, usize))
    ensures
        res.0 == spec_linecol(b@, offset as int).0,
        res.1 == spec_linecol(b@, offset as int).1,
{
    let o: usize = if offset < b.len() { offset } else { b.len() };
    let mut lines: usize = 0;
    let mut start: usize = 0;
    let mut i: usize = 0;
    while i < o
        invariant
            i <= o <= b@.len(),
            lines == count_newlines(b@.take(i as int)),
            start == line_start(b@.take(i as int)),
            lines <= i,
            start <= i,
        decreases o - i,
    {
        assert(b@.take(i + 1).drop_last() =~= b@.take(i as int));
        if b[i] == 10u8 {
            lines = lines + 1;
            start = i + 1;
        }
        i = i + 1;
    }
    (lines, o - start)
}

/// The decimal digit `d`.
pub open spec fn digit(d: nat) -> char {
    if d == 0 { '0' } else if d == 1 { '1' } else if d == 2 { '2' } else if d == 3 { '3' }
    else if d == 4 { '4' } else if d == 5 { '5' } else if d == 6 { '6' } else if d == 7 { '7' }
    else if d == 8 { '8' } else { '9' }
}

/// The decimal text of `n`.
pub open spec fn decimal(n: nat) -> Seq<char>
    decreases n,
{
    if n < 10 {
        seq![digit(n)]
    } else {
        decimal(n / 10).push(digit(n % 10))
    }
}

fn digit_str(d: u128) -> (res: &'static str)
    requires
        d < 10,
    ensures
        res@ == seq![digit(d as nat)],
{
    proof {
        reveal_strlit("0");
        reveal_strlit("1");
        reveal_strlit("2");
        reveal_strlit("3");
        reveal_strlit("4");
        reveal_strlit("5");
        reveal_strlit("6");
        reveal_strlit("7");
        reveal_strlit("8");
        reveal_strlit("9");
    }
    if d == 0 { "0" } else if d == 1 { "1" } else if d == 2 { "2" } else if d == 3 { "3" }
    else if d == 4 { "4" } else if d == 5 { "5" } else if d == 6 { "6" } else if d == 7 { "7" }
    else if d == 8 { "8" } else { "9" }
}

/// Appends the decimal text of `n`.
pub fn push_decimal(out: &mut String, n: u128)
    ensures
        final(out)@ == old(out)@ + decimal(n as nat),
    decreases n,
{
    if n < 10 {
        out.append(digit_str(n));
    } else {
        push_decimal(out, n / 10);
        out.append(digit_str(n % 10));
        assert(decimal(n as nat) == decimal((n / 10) as nat).push(digit((n % 10) as nat)));
    }
}

// ---------------------------------------------------------------------------
// Parsing
// ---------------------------------------------------------------------------

/// Where a parse error is: `file:line:col`, one-based, followed by
/// `-line:col` of the end when the end is elsewhere; just `file` when the
/// error has no position.
pub open spec fn spec_error_position(file: Seq<char>, text: Seq<u8>, span: Option<(usize, usize)>) -> Seq<char> {
    match span {
        Some((lo, hi)) => {
            let (ll, lc) = spec_linecol(text, lo as int);
            let (hl, hc) = spec_linecol(text, hi as int);
            file + ":"@ + decimal(ll + 1) + ":"@ + decimal(lc + 1) + if ll != hl || lc != hc {
                "-"@ + decimal(hl + 1) + ":"@ + decimal(hc + 1)
            } else {
                Seq::empty()
            }
        },
        None => file,
    }
}

/// The report of a parse error at `span` of `text` (in `file`) that says `desc`.
pub open spec fn spec_parse_message(file: Seq<char>, text: Seq<u8>, span: Option<(usize, usize)>, desc: Seq<char>) -> Seq<char> {
    "could not parse input TOML\n"@ + spec_error_position(file, text, span) + " "@ + desc + "\n"@
}

/// The report of a parse error (see `spec_parse_message`).
pub fn parse_error_message(file: &str, text: &[u8], span: Option<(usize, usize)>, desc: &str) -> (res: String)
    ensures
        res@ == spec_parse_message(file@, text@, span, desc@),
{
    proof {
        lemma_line_start_bound(text@);
    }
    let mut res = String::from_str("could not parse input TOML\n");
    res.append(file);
    match span {
        Some((lo, hi)) => {
            let (ll, lc): (usize, usize) = linecol(text, lo);
            let (hl, hc): (usize, usize) = linecol(text, hi);
            proof {
                let o = if lo < text@.len() { lo as int } else { text@.len() as int };
                lemma_line_start_bound(text@.take(o));
                let o2 = if hi < text@.len() { hi as int } else { text@.len() as int };
                lemma_line_start_bound(text@.take(o2));
            }
            res.append(":");
            push_decimal(&mut res, ll as u128 + 1);
            res.append(":");
            push_decimal(&mut res, lc as u128 + 1);
            if ll != hl || lc != hc {
                res.append("-");
                push_decimal(&mut res, hl as u128 + 1);
                res.append(":");
                push_decimal(&mut res, hc as u128 + 1);
            }
        },
        None => {},
    }
    res.append(" ");
    res.append(desc);
    res.append("\n");
    res
}

/// Turns a value that the `toml` crate parsed into a `TomlValue` that holds
/// the same.
fn lower(v: &toml::Value) -> (res: TomlValue)
    ensures
        res@ == toml_value_contents(*v),
        keys_unique(res@),
    decreases toml_value_contents(*v), 1nat,
{
    broadcast use crate::toml_value::group_toml_view;
    match toml_node(v) {
        TomlNode::Text(s) => TomlValue::Text(s),
        TomlNode::Integer(i) => TomlValue::Integer(i),
        TomlNode::Float(f) => TomlValue::Float(f),
        TomlNode::Boolean(b) => TomlValue::Boolean(b),
        TomlNode::Datetime(d) => TomlValue::Datetime(d),
        TomlNode::Array(items) => {
            let mut out: Vec<TomlValue> = Vec::new();
            let mut i: usize = 0;
            while i < items.len()
                invariant
                    i <= items.len(),
                    out@.len() == i,
                    toml_value_contents(*v) == TomlValueView::Array(toml_items_contents(items@)),
                    forall|j: int| 0 <= j < i ==> (#[trigger] out@[j])@ == toml_value_contents(items@[j]),
                    forall|j: int| 0 <= j < i ==> keys_unique((#[trigger] out@[j])@),
                decreases items.len() - i,
            {
                proof {
                    let whole = toml_value_contents(*v);
                    let parts = toml_items_contents(items@);
                    assert(parts[i as int] == toml_value_contents(items@[i as int]));
                    assert(decreases_to!(whole => whole->Array_0));
                    assert(decreases_to!(parts => parts[i as int]));
                }
                let y = lower(&items[i]);
                out.push(y);
                i = i + 1;
            }
            assert(array_view(out@) =~= toml_items_contents(items@));
            TomlValue::Array(out)
        },
        TomlNode::Table(es) => lower_entries(&es),
    }
}

/// Turns the entries of a table that the `toml` crate parsed into a
/// `TomlValue` table that holds the same, with the keys in the same order.
fn lower_entries(es: &Vec<(String, toml::Value)>) -> (res: TomlValue)
    requires
        forall|i: int, j: int| 0 <= i < j < es@.len() ==> es@[i].0@ != es@[j].0@,
    ensures
        res@ == TomlValueView::Table(toml_entries_contents(es@)),
        keys_unique(res@),
    decreases TomlValueView::Table(toml_entries_contents(es@)), 0nat,
{
    broadcast use crate::toml_value::group_toml_view;
    let mut out: Vec<(String, TomlValue)> = Vec::new();
    let mut i: usize = 0;
    while i < es.len()
        invariant
            i <= es.len(),
            out@.len() == i,
            forall|j: int| 0 <= j < i ==> (#[trigger] out@[j]).0@ == es@[j].0@,
            forall|j: int| 0 <= j < i ==> (#[trigger] out@[j]).1@ == toml_value_contents(es@[j].1),
            forall|j: int| 0 <= j < i ==> keys_unique((#[trigger] out@[j]).1@),
        decreases es.len() - i,
    {
        proof {
            let whole = TomlValueView::Table(toml_entries_contents(es@));
            let parts = toml_entries_contents(es@);
            assert(parts[i as int] == (es@[i as int].0@, toml_value_contents(es@[i as int].1)));
            assert(decreases_to!(whole => whole->Table_0));
            assert(decreases_to!(parts => parts[i as int]));
            assert(decreases_to!(parts[i as int] => parts[i as int].1));
        }
        let y = lower(&es[i].1);
        let k = es[i].0.clone();
        out.push((k, y));
        i = i + 1;
    }
    assert(table_view(out@) =~= toml_entries_contents(es@));
    TomlValue::Table(out)
}

/// Parses the text of a TOML document, in `file`, into its top-level table:
/// the table the `toml` crate parses the text into. When the crate refuses
/// the text, the error reports where and why, as the crate's error gives
/// them (see `spec_parse_message`).
pub fn parse(toml: &str, file: &str) -> (res: Result<TomlValue, ManifestError>)
    ensures
        match toml_parse(toml@) {
            Ok(doc) => res matches Ok(t) && t@ == doc,
            Err((span, desc)) => res matches Err(e)
                && e@ == ManifestErrorView::Parse(spec_parse_message(file@, toml.spec_bytes(), span, desc)),
        },
        res matches Ok(t) ==> t@ is Table && keys_unique(t@),
{
    match toml_parse_table(toml) {
        Ok(entries) => Ok(lower_entries(&entries)),
        Err(e) => {
            let msg = parse_error_message(file, toml.as_bytes(), e.span, e.message.as_str());
            Err(ManifestError::Parse(msg))
        },
    }
}

// ---------------------------------------------------------------------------
// The manifest
// ---------------------------------------------------------------------------

/// The manifest a TOML document describes: its tables are read (an error
/// there makes the manifest invalid), the tables are turned into the
/// package model (an error there makes it invalid too), the document's keys
/// that mean nothing to a manifest are recorded, and a manifest without any
/// target is refused.
pub open spec fn spec_manifest_from_document(
    doc: TomlValueView,
    source_id: SourceIdView,
    layout: LayoutView,
) -> Result<(ManifestView, Seq<Seq<char>>), ManifestErrorView> {
    match spec_decode_manifest(doc) {
        Err(e) => Err(ManifestErrorView::Invalid(Box::new(ManifestErrorView::Decode(e)))),
        Ok(m) => match spec_toml_to_manifest(m, source_id, layout) {
            Err(e) => Err(ManifestErrorView::Invalid(Box::new(e))),
            Ok((man, paths)) => {
                let man2 = ManifestView { unused_keys: man.unused_keys + spec_unused_keys(doc), ..man };
                if man2.targets.len() == 0 {
                    Err(ManifestErrorView::NoTargets)
                } else {
                    Ok((man2, paths))
                }
            },
        },
    }
}

/// The manifest a TOML document describes (see `spec_manifest_from_document`),
/// with the paths of the packages its path dependencies live in.
pub fn manifest_from_document(doc: &TomlValue, source_id: &SourceId, layout: &Layout) -> (res: Result<(Manifest, Vec<String>), ManifestError>)
    ensures
        result_view(res) == spec_manifest_from_document(doc@, source_id@, layout@),
{
    let toml_manifest = match decode_manifest(doc) {
        Ok(m) => m,
        Err(e) => {
            let inner = ManifestError::Decode(e);
            assert(inner@ == ManifestErrorView::Decode(e@));
            let outer = ManifestError::Invalid(Box::new(inner));
            assert(outer@ == ManifestErrorView::Invalid(Box::new(inner@)));
            return Err(outer);
        },
    };
    let (mut manifest, paths) = match toml_manifest.to_manifest(source_id, layout) {
        Ok(pair) => pair,
        Err(e) => return Err(ManifestError::Invalid(Box::new(e))),
    };
    let unused = unused_keys(doc);
    let ghost start = manifest@;
    let mut i: usize = 0;
    while i < unused.len()
        invariant
            i <= unused.len(),
            manifest@ == (ManifestView {
                unused_keys: start.unused_keys + unused.deep_view().take(i as int),
                ..start
            }),
        decreases unused.len() - i,
    {
        manifest.add_unused_key(unused[i].clone());
        assert(start.unused_keys + unused.deep_view().take(i + 1)
            =~= (start.unused_keys + unused.deep_view().take(i as int)).push(unused@[i as int]@));
        i = i + 1;
    }
    assert(unused.deep_view().take(i as int) =~= unused.deep_view());
    if manifest.get_targets().len() == 0 {
        return Err(ManifestError::NoTargets);
    }
    Ok((manifest, paths))
}

/// Reads the bytes of a `Cargo.toml` into the manifest they describe, with
/// the paths of the packages its path dependencies live in. Bytes that are
/// not UTF-8 are refused; text that the `toml` crate refuses gives the parse
/// error that `parse` gives; otherwise the result is the manifest of the
/// document the crate parsed the text into (see
/// `spec_manifest_from_document`).
pub fn to_manifest(contents: &[u8], source_id: &SourceId, layout: Layout) -> (res: Result<(Manifest, Vec<String>), ManifestError>)
    ensures
        !valid_utf8(contents@) ==> res matches Err(ManifestError::NotUtf8),
        valid_utf8(contents@) ==> match toml_parse(decode_utf8(contents@)) {
            Ok(doc) => result_view(res) == spec_manifest_from_document(doc, source_id@, layout@),
            Err((span, desc)) => result_view(res) == Err::<(ManifestView, Seq<Seq<char>>), ManifestErrorView>(
                ManifestErrorView::Parse(spec_parse_message("Cargo.toml"@, contents@, span, desc)),
            ),
        },
{
    let text = match utf8_text(contents) {
        Some(t) => t,
        None => return Err(ManifestError::NotUtf8),
    };
    proof {
        vstd::utf8::decode_utf8_encode_utf8(contents@);
        assert(text.spec_bytes() == contents@);
    }
    let doc = match parse(text, "Cargo.toml") {
        Ok(d) => d,
        Err(e) => return Err(e),
    };
    manifest_from_document(&doc, source_id, &layout)
}

} // verus!
