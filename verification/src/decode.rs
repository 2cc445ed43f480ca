//! Reading a manifest's tables out of a TOML document, and finding the keys
//! of the document that the manifest does not use.

use vstd::prelude::*;
use vstd::string::*;
use crate::model::{DecodeError, DecodeErrorView};
use crate::schema::{
    DetailedTomlDependency, DetailedTomlDependencyView, TomlBuildCommandsList, TomlBuildCommandsListView,
    TomlDependencies, TomlDependency, TomlDependencyView, TomlManifest, TomlManifestView, TomlProject,
    TomlProjectView, TomlTarget, TomlTargetView,
};
use crate::toml_value::{
    array_view, field_index, field_index_exec, join_key, join_key_exec, leaf_keys, push_leaf_keys, table_view,
    TomlValue, TomlValueView,
};

verus! {

broadcast use crate::toml_value::group_toml_view;

pub open spec fn mismatch(key: Seq<char>, expected: Seq<char>) -> DecodeErrorView {
    DecodeErrorView { key, expected }
}

fn mismatch_exec(key: &str, expected: &str) -> (e: DecodeError)
    ensures
        e@ == mismatch(key@, expected@),
{
    DecodeError { key: String::from_str(key), expected: String::from_str(expected) }
}

// ---------------------------------------------------------------------------
// Leaves
// ---------------------------------------------------------------------------

pub open spec fn spec_read_string(v: TomlValueView, key: Seq<char>) -> Result<Seq<char>, DecodeErrorView> {
    match v {
        TomlValueView::Text(s) => Ok(s),
        _ => Err(mismatch(key, "string"@)),
    }
}

pub open spec fn spec_read_bool(v: TomlValueView, key: Seq<char>) -> Result<bool, DecodeErrorView> {
    match v {
        TomlValueView::Boolean(b) => Ok(b),
        _ => Err(mismatch(key, "boolean"@)),
    }
}

/// The first `n` elements of an array, each read as a string.
pub open spec fn spec_read_string_items(items: Seq<TomlValueView>, key: Seq<char>, n: nat) -> Result<Seq<Seq<char>>, DecodeErrorView>
    decreases n,
{
    if n == 0 || n > items.len() {
        Ok(Seq::empty())
    } else {
        match spec_read_string_items(items, key, (n - 1) as nat) {
            Err(e) => Err(e),
            Ok(done) => match spec_read_string(items[n - 1], key) {
                Ok(s) => Ok(done.push(s)),
                Err(e) => Err(e),
            },
        }
    }
}

pub open spec fn spec_read_strings(v: TomlValueView, key: Seq<char>) -> Result<Seq<Seq<char>>, DecodeErrorView> {
    match v {
        TomlValueView::Array(items) => spec_read_string_items(items, key, items.len()),
        _ => Err(mismatch(key, "array"@)),
    }
}

fn read_string(v: &TomlValue, key: &str) -> (res: Result<String, DecodeError>)
    ensures
        match res {
            Ok(s) => spec_read_string(v@, key@) == Ok::<Seq<char>, DecodeErrorView>(s@),
            Err(e) => spec_read_string(v@, key@) == Err::<Seq<char>, DecodeErrorView>(e@),
        },
{
    match v {
        TomlValue::Text(s) => Ok(s.clone()),
        _ => Err(mismatch_exec(key, "string")),
    }
}

fn read_bool(v: &TomlValue, key: &str) -> (res: Result<bool, DecodeError>)
    ensures
        match res {
            Ok(b) => spec_read_bool(v@, key@) == Ok::<bool, DecodeErrorView>(b),
            Err(e) => spec_read_bool(v@, key@) == Err::<bool, DecodeErrorView>(e@),
        },
{
    match v {
        TomlValue::Boolean(b) => Ok(*b),
        _ => Err(mismatch_exec(key, "boolean")),
    }
}

fn read_strings(v: &TomlValue, key: &str) -> (res: Result<Vec<String>, DecodeError>)
    ensures
        match res {
            Ok(s) => spec_read_strings(v@, key@) == Ok::<Seq<Seq<char>>, DecodeErrorView>(s.deep_view()),
            Err(e) => spec_read_strings(v@, key@) == Err::<Seq<Seq<char>>, DecodeErrorView>(e@),
        },
{
    match v {
        TomlValue::Array(items) => {
            let mut out: Vec<String> = Vec::new();
            assert(out.deep_view() =~= Seq::<Seq<char>>::empty());
            let mut i: usize = 0;
            while i < items.len()
                invariant
                    i <= items.len(),
                    *v == TomlValue::Array(*items),
                    spec_read_string_items(array_view(items@), key@, i as nat) == Ok::<Seq<Seq<char>>, DecodeErrorView>(out.deep_view()),
                decreases items.len() - i,
            {
                match read_string(&items[i], key) {
                    Ok(s) => {
                        let ghost before = out.deep_view();
                        out.push(s);
                        assert(out.deep_view() =~= before.push(s@));
                    },
                    Err(e) => {
                        proof {
                            lemma_string_items_error(array_view(items@), key@, i as nat + 1);
                        }
                        return Err(e);
                    },
                }
                i = i + 1;
            }
            Ok(out)
        },
        _ => Err(mismatch_exec(key, "array")),
    }
}

proof fn lemma_string_items_error(items: Seq<TomlValueView>, key: Seq<char>, n: nat)
    requires
        0 < n <= items.len(),
        spec_read_string_items(items, key, n) is Err,
    ensures
        spec_read_string_items(items, key, items.len()) == spec_read_string_items(items, key, n),
    decreases items.len() - n,
{
    if n < items.len() {
        lemma_string_items_error(items, key, n + 1);
    }
}

// ---------------------------------------------------------------------------
// Fields of a table
// ---------------------------------------------------------------------------

/// An optional string field: absent, or read at the key it was found under.
pub open spec fn spec_opt_string_field(es: Seq<(Seq<char>, TomlValueView)>, prefix: Seq<char>, name: Seq<char>, alt: Seq<char>) -> Result<Option<Seq<char>>, DecodeErrorView> {
    let i = field_index(es, name, alt);
    if i < 0 {
        Ok(None)
    } else {
        match spec_read_string(es[i].1, join_key(prefix, es[i].0)) {
            Ok(s) => Ok(Some(s)),
            Err(e) => Err(e),
        }
    }
}

/// A required string field: missing, it is an error at the field's key.
pub open spec fn spec_req_string_field(es: Seq<(Seq<char>, TomlValueView)>, prefix: Seq<char>, name: Seq<char>) -> Result<Seq<char>, DecodeErrorView> {
    let i = field_index(es, name, name);
    if i < 0 {
        Err(mismatch(join_key(prefix, name), "string"@))
    } else {
        spec_read_string(es[i].1, join_key(prefix, es[i].0))
    }
}

pub open spec fn spec_opt_bool_field(es: Seq<(Seq<char>, TomlValueView)>, prefix: Seq<char>, name: Seq<char>) -> Result<Option<bool>, DecodeErrorView> {
    let i = field_index(es, name, name);
    if i < 0 {
        Ok(None)
    } else {
        match spec_read_bool(es[i].1, join_key(prefix, es[i].0)) {
            Ok(b) => Ok(Some(b)),
            Err(e) => Err(e),
        }
    }
}

pub open spec fn spec_opt_strings_field(es: Seq<(Seq<char>, TomlValueView)>, prefix: Seq<char>, name: Seq<char>, alt: Seq<char>) -> Result<Option<Seq<Seq<char>>>, DecodeErrorView> {
    let i = field_index(es, name, alt);
    if i < 0 {
        Ok(None)
    } else {
        match spec_read_strings(es[i].1, join_key(prefix, es[i].0)) {
            Ok(s) => Ok(Some(s)),
            Err(e) => Err(e),
        }
    }
}

pub open spec fn spec_req_strings_field(es: Seq<(Seq<char>, TomlValueView)>, prefix: Seq<char>, name: Seq<char>) -> Result<Seq<Seq<char>>, DecodeErrorView> {
    let i = field_index(es, name, name);
    if i < 0 {
        Err(mismatch(join_key(prefix, name), "array"@))
    } else {
        spec_read_strings(es[i].1, join_key(prefix, es[i].0))
    }
}

fn opt_string_field(es: &Vec<(String, TomlValue)>, prefix: &str, name: &str, alt: &str) -> (res: Result<Option<String>, DecodeError>)
    ensures
        match res {
            Ok(s) => spec_opt_string_field(table_view(es@), prefix@, name@, alt@) == Ok::<Option<Seq<char>>, DecodeErrorView>(s.deep_view()),
            Err(e) => spec_opt_string_field(table_view(es@), prefix@, name@, alt@) == Err::<Option<Seq<char>>, DecodeErrorView>(e@),
        },
{
    match field_index_exec(es, name, alt) {
        None => Ok(None),
        Some(i) => {
            let key = join_key_exec(prefix, es[i].0.as_str());
            match read_string(&es[i].1, key.as_str()) {
                Ok(s) => Ok(Some(s)),
                Err(e) => Err(e),
            }
        },
    }
}

fn req_string_field(es: &Vec<(String, TomlValue)>, prefix: &str, name: &str) -> (res: Result<String, DecodeError>)
    ensures
        match res {
            Ok(s) => spec_req_string_field(table_view(es@), prefix@, name@) == Ok::<Seq<char>, DecodeErrorView>(s@),
            Err(e) => spec_req_string_field(table_view(es@), prefix@, name@) == Err::<Seq<char>, DecodeErrorView>(e@),
        },
{
    match field_index_exec(es, name, name) {
        None => {
            let key = join_key_exec(prefix, name);
            Err(mismatch_exec(key.as_str(), "string"))
        },
        Some(i) => {
            let key = join_key_exec(prefix, es[i].0.as_str());
            read_string(&es[i].1, key.as_str())
        },
    }
}

fn opt_bool_field(es: &Vec<(String, TomlValue)>, prefix: &str, name: &str) -> (res: Result<Option<bool>, DecodeError>)
    ensures
        match res {
            Ok(b) => spec_opt_bool_field(table_view(es@), prefix@, name@) == Ok::<Option<bool>, DecodeErrorView>(b),
            Err(e) => spec_opt_bool_field(table_view(es@), prefix@, name@) == Err::<Option<bool>, DecodeErrorView>(e@),
        },
{
    match field_index_exec(es, name, name) {
        None => Ok(None),
        Some(i) => {
            let key = join_key_exec(prefix, es[i].0.as_str());
            match read_bool(&es[i].1, key.as_str()) {
                Ok(b) => Ok(Some(b)),
                Err(e) => Err(e),
            }
        },
    }
}

fn opt_strings_field(es: &Vec<(String, TomlValue)>, prefix: &str, name: &str, alt: &str) -> (res: Result<Option<Vec<String>>, DecodeError>)
    ensures
        match res {
            Ok(s) => spec_opt_strings_field(table_view(es@), prefix@, name@, alt@) == Ok::<Option<Seq<Seq<char>>>, DecodeErrorView>(s.deep_view()),
            Err(e) => spec_opt_strings_field(table_view(es@), prefix@, name@, alt@) == Err::<Option<Seq<Seq<char>>>, DecodeErrorView>(e@),
        },
{
    match field_index_exec(es, name, alt) {
        None => Ok(None),
        Some(i) => {
            let key = join_key_exec(prefix, es[i].0.as_str());
            match read_strings(&es[i].1, key.as_str()) {
                Ok(s) => Ok(Some(s)),
                Err(e) => Err(e),
            }
        },
    }
}

fn req_strings_field(es: &Vec<(String, TomlValue)>, prefix: &str, name: &str) -> (res: Result<Vec<String>, DecodeError>)
    ensures
        match res {
            Ok(s) => spec_req_strings_field(table_view(es@), prefix@, name@) == Ok::<Seq<Seq<char>>, DecodeErrorView>(s.deep_view()),
            Err(e) => spec_req_strings_field(table_view(es@), prefix@, name@) == Err::<Seq<Seq<char>>, DecodeErrorView>(e@),
        },
{
    match field_index_exec(es, name, name) {
        None => {
            let key = join_key_exec(prefix, name);
            Err(mismatch_exec(key.as_str(), "array"))
        },
        Some(i) => {
            let key = join_key_exec(prefix, es[i].0.as_str());
            read_strings(&es[i].1, key.as_str())
        },
    }
}


// ---------------------------------------------------------------------------
// Targets
// ---------------------------------------------------------------------------

/// A target entry: a table with a `name`, and optionally `crate_type` (or
/// `crate-type`), `path`, `test` and `plugin`, read in that order.
pub open spec fn spec_read_target(v: TomlValueView, key: Seq<char>) -> Result<TomlTargetView, DecodeErrorView> {
    match v {
        TomlValueView::Table(entries) => {
            let es = entries;
            match spec_req_string_field(es, key, "name"@) {
                Err(e) => Err(e),
                Ok(name) => match spec_opt_strings_field(es, key, "crate_type"@, "crate-type"@) {
                    Err(e) => Err(e),
                    Ok(crate_type) => match spec_opt_string_field(es, key, "path"@, "path"@) {
                        Err(e) => Err(e),
                        Ok(path) => match spec_opt_bool_field(es, key, "test"@) {
                            Err(e) => Err(e),
                            Ok(test) => match spec_opt_bool_field(es, key, "plugin"@) {
                                Err(e) => Err(e),
                                Ok(plugin) => Ok(TomlTargetView { name, crate_type, path, test, plugin }),
                            },
                        },
                    },
                },
            }
        },
        _ => Err(mismatch(key, "table"@)),
    }
}

/// The first `n` elements of an array, each read as a target entry.
pub open spec fn spec_read_target_items(items: Seq<TomlValueView>, key: Seq<char>, n: nat) -> Result<Seq<TomlTargetView>, DecodeErrorView>
    decreases n,
{
    if n == 0 || n > items.len() {
        Ok(Seq::empty())
    } else {
        match spec_read_target_items(items, key, (n - 1) as nat) {
            Err(e) => Err(e),
            Ok(done) => match spec_read_target(items[n - 1], key) {
                Ok(t) => Ok(done.push(t)),
                Err(e) => Err(e),
            },
        }
    }
}

/// An optional array of target entries.
pub open spec fn spec_opt_targets_field(es: Seq<(Seq<char>, TomlValueView)>, name: Seq<char>) -> Result<Option<Seq<TomlTargetView>>, DecodeErrorView> {
    let i = field_index(es, name, name);
    if i < 0 {
        Ok(None)
    } else {
        let key = join_key(Seq::empty(), es[i].0);
        match es[i].1 {
            TomlValueView::Array(items) => match spec_read_target_items(items, key, items.len()) {
                Ok(ts) => Ok(Some(ts)),
                Err(e) => Err(e),
            },
            _ => Err(mismatch(key, "array"@)),
        }
    }
}

fn read_target(v: &TomlValue, key: &str) -> (res: Result<TomlTarget, DecodeError>)
    ensures
        match res {
            Ok(t) => spec_read_target(v@, key@) == Ok::<TomlTargetView, DecodeErrorView>(t@),
            Err(e) => spec_read_target(v@, key@) == Err::<TomlTargetView, DecodeErrorView>(e@),
        },
{
    match v {
        TomlValue::Table(es) => {
            let name = match req_string_field(es, key, "name") {
                Ok(x) => x,
                Err(e) => return Err(e),
            };
            let crate_type = match opt_strings_field(es, key, "crate_type", "crate-type") {
                Ok(x) => x,
                Err(e) => return Err(e),
            };
            let path = match opt_string_field(es, key, "path", "path") {
                Ok(x) => x,
                Err(e) => return Err(e),
            };
            let test = match opt_bool_field(es, key, "test") {
                Ok(x) => x,
                Err(e) => return Err(e),
            };
            let plugin = match opt_bool_field(es, key, "plugin") {
                Ok(x) => x,
                Err(e) => return Err(e),
            };
            Ok(TomlTarget { name, crate_type, path, test, plugin })
        },
        _ => Err(mismatch_exec(key, "table")),
    }
}

fn read_target_items(items: &Vec<TomlValue>, key: &str) -> (res: Result<Vec<TomlTarget>, DecodeError>)
    ensures
        match res {
            Ok(ts) => spec_read_target_items(array_view(items@), key@, items@.len()) == Ok::<Seq<TomlTargetView>, DecodeErrorView>(crate::model::seq_view(ts@)),
            Err(e) => spec_read_target_items(array_view(items@), key@, items@.len()) == Err::<Seq<TomlTargetView>, DecodeErrorView>(e@),
        },
{
    let mut out: Vec<TomlTarget> = Vec::new();
    assert(crate::model::seq_view(out@) =~= Seq::<TomlTargetView>::empty());
    let mut i: usize = 0;
    while i < items.len()
        invariant
            i <= items.len(),
            spec_read_target_items(array_view(items@), key@, i as nat) == Ok::<Seq<TomlTargetView>, DecodeErrorView>(crate::model::seq_view(out@)),
        decreases items.len() - i,
    {
        match read_target(&items[i], key) {
            Ok(t) => {
                let ghost before = crate::model::seq_view(out@);
                out.push(t);
                assert(crate::model::seq_view(out@) =~= before.push(t@));
            },
            Err(e) => {
                proof {
                    lemma_target_items_error(array_view(items@), key@, i as nat + 1);
                }
                return Err(e);
            },
        }
        i = i + 1;
    }
    Ok(out)
}

proof fn lemma_target_items_error(items: Seq<TomlValueView>, key: Seq<char>, n: nat)
    requires
        0 < n <= items.len(),
        spec_read_target_items(items, key, n) is Err,
    ensures
        spec_read_target_items(items, key, items.len()) == spec_read_target_items(items, key, n),
    decreases items.len() - n,
{
    if n < items.len() {
        lemma_target_items_error(items, key, n + 1);
    }
}

fn opt_targets_field(es: &Vec<(String, TomlValue)>, name: &str) -> (res: Result<Option<Vec<TomlTarget>>, DecodeError>)
    ensures
        match res {
            Ok(ts) => spec_opt_targets_field(table_view(es@), name@) == Ok::<Option<Seq<TomlTargetView>>, DecodeErrorView>(crate::layout::opt_targets(ts)),
            Err(e) => spec_opt_targets_field(table_view(es@), name@) == Err::<Option<Seq<TomlTargetView>>, DecodeErrorView>(e@),
        },
{
    match field_index_exec(es, name, name) {
        None => Ok(None),
        Some(i) => {
            let key = join_key_exec("", es[i].0.as_str());
            proof {
                reveal_strlit("");
                assert(""@ =~= Seq::<char>::empty());
            }
            match &es[i].1 {
                TomlValue::Array(items) => match read_target_items(items, key.as_str()) {
                    Ok(ts) => Ok(Some(ts)),
                    Err(e) => Err(e),
                },
                _ => Err(mismatch_exec(key.as_str(), "array")),
            }
        },
    }
}


// ---------------------------------------------------------------------------
// The project table
// ---------------------------------------------------------------------------

/// A build command, or a list of them.
pub open spec fn spec_read_build(v: TomlValueView, key: Seq<char>) -> Result<TomlBuildCommandsListView, DecodeErrorView> {
    match v {
        TomlValueView::Text(s) => Ok(TomlBuildCommandsListView::SingleBuildCommand(s)),
        TomlValueView::Array(_) => match spec_read_strings(v, key) {
            Ok(cmds) => Ok(TomlBuildCommandsListView::MultipleBuildCommands(cmds)),
            Err(e) => Err(e),
        },
        _ => Err(mismatch(key, "string or array"@)),
    }
}

/// The project table: `name`, `version` and `authors` are required, `build`
/// is optional; they are read in that order.
pub open spec fn spec_read_project(v: TomlValueView, key: Seq<char>) -> Result<TomlProjectView, DecodeErrorView> {
    match v {
        TomlValueView::Table(entries) => {
            let es = entries;
            match spec_req_string_field(es, key, "name"@) {
                Err(e) => Err(e),
                Ok(name) => match spec_req_string_field(es, key, "version"@) {
                    Err(e) => Err(e),
                    Ok(version) => match spec_req_strings_field(es, key, "authors"@) {
                        Err(e) => Err(e),
                        Ok(authors) => {
                            let i = field_index(es, "build"@, "build"@);
                            if i < 0 {
                                Ok(TomlProjectView { name, version, authors, build: None })
                            } else {
                                match spec_read_build(es[i].1, join_key(key, es[i].0)) {
                                    Ok(b) => Ok(TomlProjectView { name, version, authors, build: Some(b) }),
                                    Err(e) => Err(e),
                                }
                            }
                        },
                    },
                },
            }
        },
        _ => Err(mismatch(key, "table"@)),
    }
}

pub open spec fn spec_opt_project_field(es: Seq<(Seq<char>, TomlValueView)>, name: Seq<char>) -> Result<Option<TomlProjectView>, DecodeErrorView> {
    let i = field_index(es, name, name);
    if i < 0 {
        Ok(None)
    } else {
        match spec_read_project(es[i].1, join_key(Seq::empty(), es[i].0)) {
            Ok(p) => Ok(Some(p)),
            Err(e) => Err(e),
        }
    }
}

fn read_build(v: &TomlValue, key: &str) -> (res: Result<TomlBuildCommandsList, DecodeError>)
    ensures
        match res {
            Ok(b) => spec_read_build(v@, key@) == Ok::<TomlBuildCommandsListView, DecodeErrorView>(b@),
            Err(e) => spec_read_build(v@, key@) == Err::<TomlBuildCommandsListView, DecodeErrorView>(e@),
        },
{
    match v {
        TomlValue::Text(s) => Ok(TomlBuildCommandsList::SingleBuildCommand(s.clone())),
        TomlValue::Array(_) => match read_strings(v, key) {
            Ok(cmds) => Ok(TomlBuildCommandsList::MultipleBuildCommands(cmds)),
            Err(e) => Err(e),
        },
        _ => Err(mismatch_exec(key, "string or array")),
    }
}

fn read_project(v: &TomlValue, key: &str) -> (res: Result<TomlProject, DecodeError>)
    ensures
        match res {
            Ok(p) => spec_read_project(v@, key@) == Ok::<TomlProjectView, DecodeErrorView>(p@),
            Err(e) => spec_read_project(v@, key@) == Err::<TomlProjectView, DecodeErrorView>(e@),
        },
{
    match v {
        TomlValue::Table(es) => {
            let name = match req_string_field(es, key, "name") {
                Ok(x) => x,
                Err(e) => return Err(e),
            };
            let version = match req_string_field(es, key, "version") {
                Ok(x) => x,
                Err(e) => return Err(e),
            };
            let authors = match req_strings_field(es, key, "authors") {
                Ok(x) => x,
                Err(e) => return Err(e),
            };
            let build = match field_index_exec(es, "build", "build") {
                None => None,
                Some(i) => {
                    let bkey = join_key_exec(key, es[i].0.as_str());
                    match read_build(&es[i].1, bkey.as_str()) {
                        Ok(b) => Some(b),
                        Err(e) => return Err(e),
                    }
                },
            };
            Ok(TomlProject { name, version, authors, build })
        },
        _ => Err(mismatch_exec(key, "table")),
    }
}

fn opt_project_field(es: &Vec<(String, TomlValue)>, name: &str) -> (res: Result<Option<TomlProject>, DecodeError>)
    ensures
        match res {
            Ok(p) => spec_opt_project_field(table_view(es@), name@) == Ok::<Option<TomlProjectView>, DecodeErrorView>(crate::model::opt_view(p)),
            Err(e) => spec_opt_project_field(table_view(es@), name@) == Err::<Option<TomlProjectView>, DecodeErrorView>(e@),
        },
{
    match field_index_exec(es, name, name) {
        None => Ok(None),
        Some(i) => {
            let key = join_key_exec("", es[i].0.as_str());
            proof {
                reveal_strlit("");
                assert(""@ =~= Seq::<char>::empty());
            }
            match read_project(&es[i].1, key.as_str()) {
                Ok(p) => Ok(Some(p)),
                Err(e) => Err(e),
            }
        },
    }
}

// ---------------------------------------------------------------------------
// Dependencies
// ---------------------------------------------------------------------------

/// A dependency: a version requirement, or a table of optional `version`,
/// `path`, `git`, `branch`, `tag` and `rev` (read in that order).
pub open spec fn spec_read_dependency(v: TomlValueView, key: Seq<char>) -> Result<TomlDependencyView, DecodeErrorView> {
    match v {
        TomlValueView::Text(s) => Ok(TomlDependencyView::SimpleDep(s)),
        TomlValueView::Table(entries) => {
            let es = entries;
            match spec_opt_string_field(es, key, "version"@, "version"@) {
                Err(e) => Err(e),
                Ok(version) => match spec_opt_string_field(es, key, "path"@, "path"@) {
                    Err(e) => Err(e),
                    Ok(path) => match spec_opt_string_field(es, key, "git"@, "git"@) {
                        Err(e) => Err(e),
                        Ok(git) => match spec_opt_string_field(es, key, "branch"@, "branch"@) {
                            Err(e) => Err(e),
                            Ok(branch) => match spec_opt_string_field(es, key, "tag"@, "tag"@) {
                                Err(e) => Err(e),
                                Ok(tag) => match spec_opt_string_field(es, key, "rev"@, "rev"@) {
                                    Err(e) => Err(e),
                                    Ok(rev) => Ok(TomlDependencyView::DetailedDep(
                                        DetailedTomlDependencyView { version, path, git, branch, tag, rev },
                                    )),
                                },
                            },
                        },
                    },
                },
            }
        },
        _ => Err(mismatch(key, "string or table"@)),
    }
}

/// The first `n` entries of a dependency table, in order.
pub open spec fn spec_read_dep_entries(es: Seq<(Seq<char>, TomlValueView)>, key: Seq<char>, n: nat) -> Result<Seq<(Seq<char>, TomlDependencyView)>, DecodeErrorView>
    decreases n,
{
    if n == 0 || n > es.len() {
        Ok(Seq::empty())
    } else {
        match spec_read_dep_entries(es, key, (n - 1) as nat) {
            Err(e) => Err(e),
            Ok(done) => match spec_read_dependency(es[n - 1].1, join_key(key, es[n - 1].0)) {
                Ok(d) => Ok(done.push((es[n - 1].0, d))),
                Err(e) => Err(e),
            },
        }
    }
}

/// An optional table of dependencies.
pub open spec fn spec_opt_deps_field(es: Seq<(Seq<char>, TomlValueView)>, name: Seq<char>, alt: Seq<char>) -> Result<Option<Seq<(Seq<char>, TomlDependencyView)>>, DecodeErrorView> {
    let i = field_index(es, name, alt);
    if i < 0 {
        Ok(None)
    } else {
        let key = join_key(Seq::empty(), es[i].0);
        match es[i].1 {
            TomlValueView::Table(entries) => match spec_read_dep_entries(entries, key, entries.len()) {
                Ok(d) => Ok(Some(d)),
                Err(e) => Err(e),
            },
            _ => Err(mismatch(key, "table"@)),
        }
    }
}

fn read_dependency(v: &TomlValue, key: &str) -> (res: Result<TomlDependency, DecodeError>)
    ensures
        match res {
            Ok(d) => spec_read_dependency(v@, key@) == Ok::<TomlDependencyView, DecodeErrorView>(d@),
            Err(e) => spec_read_dependency(v@, key@) == Err::<TomlDependencyView, DecodeErrorView>(e@),
        },
{
    match v {
        TomlValue::Text(s) => Ok(TomlDependency::SimpleDep(s.clone())),
        TomlValue::Table(es) => {
            let version = match opt_string_field(es, key, "version", "version") {
                Ok(x) => x,
                Err(e) => return Err(e),
            };
            let path = match opt_string_field(es, key, "path", "path") {
                Ok(x) => x,
                Err(e) => return Err(e),
            };
            let git = match opt_string_field(es, key, "git", "git") {
                Ok(x) => x,
                Err(e) => return Err(e),
            };
            let branch = match opt_string_field(es, key, "branch", "branch") {
                Ok(x) => x,
                Err(e) => return Err(e),
            };
            let tag = match opt_string_field(es, key, "tag", "tag") {
                Ok(x) => x,
                Err(e) => return Err(e),
            };
            let rev = match opt_string_field(es, key, "rev", "rev") {
                Ok(x) => x,
                Err(e) => return Err(e),
            };
            Ok(TomlDependency::DetailedDep(DetailedTomlDependency { version, path, git, branch, tag, rev }))
        },
        _ => Err(mismatch_exec(key, "string or table")),
    }
}

fn read_dep_entries(es: &Vec<(String, TomlValue)>, key: &str) -> (res: Result<TomlDependencies, DecodeError>)
    ensures
        match res {
            Ok(d) => spec_read_dep_entries(table_view(es@), key@, es@.len()) == Ok::<Seq<(Seq<char>, TomlDependencyView)>, DecodeErrorView>(crate::schema::deps_view(d@)),
            Err(e) => spec_read_dep_entries(table_view(es@), key@, es@.len()) == Err::<Seq<(Seq<char>, TomlDependencyView)>, DecodeErrorView>(e@),
        },
{
    let mut out: TomlDependencies = Vec::new();
    assert(crate::schema::deps_view(out@) =~= Seq::<(Seq<char>, TomlDependencyView)>::empty());
    let mut i: usize = 0;
    while i < es.len()
        invariant
            i <= es.len(),
            spec_read_dep_entries(table_view(es@), key@, i as nat) == Ok::<Seq<(Seq<char>, TomlDependencyView)>, DecodeErrorView>(crate::schema::deps_view(out@)),
        decreases es.len() - i,
    {
        let dkey = join_key_exec(key, es[i].0.as_str());
        match read_dependency(&es[i].1, dkey.as_str()) {
            Ok(d) => {
                let ghost before = crate::schema::deps_view(out@);
                let entry = (es[i].0.clone(), d);
                out.push(entry);
                assert(crate::schema::deps_view(out@) =~= before.push((es@[i as int].0@, d@)));
            },
            Err(e) => {
                proof {
                    lemma_dep_entries_error(table_view(es@), key@, i as nat + 1);
                }
                return Err(e);
            },
        }
        i = i + 1;
    }
    Ok(out)
}

proof fn lemma_dep_entries_error(es: Seq<(Seq<char>, TomlValueView)>, key: Seq<char>, n: nat)
    requires
        0 < n <= es.len(),
        spec_read_dep_entries(es, key, n) is Err,
    ensures
        spec_read_dep_entries(es, key, es.len()) == spec_read_dep_entries(es, key, n),
    decreases es.len() - n,
{
    if n < es.len() {
        lemma_dep_entries_error(es, key, n + 1);
    }
}

fn opt_deps_field(es: &Vec<(String, TomlValue)>, name: &str, alt: &str) -> (res: Result<Option<TomlDependencies>, DecodeError>)
    ensures
        match res {
            Ok(d) => spec_opt_deps_field(table_view(es@), name@, alt@) == Ok::<Option<Seq<(Seq<char>, TomlDependencyView)>>, DecodeErrorView>(crate::schema::opt_deps_view(d)),
            Err(e) => spec_opt_deps_field(table_view(es@), name@, alt@) == Err::<Option<Seq<(Seq<char>, TomlDependencyView)>>, DecodeErrorView>(e@),
        },
{
    match field_index_exec(es, name, alt) {
        None => Ok(None),
        Some(i) => {
            let key = join_key_exec("", es[i].0.as_str());
            proof {
                reveal_strlit("");
                assert(""@ =~= Seq::<char>::empty());
            }
            match &es[i].1 {
                TomlValue::Table(entries) => match read_dep_entries(entries, key.as_str()) {
                    Ok(d) => Ok(Some(d)),
                    Err(e) => Err(e),
                },
                _ => Err(mismatch_exec(key.as_str(), "table")),
            }
        },
    }
}

// ---------------------------------------------------------------------------
// The manifest
// ---------------------------------------------------------------------------

/// A manifest's tables, read in the order `package`, `project`, `lib`,
/// `bin`, `example`, `test`, `dependencies`, `dev_dependencies` (or
/// `dev-dependencies`); the first error met is the result.
pub open spec fn spec_decode_manifest(doc: TomlValueView) -> Result<TomlManifestView, DecodeErrorView> {
    match doc {
        TomlValueView::Table(entries) => {
            let es = entries;
            match spec_opt_project_field(es, "package"@) {
                Err(e) => Err(e),
                Ok(package) => match spec_opt_project_field(es, "project"@) {
                    Err(e) => Err(e),
                    Ok(project) => match spec_opt_targets_field(es, "lib"@) {
                        Err(e) => Err(e),
                        Ok(lib) => match spec_opt_targets_field(es, "bin"@) {
                            Err(e) => Err(e),
                            Ok(bin) => match spec_opt_targets_field(es, "example"@) {
                                Err(e) => Err(e),
                                Ok(example) => match spec_opt_targets_field(es, "test"@) {
                                    Err(e) => Err(e),
                                    Ok(test) => match spec_opt_deps_field(es, "dependencies"@, "dependencies"@) {
                                        Err(e) => Err(e),
                                        Ok(dependencies) => match spec_opt_deps_field(es, "dev_dependencies"@, "dev-dependencies"@) {
                                            Err(e) => Err(e),
                                            Ok(dev_dependencies) => Ok(TomlManifestView {
                                                package,
                                                project,
                                                lib,
                                                bin,
                                                example,
                                                test,
                                                dependencies,
                                                dev_dependencies,
                                            }),
                                        },
                                    },
                                },
                            },
                        },
                    },
                },
            }
        },
        _ => Err(mismatch(Seq::empty(), "table"@)),
    }
}

/// Reads a manifest's tables out of a TOML document (see `spec_decode_manifest`).
pub fn decode_manifest(doc: &TomlValue) -> (res: Result<TomlManifest, DecodeError>)
    ensures
        match res {
            Ok(m) => spec_decode_manifest(doc@) == Ok::<TomlManifestView, DecodeErrorView>(m@),
            Err(e) => spec_decode_manifest(doc@) == Err::<TomlManifestView, DecodeErrorView>(e@),
        },
{
    match doc {
        TomlValue::Table(es) => {
            let package = match opt_project_field(es, "package") {
                Ok(x) => x,
                Err(e) => return Err(e),
            };
            let project = match opt_project_field(es, "project") {
                Ok(x) => x,
                Err(e) => return Err(e),
            };
            let lib = match opt_targets_field(es, "lib") {
                Ok(x) => x,
                Err(e) => return Err(e),
            };
            let bin = match opt_targets_field(es, "bin") {
                Ok(x) => x,
                Err(e) => return Err(e),
            };
            let example = match opt_targets_field(es, "example") {
                Ok(x) => x,
                Err(e) => return Err(e),
            };
            let test = match opt_targets_field(es, "test") {
                Ok(x) => x,
                Err(e) => return Err(e),
            };
            let dependencies = match opt_deps_field(es, "dependencies", "dependencies") {
                Ok(x) => x,
                Err(e) => return Err(e),
            };
            let dev_dependencies = match opt_deps_field(es, "dev_dependencies", "dev-dependencies") {
                Ok(x) => x,
                Err(e) => return Err(e),
            };
            Ok(TomlManifest { package, project, lib, bin, example, test, dependencies, dev_dependencies })
        },
        _ => {
            proof {
                reveal_strlit("");
                assert(""@ =~= Seq::<char>::empty());
            }
            Err(mismatch_exec("", "table"))
        },
    }
}


// ---------------------------------------------------------------------------
// Unused keys
// ---------------------------------------------------------------------------

/// The tables whose fields the manifest reads.
#[derive(PartialEq, Eq, Structural, Clone, Copy, Debug)]
pub enum Schema {
    Project,
    Target,
    Detail,
}

/// Whether entry `j` of a table is one that the schema's struct reads.
pub open spec fn is_field_of(schema: Schema, es: Seq<(Seq<char>, TomlValueView)>, j: int) -> bool {
    match schema {
        Schema::Project => {
            ||| j == field_index(es, "name"@, "name"@)
            ||| j == field_index(es, "version"@, "version"@)
            ||| j == field_index(es, "authors"@, "authors"@)
            ||| j == field_index(es, "build"@, "build"@)
        },
        Schema::Target => {
            ||| j == field_index(es, "name"@, "name"@)
            ||| j == field_index(es, "crate_type"@, "crate-type"@)
            ||| j == field_index(es, "path"@, "path"@)
            ||| j == field_index(es, "test"@, "test"@)
            ||| j == field_index(es, "plugin"@, "plugin"@)
        },
        Schema::Detail => {
            ||| j == field_index(es, "version"@, "version"@)
            ||| j == field_index(es, "path"@, "path"@)
            ||| j == field_index(es, "git"@, "git"@)
            ||| j == field_index(es, "branch"@, "branch"@)
            ||| j == field_index(es, "tag"@, "tag"@)
            ||| j == field_index(es, "rev"@, "rev"@)
        },
    }
}

/// The leaf keys of the first `n` entries of a table that its struct does
/// not read.
pub open spec fn flat_unused(es: Seq<(Seq<char>, TomlValueView)>, prefix: Seq<char>, schema: Schema, n: nat) -> Seq<Seq<char>>
    decreases n,
{
    if n == 0 || n > es.len() {
        Seq::empty()
    } else {
        flat_unused(es, prefix, schema, (n - 1) as nat) + if is_field_of(schema, es, n - 1) {
            Seq::empty()
        } else {
            leaf_keys(es[n - 1].1, join_key(prefix, es[n - 1].0))
        }
    }
}

pub open spec fn table_unused(v: TomlValueView, key: Seq<char>, schema: Schema) -> Seq<Seq<char>> {
    match v {
        TomlValueView::Table(es) => flat_unused(es, key, schema, es.len()),
        _ => Seq::empty(),
    }
}

/// The unused keys of the first `n` target entries of an array.
pub open spec fn targets_unused(items: Seq<TomlValueView>, key: Seq<char>, n: nat) -> Seq<Seq<char>>
    decreases n,
{
    if n == 0 || n > items.len() {
        Seq::empty()
    } else {
        targets_unused(items, key, (n - 1) as nat) + table_unused(items[n - 1], key, Schema::Target)
    }
}

/// The unused keys of the first `n` dependencies of a dependency table.
pub open spec fn deps_unused(es: Seq<(Seq<char>, TomlValueView)>, key: Seq<char>, n: nat) -> Seq<Seq<char>>
    decreases n,
{
    if n == 0 || n > es.len() {
        Seq::empty()
    } else {
        deps_unused(es, key, (n - 1) as nat) + table_unused(es[n - 1].1, join_key(key, es[n - 1].0), Schema::Detail)
    }
}

pub open spec fn is_project_entry(es: Seq<(Seq<char>, TomlValueView)>, j: int) -> bool {
    j == field_index(es, "package"@, "package"@) || j == field_index(es, "project"@, "project"@)
}

pub open spec fn is_targets_entry(es: Seq<(Seq<char>, TomlValueView)>, j: int) -> bool {
    ||| j == field_index(es, "lib"@, "lib"@)
    ||| j == field_index(es, "bin"@, "bin"@)
    ||| j == field_index(es, "example"@, "example"@)
    ||| j == field_index(es, "test"@, "test"@)
}

pub open spec fn is_deps_entry(es: Seq<(Seq<char>, TomlValueView)>, j: int) -> bool {
    j == field_index(es, "dependencies"@, "dependencies"@) || j == field_index(es, "dev_dependencies"@, "dev-dependencies"@)
}

/// The unused keys of one top-level entry.
pub open spec fn top_entry_unused(es: Seq<(Seq<char>, TomlValueView)>, j: int) -> Seq<Seq<char>> {
    let k = es[j].0;
    if is_project_entry(es, j) {
        table_unused(es[j].1, k, Schema::Project)
    } else if is_targets_entry(es, j) {
        match es[j].1 {
            TomlValueView::Array(items) => targets_unused(items, k, items.len()),
            _ => Seq::empty(),
        }
    } else if is_deps_entry(es, j) {
        match es[j].1 {
            TomlValueView::Table(des) => deps_unused(des, k, des.len()),
            _ => Seq::empty(),
        }
    } else {
        leaf_keys(es[j].1, k)
    }
}

pub open spec fn top_unused(es: Seq<(Seq<char>, TomlValueView)>, n: nat) -> Seq<Seq<char>>
    decreases n,
{
    if n == 0 || n > es.len() {
        Seq::empty()
    } else {
        top_unused(es, (n - 1) as nat) + top_entry_unused(es, n - 1)
    }
}

/// The dotted keys of the document's leaves that a manifest does not read,
/// in the document's order.
pub open spec fn spec_unused_keys(doc: TomlValueView) -> Seq<Seq<char>> {
    match doc {
        TomlValueView::Table(es) => top_unused(es, es.len()),
        _ => leaf_keys(doc, Seq::empty()),
    }
}

fn is_index(found: Option<usize>, j: usize) -> (res: bool)
    ensures
        res == (found matches Some(i) && i == j),
{
    match found {
        Some(i) => i == j,
        None => false,
    }
}

/// Whether entry `j` is read by the schema's struct (see `is_field_of`).
fn is_field_of_exec(schema: Schema, es: &Vec<(String, TomlValue)>, j: usize) -> (res: bool)
    requires
        j < es@.len(),
    ensures
        res == is_field_of(schema, table_view(es@), j as int),
{
    match schema {
        Schema::Project => {
            is_index(field_index_exec(es, "name", "name"), j)
                || is_index(field_index_exec(es, "version", "version"), j)
                || is_index(field_index_exec(es, "authors", "authors"), j)
                || is_index(field_index_exec(es, "build", "build"), j)
        },
        Schema::Target => {
            is_index(field_index_exec(es, "name", "name"), j)
                || is_index(field_index_exec(es, "crate_type", "crate-type"), j)
                || is_index(field_index_exec(es, "path", "path"), j)
                || is_index(field_index_exec(es, "test", "test"), j)
                || is_index(field_index_exec(es, "plugin", "plugin"), j)
        },
        Schema::Detail => {
            is_index(field_index_exec(es, "version", "version"), j)
                || is_index(field_index_exec(es, "path", "path"), j)
                || is_index(field_index_exec(es, "git", "git"), j)
                || is_index(field_index_exec(es, "branch", "branch"), j)
                || is_index(field_index_exec(es, "tag", "tag"), j)
                || is_index(field_index_exec(es, "rev", "rev"), j)
        },
    }
}

/// Appends the unused keys of a table read with `schema` (see `table_unused`).
fn push_table_unused(v: &TomlValue, key: &str, schema: Schema, out: &mut Vec<String>)
    ensures
        final(out).deep_view() == old(out).deep_view() + table_unused(v@, key@, schema),
{
    match v {
        TomlValue::Table(es) => {
            let ghost start = out.deep_view();
            let mut i: usize = 0;
            while i < es.len()
                invariant
                    i <= es.len(),
                    out.deep_view() == start + flat_unused(table_view(es@), key@, schema, i as nat),
                decreases es.len() - i,
            {
                if !is_field_of_exec(schema, es, i) {
                    let k = join_key_exec(key, es[i].0.as_str());
                    push_leaf_keys(&es[i].1, k.as_str(), out);
                } else {
                    assert(out.deep_view() =~= start + flat_unused(table_view(es@), key@, schema, i as nat) + Seq::<Seq<char>>::empty());
                }
                i = i + 1;
            }
        },
        _ => {
            assert(out.deep_view() =~= out.deep_view() + Seq::<Seq<char>>::empty());
        },
    }
}

fn push_targets_unused(items: &Vec<TomlValue>, key: &str, out: &mut Vec<String>)
    ensures
        final(out).deep_view() == old(out).deep_view() + targets_unused(array_view(items@), key@, items@.len()),
{
    let ghost start = out.deep_view();
    let mut i: usize = 0;
    assert(out.deep_view() =~= start + targets_unused(array_view(items@), key@, 0));
    while i < items.len()
        invariant
            i <= items.len(),
            out.deep_view() == start + targets_unused(array_view(items@), key@, i as nat),
        decreases items.len() - i,
    {
        push_table_unused(&items[i], key, Schema::Target, out);
        i = i + 1;
    }
}

fn push_deps_unused(es: &Vec<(String, TomlValue)>, key: &str, out: &mut Vec<String>)
    ensures
        final(out).deep_view() == old(out).deep_view() + deps_unused(table_view(es@), key@, es@.len()),
{
    let ghost start = out.deep_view();
    let mut i: usize = 0;
    assert(out.deep_view() =~= start + deps_unused(table_view(es@), key@, 0));
    while i < es.len()
        invariant
            i <= es.len(),
            out.deep_view() == start + deps_unused(table_view(es@), key@, i as nat),
        decreases es.len() - i,
    {
        let k = join_key_exec(key, es[i].0.as_str());
        push_table_unused(&es[i].1, k.as_str(), Schema::Detail, out);
        i = i + 1;
    }
}

/// Appends the unused keys of top-level entry `j` (see `top_entry_unused`).
fn push_top_entry_unused(es: &Vec<(String, TomlValue)>, j: usize, out: &mut Vec<String>)
    requires
        j < es@.len(),
    ensures
        final(out).deep_view() == old(out).deep_view() + top_entry_unused(table_view(es@), j as int),
{
    let k = es[j].0.as_str();
    let is_project = is_index(field_index_exec(es, "package", "package"), j)
        || is_index(field_index_exec(es, "project", "project"), j);
    if is_project {
        push_table_unused(&es[j].1, k, Schema::Project, out);
        return;
    }
    let is_targets = is_index(field_index_exec(es, "lib", "lib"), j)
        || is_index(field_index_exec(es, "bin", "bin"), j)
        || is_index(field_index_exec(es, "example", "example"), j)
        || is_index(field_index_exec(es, "test", "test"), j);
    if is_targets {
        match &es[j].1 {
            TomlValue::Array(items) => push_targets_unused(items, k, out),
            _ => {
                assert(out.deep_view() =~= out.deep_view() + Seq::<Seq<char>>::empty());
            },
        }
        return;
    }
    let is_deps = is_index(field_index_exec(es, "dependencies", "dependencies"), j)
        || is_index(field_index_exec(es, "dev_dependencies", "dev-dependencies"), j);
    if is_deps {
        match &es[j].1 {
            TomlValue::Table(des) => push_deps_unused(des, k, out),
            _ => {
                assert(out.deep_view() =~= out.deep_view() + Seq::<Seq<char>>::empty());
            },
        }
        return;
    }
    push_leaf_keys(&es[j].1, k, out);
}

/// The keys of the document that a manifest does not read (see
/// `spec_unused_keys`).
pub fn unused_keys(doc: &TomlValue) -> (res: Vec<String>)
    ensures
        res.deep_view() == spec_unused_keys(doc@),
{
    let mut out: Vec<String> = Vec::new();
    assert(out.deep_view() =~= Seq::<Seq<char>>::empty());
    match doc {
        TomlValue::Table(es) => {
            let mut i: usize = 0;
            while i < es.len()
                invariant
                    i <= es.len(),
                    out.deep_view() == top_unused(table_view(es@), i as nat),
                decreases es.len() - i,
            {
                push_top_entry_unused(es, i, &mut out);
                i = i + 1;
            }
        },
        _ => {
            proof {
                reveal_strlit("");
                assert(""@ =~= Seq::<char>::empty());
            }
            push_leaf_keys(doc, "", &mut out);
            assert(out.deep_view() =~= spec_unused_keys(doc@));
        },
    }
    out
}

} // verus!
