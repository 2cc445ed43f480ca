//! Properties of the library as a whole, proved over the specifications its
//! functions are verified against.

use vstd::prelude::*;
use crate::decode::{
    spec_read_dependency, spec_read_project, spec_read_target,
    deps_unused, flat_unused, is_deps_entry, is_field_of, is_project_entry, is_targets_entry, spec_decode_manifest,
    spec_opt_deps_field, spec_read_dep_entries, spec_unused_keys, table_unused, targets_unused, top_entry_unused, top_unused, Schema,
};
use crate::layout::{
    inferred_target, is_main_rs, rs_files, spec_inferred_bins, spec_inferred_by_stem, spec_main, spec_project_layout,
    LayoutView,
};
use crate::manifest::{
    given, opt_deps, spec_bin_entries, spec_entries_or, spec_lib_entries, spec_process, spec_process_entry,
    spec_project, spec_toml_to_manifest, ContextView,
};
use crate::model::{
    spec_default_test, spec_lib_kinds, spec_metadata, spec_parse_location, MetadataView, Profile, ProfileEnv,
    SourceIdView, SourceKindView, TargetKindView, TargetView,
};
use crate::normalize::{
    rs_path, spec_bin_targets, spec_lib_targets, spec_normalize, spec_one_bin_targets, spec_one_example_target,
    spec_one_test_target, spec_target_profiles, BinDir, TestDep,
};
use crate::paths::{
    is_normal_component, last_index_of, lemma_last_index_of_bounds, lemma_normalize_file_name,
    lemma_normalize_idempotent, spec_extension, spec_file_name, spec_file_stem, spec_join, spec_normalize_path,
};
use crate::read::{count_newlines, line_start, spec_linecol, spec_manifest_from_document};
use crate::schema::{DetailedTomlDependencyView, TomlDependencyView, TomlManifestView, TomlTargetView};
use crate::toml_value::{
    entries_leaf_keys, field_index, items_leaf_keys, join_key, keys_unique, leaf_keys, lemma_find_key_bounds,
    TomlValueView,
};

verus! {

/// Every target is built for development and then for release; it is built
/// for testing unless it opts out of tests, and once more as a test
/// dependency when it is a library that tests need; and every one of its
/// profiles is a plugin profile exactly when the target is a plugin.
pub proof fn law_target_profiles(t: TomlTargetView, dep: Option<TestDep>)
    ensures
        spec_target_profiles(t, dep).len() == 2 + (if t.test != Some(false) { 1int } else { 0int }) + (if dep
            == Some(TestDep::Needed) { 1int } else { 0int }),
        spec_target_profiles(t, dep)[0].env == ProfileEnv::Compile,
        spec_target_profiles(t, dep)[1].env == ProfileEnv::Release,
        forall|i: int|
            0 <= i < spec_target_profiles(t, dep).len() ==> (#[trigger] spec_target_profiles(t, dep)[i]).plugin == (
            t.plugin == Some(true)),
        t.test != Some(false) ==> spec_target_profiles(t, dep)[2].test && spec_target_profiles(t, dep)[2].env
            == ProfileEnv::Test,
        forall|i: int|
            0 <= i < spec_target_profiles(t, dep).len() && (#[trigger] spec_target_profiles(t, dep)[i]).test ==> t.test
                != Some(false),
{
}

/// Kinds named by a `crate_type` list come one per name.
pub proof fn law_lib_kinds_length(names: Seq<Seq<char>>)
    ensures
        spec_lib_kinds(names) matches Some(kinds) ==> kinds.len() == names.len(),
    decreases names.len(),
{
    if names.len() > 0 {
        law_lib_kinds_length(names.drop_last());
    }
}

/// A file name with an extension is its stem, a `.`, and the extension.
pub proof fn law_stem_dot_extension(p: Seq<char>)
    ensures
        spec_extension(p) matches Some(ext) ==> spec_file_stem(p) matches Some(stem) && spec_file_name(p) == Some(
            stem + "."@ + ext,
        ),
{
    if let Some(name) = spec_file_name(p) {
        lemma_last_index_of_bounds(name, '.');
        let dot = last_index_of(name, '.');
        if dot > 0 {
            assert(name =~= name.subrange(0, dot) + "."@ + name.subrange(dot + 1, name.len() as int)) by {
                reveal_strlit(".");
            }
        }
    }
}

/// The last occurrence of a character in `a + b`, when `b` holds it, is the
/// one in `b`.
proof fn lemma_last_index_of_concat(a: Seq<char>, b: Seq<char>, c: char)
    requires
        last_index_of(b, c) >= 0,
    ensures
        last_index_of(a + b, c) == a.len() + last_index_of(b, c),
    decreases b.len(),
{
    let ab = a + b;
    if b.last() == c {
        assert(ab.last() == c);
    } else {
        assert(ab.drop_last() =~= a + b.drop_last());
        lemma_last_index_of_concat(a, b.drop_last(), c);
    }
}

/// `src/main.rs` under any root names a file called `main.rs`.
proof fn lemma_main_rs_under_root(root: Seq<char>)
    ensures
        is_main_rs(spec_join(root, "src/main.rs"@)),
{
    let rel = "src/main.rs"@;
    reveal_strlit("src/main.rs");
    reveal_strlit("main.rs");
    let c = "main.rs"@;
    let x = spec_normalize_path(root) + seq!['/'] + seq!['s', 'r', 'c'];
    assert(rel[0] == 's');
    assert(spec_normalize_path(root) + seq!['/'] + rel =~= x + seq!['/'] + c);
    assert(c.len() == 7 && c[0] == 'm');
    assert(is_normal_component(c));
    lemma_normalize_file_name(x, c);
    lemma_normalize_idempotent(x + seq!['/'] + c);
}

/// A list of binaries that starts with a `main.rs` finds that one as its main.
proof fn lemma_main_first(bins: Seq<Seq<char>>)
    requires
        bins.len() > 0,
        is_main_rs(bins[0]),
    ensures
        spec_main(bins) == Some(bins[0]),
    decreases bins.len(),
{
    if bins.len() > 1 {
        assert(bins.drop_last()[0] == bins[0]);
        lemma_main_first(bins.drop_last());
    } else {
        assert(spec_main(bins.drop_last()) is None);
        assert(bins.last() == bins[0]);
    }
}

/// The `.rs` files of a directory listing are entries of the listing, in
/// normal form, each with the extension `rs`.
pub proof fn law_rs_files(entries: Seq<Seq<char>>)
    ensures
        forall|i: int| 0 <= i < rs_files(entries).len() ==> spec_extension(#[trigger] rs_files(entries)[i]) == Some("rs"@),
        forall|i: int|
            0 <= i < rs_files(entries).len() ==> entries.map_values(|e: Seq<char>| spec_normalize_path(e)).contains(
                #[trigger] rs_files(entries)[i],
            ),
        rs_files(entries).len() <= entries.len(),
    decreases entries.len(),
{
    if entries.len() > 0 {
        law_rs_files(entries.drop_last());
        let rest = rs_files(entries.drop_last());
        let normal = entries.map_values(|e: Seq<char>| spec_normalize_path(e));
        let normal_rest = entries.drop_last().map_values(|e: Seq<char>| spec_normalize_path(e));
        assert forall|i: int| 0 <= i < rs_files(entries).len() implies normal.contains(#[trigger] rs_files(entries)[i]) by {
            if i < rest.len() {
                let x = rest[i];
                assert(normal_rest.contains(x));
                let k = choose|k: int| 0 <= k < normal_rest.len() && normal_rest[k] == x;
                assert(normal[k] == x);
            } else {
                assert(normal[entries.len() - 1] == spec_normalize_path(entries.last()));
            }
        }
    }
}

/// In a package with `src/main.rs`, the layout's main binary is that file;
/// the other binaries come from `src/bin` and end in `.rs`; a package with
/// `src/test.rs` has it as its last test; the library is `src/lib.rs` when
/// present.
pub proof fn law_project_layout(
    root: Seq<char>,
    has_lib_rs: bool,
    has_main_rs: bool,
    bin_dir: Seq<Seq<char>>,
    examples_dir: Seq<Seq<char>>,
    tests_dir: Seq<Seq<char>>,
    has_test_rs: bool,
)
    ensures
        ({
            let l = spec_project_layout(root, has_lib_rs, has_main_rs, bin_dir, examples_dir, tests_dir, has_test_rs);
            &&& has_main_rs ==> spec_main(l.bins) == Some(spec_join(root, "src/main.rs"@))
            &&& has_lib_rs ==> l.lib == Some(spec_join(root, "src/lib.rs"@))
            &&& !has_lib_rs ==> l.lib is None
            &&& has_test_rs ==> l.tests.last() == spec_join(root, "src/test.rs"@)
            &&& forall|i: int| 0 <= i < l.examples.len() ==> spec_extension(#[trigger] l.examples[i]) == Some("rs"@)
            &&& l.bins.len() == (if has_main_rs { 1int } else { 0int }) + rs_files(bin_dir).len()
        }),
{
    let l = spec_project_layout(root, has_lib_rs, has_main_rs, bin_dir, examples_dir, tests_dir, has_test_rs);
    law_rs_files(examples_dir);
    if has_main_rs {
        lemma_main_rs_under_root(root);
        assert(l.bins[0] == spec_join(root, "src/main.rs"@));
        lemma_main_first(l.bins);
    }
}


/// Reading a table of dependencies without error adds one dependency per
/// entry, in order, named as the entry, development dependencies being the
/// non-transitive ones.
proof fn lemma_process_ok(cx: ContextView, dev: bool, entries: Seq<(Seq<char>, TomlDependencyView)>)
    ensures
        spec_process(cx, dev, entries).1 is None ==> ({
            let c = spec_process(cx, dev, entries).0;
            &&& c.deps.len() == cx.deps.len() + entries.len()
            &&& c.source_id == cx.source_id
            &&& forall|i: int| 0 <= i < cx.deps.len() ==> c.deps[i] == cx.deps[i]
            &&& forall|i: int|
                0 <= i < entries.len() ==> (#[trigger] c.deps[cx.deps.len() + i]).name == entries[i].0
                    && c.deps[cx.deps.len() + i].transitive == !dev
        }),
    decreases entries.len(),
{
    if entries.len() > 0 {
        let rest = entries.drop_last();
        lemma_process_ok(cx, dev, rest);
        let (c1, e1) = spec_process(cx, dev, rest);
        if e1 is None {
            let last = entries.last();
            let (c2, e2) = spec_process_entry(c1, dev, last.0, last.1);
            if e2 is None {
                assert forall|i: int|
                    0 <= i < entries.len() implies (#[trigger] c2.deps[cx.deps.len() + i]).name == entries[i].0
                        && c2.deps[cx.deps.len() + i].transitive == !dev by {
                    if i < rest.len() {
                        assert(rest[i] == entries[i]);
                        assert(c2.deps[cx.deps.len() + i] == c1.deps[cx.deps.len() + i]);
                    }
                }
            }
        }
    }
}

proof fn lemma_dep_entries_keys(es: Seq<(Seq<char>, TomlValueView)>, key: Seq<char>, n: nat)
    requires
        n <= es.len(),
    ensures
        spec_read_dep_entries(es, key, n) matches Ok(deps) ==> {
            &&& deps.len() == n
            &&& forall|i: int| 0 <= i < n ==> (#[trigger] deps[i]).0 == es[i].0
        },
    decreases n,
{
    if n > 0 {
        lemma_dep_entries_keys(es, key, (n - 1) as nat);
    }
}

/// The dependencies read from a table are its entries, in order and under
/// their keys; so when no key of the table occurs twice, no two of the
/// dependencies have the same name.
pub proof fn law_dependency_names_distinct(es: Seq<(Seq<char>, TomlValueView)>, key: Seq<char>)
    requires
        forall|i: int, j: int| 0 <= i < j < es.len() ==> es[i].0 != es[j].0,
    ensures
        spec_read_dep_entries(es, key, es.len()) matches Ok(deps) ==> {
            &&& deps.len() == es.len()
            &&& forall|i: int| 0 <= i < es.len() ==> (#[trigger] deps[i]).0 == es[i].0
            &&& forall|i: int, j: int| 0 <= i < j < deps.len() ==> deps[i].0 != deps[j].0
        },
{
    lemma_dep_entries_keys(es, key, es.len());
    if spec_read_dep_entries(es, key, es.len()) is Ok {
        let deps = spec_read_dep_entries(es, key, es.len())->Ok_0;
        assert forall|i: int, j: int| 0 <= i < j < deps.len() implies deps[i].0 != deps[j].0 by {
            assert(deps[i].0 == es[i].0);
            assert(deps[j].0 == es[j].0);
        }
    }
}

/// Whether no two of the entries have the same name.
pub open spec fn names_distinct(deps: Seq<(Seq<char>, TomlDependencyView)>) -> bool {
    forall|i: int, j: int| 0 <= i < j < deps.len() ==> deps[i].0 != deps[j].0
}

proof fn lemma_opt_deps_distinct(es: Seq<(Seq<char>, TomlValueView)>, name: Seq<char>, alt: Seq<char>)
    requires
        forall|i: int| #![trigger es[i]] 0 <= i < es.len() ==> keys_unique(es[i].1),
    ensures
        spec_opt_deps_field(es, name, alt) matches Ok(Some(deps)) ==> names_distinct(deps),
{
    lemma_find_key_bounds(es, name);
    lemma_find_key_bounds(es, alt);
    let i = field_index(es, name, alt);
    if i >= 0 {
        assert(keys_unique(es[i].1));
        match es[i].1 {
            TomlValueView::Table(entries) => law_dependency_names_distinct(entries, join_key(Seq::empty(), es[i].0)),
            _ => {},
        }
    }
}

/// In the tables of a manifest read from a document in which no table has a
/// key twice, no two dependencies have the same name, nor do two
/// dev-dependencies.
pub proof fn law_decoded_dependency_names_distinct(doc: TomlValueView)
    requires
        keys_unique(doc),
    ensures
        spec_decode_manifest(doc) matches Ok(m) ==> {
            &&& (m.dependencies matches Some(deps) ==> names_distinct(deps))
            &&& (m.dev_dependencies matches Some(deps) ==> names_distinct(deps))
        },
{
    match doc {
        TomlValueView::Table(es) => {
            lemma_opt_deps_distinct(es, "dependencies"@, "dependencies"@);
            lemma_opt_deps_distinct(es, "dev_dependencies"@, "dev-dependencies"@);
        },
        _ => {},
    }
}

/// A manifest read without error depends on every entry of `[dependencies]`
/// and then every entry of `[dev-dependencies]`, in order and by name; the
/// former are transitive and the latter are not.
pub proof fn law_manifest_dependencies(m: TomlManifestView, source_id: SourceIdView, layout: LayoutView)
    ensures
        spec_toml_to_manifest(m, source_id, layout) matches Ok((man, _)) ==> ({
            let deps = man.summary.dependencies;
            let d = opt_deps(m.dependencies);
            let dd = opt_deps(m.dev_dependencies);
            &&& deps.len() == d.len() + dd.len()
            &&& forall|i: int| 0 <= i < d.len() ==> (#[trigger] deps[i]).name == d[i].0 && deps[i].transitive
            &&& forall|i: int|
                0 <= i < dd.len() ==> (#[trigger] deps[d.len() + i]).name == dd[i].0 && !deps[d.len() + i].transitive
        }),
{
    if let Ok((man, _)) = spec_toml_to_manifest(m, source_id, layout) {
        let cx0 = ContextView {
            deps: Seq::empty(),
            source_id,
            source_ids: Seq::empty(),
            nested_paths: Seq::empty(),
        };
        let d = opt_deps(m.dependencies);
        let dd = opt_deps(m.dev_dependencies);
        lemma_process_ok(cx0, false, d);
        let (cx1, _) = spec_process(cx0, false, d);
        lemma_process_ok(cx1, true, dd);
        let deps = man.summary.dependencies;
        assert forall|i: int| 0 <= i < d.len() implies (#[trigger] deps[i]).name == d[i].0 && deps[i].transitive by {
            assert(deps[i] == cx1.deps[0 + i]);
        }
    }
}


/// Binaries give binary targets only.
proof fn lemma_bin_targets_kind(bins: Seq<TomlTargetView>, dir: BinDir)
    ensures
        forall|i: int| 0 <= i < spec_bin_targets(bins, dir).len() ==> (#[trigger] spec_bin_targets(bins, dir)[i]).kind
            == TargetKindView::Bin,
    decreases bins.len(),
{
    if bins.len() > 0 {
        lemma_bin_targets_kind(bins.drop_last(), dir);
        let rest = spec_bin_targets(bins.drop_last(), dir);
        let one = spec_one_bin_targets(bins.last(), dir);
        assert forall|i: int| 0 <= i < spec_bin_targets(bins, dir).len() implies (#[trigger] spec_bin_targets(
            bins,
            dir,
        )[i]).kind == TargetKindView::Bin by {
            if i >= rest.len() {
                assert(spec_bin_targets(bins, dir)[i] == one[i - rest.len()]);
            }
        }
    }
}

/// The name and path of the library target that a manifest describes, if
/// it has one: the first `[[lib]]` entry's name, and its path, else the
/// layout's library, else `src/<name>.rs`; without a `[[lib]]` entry, the
/// package's name and the layout's library, when there is one. Paths are in
/// normal form.
pub open spec fn spec_library_target(m: TomlManifestView, name: Seq<char>, layout: LayoutView) -> Option<(Seq<char>, Seq<char>)> {
    match given(m.lib) {
        Some(libs) => Some((
            libs[0].name,
            spec_normalize_path(match libs[0].path {
                Some(p) => p,
                None => match layout.lib {
                    Some(l) => l,
                    None => rs_path("src/"@, libs[0].name),
                },
            }),
        )),
        None => match layout.lib {
            Some(l) => Some((name, spec_normalize_path(l))),
            None => None,
        },
    }
}

/// In the targets of a manifest read without error, the library targets are
/// all named and placed as `spec_library_target` says, and come first; when
/// there is no library, there is no library target.
pub proof fn law_library_targets(m: TomlManifestView, source_id: SourceIdView, layout: LayoutView)
    ensures
        spec_toml_to_manifest(m, source_id, layout) matches Ok((man, _)) ==> ({
            let lib = spec_library_target(m, spec_project(m)->0.name, layout);
            &&& forall|i: int|
                0 <= i < man.targets.len() && (#[trigger] man.targets[i]).kind is Lib ==> lib == Some(
                    (man.targets[i].name, man.targets[i].path),
                )
            &&& lib is Some ==> man.targets.len() > 0 && man.targets[0].kind is Lib
        }),
{
    if let Some(l) = layout.lib {
        lemma_normalize_idempotent(l);
    }
    if let Ok((man, _)) = spec_toml_to_manifest(m, source_id, layout) {
        let p = spec_project(m)->0;
        let lib_entries = spec_lib_entries(m, p.name, layout);
        let bin_entries = spec_bin_entries(m, p.name, layout);
        let ex = spec_entries_or(m.example, layout.examples)->0;
        let ts = spec_entries_or(m.test, layout.tests)->0;
        let b = bin_entries->0;
        lemma_bin_targets_kind(b, BinDir::SrcBin);
        lemma_bin_targets_kind(b, BinDir::Src);
        let targets = man.targets;
        let exs = ex.map_values(|x: TomlTargetView| spec_one_example_target(x));
        let tss = ts.map_values(|x: TomlTargetView| spec_one_test_target(x));
        let lib = spec_library_target(m, p.name, layout);
        match lib_entries {
            Some(libs) => {
                let l0 = libs[0];
                let lib_part = spec_lib_targets(libs, TestDep::Needed, spec_metadata(man.summary.package_id));
                let bin_part = spec_bin_targets(b, BinDir::SrcBin);
                assert(targets == lib_part + bin_part + exs + tss);
                law_target_profiles(l0, Some(TestDep::Needed));
                assert forall|i: int|
                    0 <= i < targets.len() && (#[trigger] targets[i]).kind is Lib implies lib == Some(
                        (targets[i].name, targets[i].path),
                    ) by {
                    if i < lib_part.len() {
                        assert(targets[i] == lib_part[i]);
                    } else if i < lib_part.len() + bin_part.len() {
                        assert(targets[i] == bin_part[i - lib_part.len()]);
                    } else if i < lib_part.len() + bin_part.len() + exs.len() {
                        assert(targets[i] == exs[i - lib_part.len() - bin_part.len()]);
                    } else {
                        assert(targets[i] == tss[i - lib_part.len() - bin_part.len() - exs.len()]);
                    }
                }
                assert(targets[0] == lib_part[0]);
            },
            None => {
                let bin_part = spec_bin_targets(b, BinDir::Src);
                assert(targets == bin_part + exs + tss);
                assert forall|i: int| 0 <= i < targets.len() implies (#[trigger] targets[i]).kind !is Lib by {
                    if i < bin_part.len() {
                        assert(targets[i] == bin_part[i]);
                    } else if i < bin_part.len() + exs.len() {
                        assert(targets[i] == exs[i - bin_part.len()]);
                    } else {
                        assert(targets[i] == tss[i - bin_part.len() - exs.len()]);
                    }
                }
            },
        }
    }
}

/// A manifest read from a document has at least one target.
pub proof fn law_manifest_has_targets(doc: TomlValueView, source_id: SourceIdView, layout: LayoutView)
    ensures
        spec_manifest_from_document(doc, source_id, layout) matches Ok((man, _)) ==> man.targets.len() > 0,
{
}


/// Every element of `a` is an element of `b`.
pub open spec fn within(a: Seq<Seq<char>>, b: Seq<Seq<char>>) -> bool {
    forall|x: Seq<char>| a.contains(x) ==> b.contains(x)
}

proof fn lemma_within_concat(a1: Seq<Seq<char>>, a2: Seq<Seq<char>>, b1: Seq<Seq<char>>, b2: Seq<Seq<char>>)
    requires
        within(a1, b1),
        within(a2, b2),
    ensures
        within(a1 + a2, b1 + b2),
{
    assert forall|x: Seq<char>| (a1 + a2).contains(x) implies (b1 + b2).contains(x) by {
        let k = choose|k: int| 0 <= k < (a1 + a2).len() && (a1 + a2)[k] == x;
        if k < a1.len() {
            assert(a1[k] == x);
            assert(a1.contains(x));
            let j = choose|j: int| 0 <= j < b1.len() && b1[j] == x;
            assert((b1 + b2)[j] == x);
        } else {
            assert(a2[k - a1.len()] == x);
            assert(a2.contains(x));
            let j = choose|j: int| 0 <= j < b2.len() && b2[j] == x;
            assert((b1 + b2)[b1.len() + j] == x);
        }
    }
}

proof fn lemma_within_refl(a: Seq<Seq<char>>)
    ensures
        within(a, a),
{
}

proof fn lemma_within_empty(b: Seq<Seq<char>>)
    ensures
        within(Seq::empty(), b),
{
}

proof fn lemma_flat_unused_within(es: Seq<(Seq<char>, TomlValueView)>, prefix: Seq<char>, schema: Schema, n: nat)
    ensures
        within(flat_unused(es, prefix, schema, n), entries_leaf_keys(es, prefix, n)),
    decreases n,
{
    if n == 0 || n > es.len() {
        lemma_within_empty(entries_leaf_keys(es, prefix, n));
    } else {
        lemma_flat_unused_within(es, prefix, schema, (n - 1) as nat);
        let leaves = leaf_keys(es[n - 1].1, join_key(prefix, es[n - 1].0));
        if is_field_of(schema, es, n - 1) {
            lemma_within_empty(leaves);
            lemma_within_concat(
                flat_unused(es, prefix, schema, (n - 1) as nat),
                Seq::empty(),
                entries_leaf_keys(es, prefix, (n - 1) as nat),
                leaves,
            );
        } else {
            lemma_within_refl(leaves);
            lemma_within_concat(
                flat_unused(es, prefix, schema, (n - 1) as nat),
                leaves,
                entries_leaf_keys(es, prefix, (n - 1) as nat),
                leaves,
            );
        }
    }
}

proof fn lemma_table_unused_within(v: TomlValueView, key: Seq<char>, schema: Schema)
    ensures
        within(table_unused(v, key, schema), leaf_keys(v, key)),
{
    match v {
        TomlValueView::Table(es) => lemma_flat_unused_within(es, key, schema, es.len()),
        _ => lemma_within_empty(leaf_keys(v, key)),
    }
}

proof fn lemma_targets_unused_within(items: Seq<TomlValueView>, key: Seq<char>, n: nat)
    ensures
        within(targets_unused(items, key, n), items_leaf_keys(items, key, n)),
    decreases n,
{
    if n == 0 || n > items.len() {
        lemma_within_empty(items_leaf_keys(items, key, n));
    } else {
        lemma_targets_unused_within(items, key, (n - 1) as nat);
        lemma_table_unused_within(items[n - 1], key, Schema::Target);
        lemma_within_concat(
            targets_unused(items, key, (n - 1) as nat),
            table_unused(items[n - 1], key, Schema::Target),
            items_leaf_keys(items, key, (n - 1) as nat),
            leaf_keys(items[n - 1], key),
        );
    }
}

proof fn lemma_deps_unused_within(es: Seq<(Seq<char>, TomlValueView)>, key: Seq<char>, n: nat)
    ensures
        within(deps_unused(es, key, n), entries_leaf_keys(es, key, n)),
    decreases n,
{
    if n == 0 || n > es.len() {
        lemma_within_empty(entries_leaf_keys(es, key, n));
    } else {
        lemma_deps_unused_within(es, key, (n - 1) as nat);
        let k = join_key(key, es[n - 1].0);
        lemma_table_unused_within(es[n - 1].1, k, Schema::Detail);
        lemma_within_concat(
            deps_unused(es, key, (n - 1) as nat),
            table_unused(es[n - 1].1, k, Schema::Detail),
            entries_leaf_keys(es, key, (n - 1) as nat),
            leaf_keys(es[n - 1].1, k),
        );
    }
}

proof fn lemma_top_unused_within(es: Seq<(Seq<char>, TomlValueView)>, n: nat)
    ensures
        within(top_unused(es, n), entries_leaf_keys(es, Seq::empty(), n)),
    decreases n,
{
    if n == 0 || n > es.len() {
        lemma_within_empty(entries_leaf_keys(es, Seq::empty(), n));
    } else {
        lemma_top_unused_within(es, (n - 1) as nat);
        let j = n - 1;
        let k = es[j].0;
        assert(join_key(Seq::empty(), k) == k);
        let v = es[j].1;
        if is_project_entry(es, j) {
            lemma_table_unused_within(v, k, Schema::Project);
        } else if is_targets_entry(es, j) {
            match v {
                TomlValueView::Array(items) => lemma_targets_unused_within(items, k, items.len()),
                _ => lemma_within_empty(leaf_keys(v, k)),
            }
        } else if is_deps_entry(es, j) {
            match v {
                TomlValueView::Table(des) => lemma_deps_unused_within(des, k, des.len()),
                _ => lemma_within_empty(leaf_keys(v, k)),
            }
        } else {
            lemma_within_refl(leaf_keys(v, k));
        }
        lemma_within_concat(
            top_unused(es, (n - 1) as nat),
            top_entry_unused(es, j),
            entries_leaf_keys(es, Seq::empty(), (n - 1) as nat),
            leaf_keys(v, k),
        );
    }
}

/// Every key a manifest reports as unused names a leaf of the document.
pub proof fn law_unused_keys_are_leaves(doc: TomlValueView)
    ensures
        within(spec_unused_keys(doc), leaf_keys(doc, Seq::empty())),
{
    match doc {
        TomlValueView::Table(es) => lemma_top_unused_within(es, es.len()),
        _ => lemma_within_refl(leaf_keys(doc, Seq::empty())),
    }
}


proof fn lemma_line_start(b: Seq<u8>)
    ensures
        line_start(b) <= b.len(),
        line_start(b) > 0 ==> b[line_start(b) - 1] == 10u8,
        forall|k: int| line_start(b) <= k < b.len() ==> b[k] != 10u8,
        count_newlines(b) <= b.len(),
    decreases b.len(),
{
    if b.len() > 0 {
        lemma_line_start(b.drop_last());
        assert forall|k: int| line_start(b) <= k < b.len() implies b[k] != 10u8 by {
            if k < b.len() - 1 {
                assert(b[k] == b.drop_last()[k]);
            }
        }
        if b.last() != 10u8 && line_start(b) > 0 {
            assert(b[line_start(b) - 1] == b.drop_last()[line_start(b) - 1]);
        }
    }
}

/// The column of a position in a parse error counts the bytes since the
/// last newline before it (or since the start of the text), none of which is
/// a newline; and the line is at most the position.
pub proof fn law_linecol(b: Seq<u8>, offset: int)
    requires
        0 <= offset <= b.len(),
    ensures
        ({
            let (line, col) = spec_linecol(b, offset);
            let start = offset - col;
            &&& 0 <= start <= offset
            &&& line <= offset
            &&& forall|k: int| start <= k < offset ==> b[k] != 10u8
            &&& start > 0 ==> b[start - 1] == 10u8
            &&& line == 0 ==> start == 0
        }),
{
    let pre = b.take(offset);
    lemma_line_start(pre);
    lemma_no_newline_start(pre);
    assert forall|k: int| line_start(pre) <= k < offset implies b[k] != 10u8 by {
        assert(pre[k] == b[k]);
    }
    if line_start(pre) > 0 {
        assert(pre[line_start(pre) - 1] == b[line_start(pre) - 1]);
    }
}

proof fn lemma_no_newline_start(b: Seq<u8>)
    ensures
        count_newlines(b) == 0 ==> line_start(b) == 0,
    decreases b.len(),
{
    if b.len() > 0 {
        lemma_no_newline_start(b.drop_last());
    }
}

/// The binary entries inferred from a layout: one per binary file that has a
/// stem, in order, each with that file's path in normal form as its path; `src/main.rs` is named
/// after the package and any other binary after its stem.
pub proof fn law_inferred_bins(name: Seq<char>, bins: Seq<Seq<char>>)
    ensures
        spec_inferred_bins(name, bins).len() <= bins.len(),
        (forall|i: int| 0 <= i < bins.len() ==> (#[trigger] spec_file_stem(spec_normalize_path(bins[i]))) is Some) ==> {
            &&& spec_inferred_bins(name, bins).len() == bins.len()
            &&& forall|i: int| 0 <= i < bins.len() ==> (#[trigger] spec_inferred_bins(name, bins)[i]).path == Some(
                spec_normalize_path(bins[i]),
            )
        },
        forall|i: int|
            0 <= i < spec_inferred_bins(name, bins).len() ==> ({
                let t = #[trigger] spec_inferred_bins(name, bins)[i];
                &&& t.path matches Some(p) && bins.map_values(|b: Seq<char>| spec_normalize_path(b)).contains(p)
                &&& t.name == if t.path == Some("src/main.rs"@) { name } else { spec_file_stem(t.path->0)->0 }
                &&& t.crate_type is None && t.test is None && t.plugin is None
            }),
    decreases bins.len(),
{
    if bins.len() > 0 {
        let rest_bins = bins.drop_last();
        law_inferred_bins(name, rest_bins);
        let rest = spec_inferred_bins(name, rest_bins);
        let all = spec_inferred_bins(name, bins);
        assert forall|i: int| 0 <= i < all.len() implies ({
            let t = #[trigger] all[i];
            &&& t.path matches Some(p) && bins.map_values(|b: Seq<char>| spec_normalize_path(b)).contains(p)
            &&& t.name == if t.path == Some("src/main.rs"@) { name } else { spec_file_stem(t.path->0)->0 }
            &&& t.crate_type is None && t.test is None && t.plugin is None
        }) by {
            let normal = bins.map_values(|b: Seq<char>| spec_normalize_path(b));
            let normal_rest = rest_bins.map_values(|b: Seq<char>| spec_normalize_path(b));
            if i < rest.len() {
                assert(all[i] == rest[i]);
                let p = rest[i].path->0;
                assert(normal_rest.contains(p));
                let k = choose|k: int| 0 <= k < normal_rest.len() && normal_rest[k] == p;
                assert(normal[k] == p);
            } else {
                assert(normal[bins.len() - 1] == spec_normalize_path(bins.last()));
            }
        }
        if forall|i: int| 0 <= i < bins.len() ==> (#[trigger] spec_file_stem(spec_normalize_path(bins[i]))) is Some {
            assert forall|i: int| 0 <= i < rest_bins.len() implies (#[trigger] spec_file_stem(spec_normalize_path(rest_bins[i]))) is Some by {
                assert(rest_bins[i] == bins[i]);
            }
            assert(spec_file_stem(spec_normalize_path(bins[bins.len() - 1])) is Some);
            assert forall|i: int| 0 <= i < bins.len() implies (#[trigger] all[i]).path == Some(spec_normalize_path(bins[i])) by {
                if i < rest.len() {
                    assert(rest_bins[i] == bins[i]);
                    assert(rest[i].path == Some(spec_normalize_path(rest_bins[i])));
                }
            }
        }
    }
}

// ---------------------------------------------------------------------------
// What each kind of target entry becomes
// ---------------------------------------------------------------------------

/// The targets of the `[[test]]` entries come last, one per entry and in the
/// entries' order, after the targets that the other entries make on their
/// own: each is a test target, named as its entry, built with the test
/// profile and no metadata, at the entry's path (else `src/test.rs` for a test
/// named `test`, else `tests/<name>.rs`) in normal form.
pub proof fn law_test_targets(
    lib: Option<Seq<TomlTargetView>>,
    bin: Option<Seq<TomlTargetView>>,
    example: Option<Seq<TomlTargetView>>,
    tests: Seq<TomlTargetView>,
    md: MetadataView,
)
    ensures
        ({
            let all = spec_normalize(lib, bin, example, Some(tests), md);
            let others = spec_normalize(lib, bin, example, None, md);
            &&& all.len() == others.len() + tests.len()
            &&& all.subrange(0, others.len() as int) == others
            &&& forall|i: int| #![trigger tests[i]] 0 <= i < tests.len() ==> {
                let t = all[others.len() + i];
                &&& t.kind == TargetKindView::Test
                &&& t.name == tests[i].name
                &&& t.profile == spec_default_test()
                &&& t.metadata is None
                &&& t.path == spec_normalize_path(match tests[i].path {
                    Some(p) => p,
                    None => if tests[i].name == "test"@ { "src/test.rs"@ } else { "tests/"@ + tests[i].name + ".rs"@ },
                })
            }
        }),
{
    let all = spec_normalize(lib, bin, example, Some(tests), md);
    let others = spec_normalize(lib, bin, example, None, md);
    let part = tests.map_values(|x: TomlTargetView| spec_one_test_target(x));
    assert(others + Seq::<TargetView>::empty() =~= others);
    assert(all =~= others + part);
    assert(all.subrange(0, others.len() as int) =~= others);
    assert forall|i: int| #![trigger tests[i]] 0 <= i < tests.len() implies ({
        let t = all[others.len() + i];
        &&& t.kind == TargetKindView::Test
        &&& t.name == tests[i].name
        &&& t.profile == spec_default_test()
        &&& t.metadata is None
        &&& t.path == spec_normalize_path(match tests[i].path {
            Some(p) => p,
            None => if tests[i].name == "test"@ { "src/test.rs"@ } else { "tests/"@ + tests[i].name + ".rs"@ },
        })
    }) by {
        assert(all[others.len() + i] == part[i]);
    }
}

/// The targets of the `[[example]]` entries come after those of the library
/// and binaries, one per entry and in the entries' order: each is an example
/// target, named as its entry, built with the test profile that runs no
/// tests and no metadata, at the entry's path (else `examples/<name>.rs`) in
/// normal form.
pub proof fn law_example_targets(
    lib: Option<Seq<TomlTargetView>>,
    bin: Option<Seq<TomlTargetView>>,
    examples: Seq<TomlTargetView>,
    md: MetadataView,
)
    ensures
        ({
            let all = spec_normalize(lib, bin, Some(examples), None, md);
            let others = spec_normalize(lib, bin, None, None, md);
            &&& all.len() == others.len() + examples.len()
            &&& all.subrange(0, others.len() as int) == others
            &&& forall|i: int| #![trigger examples[i]] 0 <= i < examples.len() ==> {
                let t = all[others.len() + i];
                &&& t.kind == TargetKindView::Example
                &&& t.name == examples[i].name
                &&& t.profile == Profile { test: false, ..spec_default_test() }
                &&& t.metadata is None
                &&& t.path == spec_normalize_path(match examples[i].path {
                    Some(p) => p,
                    None => "examples/"@ + examples[i].name + ".rs"@,
                })
            }
        }),
{
    let all = spec_normalize(lib, bin, Some(examples), None, md);
    let others = spec_normalize(lib, bin, None, None, md);
    let part = examples.map_values(|x: TomlTargetView| spec_one_example_target(x));
    assert(others + Seq::<TargetView>::empty() =~= others);
    assert(others + Seq::<TargetView>::empty() + Seq::<TargetView>::empty() =~= others);
    assert(all =~= others + part);
    assert(all.subrange(0, others.len() as int) =~= others);
    assert forall|i: int| #![trigger examples[i]] 0 <= i < examples.len() implies ({
        let t = all[others.len() + i];
        &&& t.kind == TargetKindView::Example
        &&& t.name == examples[i].name
        &&& t.profile == Profile { test: false, ..spec_default_test() }
        &&& t.metadata is None
        &&& t.path == spec_normalize_path(match examples[i].path {
            Some(p) => p,
            None => "examples/"@ + examples[i].name + ".rs"@,
        })
    }) by {
        assert(all[others.len() + i] == part[i]);
    }
}

// ---------------------------------------------------------------------------
// Git references
// ---------------------------------------------------------------------------

/// A git dependency read without error is added under its name, from the
/// git source at its location, whose reference is the dependency's branch
/// when it names one, else its tag, else its rev, else `master`.
pub proof fn law_git_reference(cx: ContextView, dev: bool, name: Seq<char>, d: DetailedTomlDependencyView)
    requires
        d.git is Some,
    ensures
        spec_process_entry(cx, dev, name, TomlDependencyView::DetailedDep(d)) matches (after, None) ==> {
            let dep = after.deps.last();
            &&& after.deps.len() == cx.deps.len() + 1
            &&& dep.name == name
            &&& spec_parse_location(d.git->0) matches Ok(loc) && dep.source_id.location == loc
            &&& dep.source_id.kind == SourceKindView::Git(
                if d.branch is Some {
                    d.branch->0
                } else if d.tag is Some {
                    d.tag->0
                } else if d.rev is Some {
                    d.rev->0
                } else {
                    "master"@
                },
            )
        },
{
}

/// A path dependency (one without `git`) read without error is added under
/// its name, from the manifest's own source, and its path, in normal form, is
/// recorded after the paths recorded before it; a dependency with neither
/// `git` nor `path` comes from the central registry.
pub proof fn law_path_dependency(cx: ContextView, dev: bool, name: Seq<char>, d: DetailedTomlDependencyView)
    requires
        d.git is None,
    ensures
        spec_process_entry(cx, dev, name, TomlDependencyView::DetailedDep(d)) matches (after, None) ==> {
            let dep = after.deps.last();
            &&& after.deps.len() == cx.deps.len() + 1
            &&& dep.name == name
            &&& d.path matches Some(p) ==> {
                &&& dep.source_id == cx.source_id
                &&& after.nested_paths == cx.nested_paths.push(spec_normalize_path(p))
            }
            &&& d.path is None ==> dep.source_id.kind == SourceKindView::Registry && after.nested_paths == cx.nested_paths
        },
{
}

// ---------------------------------------------------------------------------
// Fields of a table, by key
// ---------------------------------------------------------------------------

/// Whether no key of the table occurs twice.
pub open spec fn distinct_keys(es: Seq<(Seq<char>, TomlValueView)>) -> bool {
    forall|i: int, j: int| 0 <= i < j < es.len() ==> es[i].0 != es[j].0
}

/// Whether the table holds `value` under the key `k`: the value of the entry
/// keyed `k` when there is one, nothing when there is none.
pub open spec fn holds_at(es: Seq<(Seq<char>, TomlValueView)>, k: Seq<char>, value: Option<TomlValueView>) -> bool {
    &&& forall|j: int| 0 <= j < es.len() && es[j].0 == k ==> value == Some(es[j].1)
    &&& (forall|j: int| 0 <= j < es.len() ==> es[j].0 != k) ==> value is None
}

pub open spec fn text_value(o: Option<Seq<char>>) -> Option<TomlValueView> {
    match o {
        Some(s) => Some(TomlValueView::Text(s)),
        None => None,
    }
}

pub open spec fn bool_value(o: Option<bool>) -> Option<TomlValueView> {
    match o {
        Some(b) => Some(TomlValueView::Boolean(b)),
        None => None,
    }
}

/// In a table with distinct keys, the field read under a key is the entry
/// with that key, when there is one.
proof fn lemma_field_at(es: Seq<(Seq<char>, TomlValueView)>, k: Seq<char>)
    requires
        distinct_keys(es),
    ensures
        forall|j: int| 0 <= j < es.len() && es[j].0 == k ==> field_index(es, k, k) == j,
        forall|j: int, alt: Seq<char>| 0 <= j < es.len() && es[j].0 == k ==> field_index(es, k, alt) == j,
        (forall|j: int| 0 <= j < es.len() ==> es[j].0 != k) ==> field_index(es, k, k) == -1,
{
    lemma_find_key_bounds(es, k);
}

/// A target table read without error gives an entry that holds its `name`,
/// `path`, `test` and `plugin` as the table holds them under those keys.
pub proof fn law_read_target_fields(es: Seq<(Seq<char>, TomlValueView)>, key: Seq<char>)
    requires
        distinct_keys(es),
    ensures
        spec_read_target(TomlValueView::Table(es), key) matches Ok(t) ==> {
            &&& holds_at(es, "name"@, Some(TomlValueView::Text(t.name)))
            &&& holds_at(es, "path"@, text_value(t.path))
            &&& holds_at(es, "test"@, bool_value(t.test))
            &&& holds_at(es, "plugin"@, bool_value(t.plugin))
        },
{
    lemma_field_at(es, "name"@);
    lemma_field_at(es, "path"@);
    lemma_field_at(es, "test"@);
    lemma_field_at(es, "plugin"@);
}

/// A project table read without error gives a project that holds its `name`
/// and `version` as the table holds them under those keys.
pub proof fn law_read_project_fields(es: Seq<(Seq<char>, TomlValueView)>, key: Seq<char>)
    requires
        distinct_keys(es),
    ensures
        spec_read_project(TomlValueView::Table(es), key) matches Ok(p) ==> {
            &&& holds_at(es, "name"@, Some(TomlValueView::Text(p.name)))
            &&& holds_at(es, "version"@, Some(TomlValueView::Text(p.version)))
        },
{
    lemma_field_at(es, "name"@);
    lemma_field_at(es, "version"@);
}

/// A dependency table read without error gives a detailed dependency that
/// holds its `version`, `path`, `git`, `branch`, `tag` and `rev` as the table
/// holds them under those keys.
pub proof fn law_read_dependency_fields(es: Seq<(Seq<char>, TomlValueView)>, key: Seq<char>)
    requires
        distinct_keys(es),
    ensures
        spec_read_dependency(TomlValueView::Table(es), key) matches Ok(TomlDependencyView::DetailedDep(d)) ==> {
            &&& holds_at(es, "version"@, text_value(d.version))
            &&& holds_at(es, "path"@, text_value(d.path))
            &&& holds_at(es, "git"@, text_value(d.git))
            &&& holds_at(es, "branch"@, text_value(d.branch))
            &&& holds_at(es, "tag"@, text_value(d.tag))
            &&& holds_at(es, "rev"@, text_value(d.rev))
        },
{
    lemma_field_at(es, "version"@);
    lemma_field_at(es, "path"@);
    lemma_field_at(es, "git"@);
    lemma_field_at(es, "branch"@);
    lemma_field_at(es, "tag"@);
    lemma_field_at(es, "rev"@);
}

/// The names of the fields that a table read with `schema` holds.
pub open spec fn field_names(schema: Schema) -> Set<Seq<char>> {
    match schema {
        Schema::Project => set!["name"@, "version"@, "authors"@, "build"@],
        Schema::Target => set!["name"@, "crate_type"@, "path"@, "test"@, "plugin"@],
        Schema::Detail => set!["version"@, "path"@, "git"@, "branch"@, "tag"@, "rev"@],
    }
}

/// A table whose keys, all distinct, are all names of the fields its schema
/// reads has no unused keys.
pub proof fn law_fields_are_used(es: Seq<(Seq<char>, TomlValueView)>, prefix: Seq<char>, schema: Schema)
    requires
        distinct_keys(es),
        forall|j: int| 0 <= j < es.len() ==> field_names(schema).contains(#[trigger] es[j].0),
    ensures
        table_unused(TomlValueView::Table(es), prefix, schema) == Seq::<Seq<char>>::empty(),
{
    lemma_field_at(es, "name"@);
    lemma_field_at(es, "version"@);
    lemma_field_at(es, "authors"@);
    lemma_field_at(es, "build"@);
    lemma_field_at(es, "crate_type"@);
    lemma_field_at(es, "path"@);
    lemma_field_at(es, "test"@);
    lemma_field_at(es, "plugin"@);
    lemma_field_at(es, "git"@);
    lemma_field_at(es, "branch"@);
    lemma_field_at(es, "tag"@);
    lemma_field_at(es, "rev"@);
    assert forall|j: int| 0 <= j < es.len() implies is_field_of(schema, es, j) by {
        let k = es[j].0;
        assert(field_names(schema).contains(k));
        assert(field_index(es, k, k) == j);
        assert(field_index(es, k, "crate-type"@) == j);
    }
    lemma_flat_unused_fields(es, prefix, schema, es.len());
}

proof fn lemma_flat_unused_fields(es: Seq<(Seq<char>, TomlValueView)>, prefix: Seq<char>, schema: Schema, n: nat)
    requires
        n <= es.len(),
        forall|j: int| 0 <= j < es.len() ==> is_field_of(schema, es, j),
    ensures
        flat_unused(es, prefix, schema, n) == Seq::<Seq<char>>::empty(),
    decreases n,
{
    if n > 0 {
        lemma_flat_unused_fields(es, prefix, schema, (n - 1) as nat);
        assert(is_field_of(schema, es, n - 1));
        assert(Seq::<Seq<char>>::empty() + Seq::<Seq<char>>::empty() =~= Seq::<Seq<char>>::empty());
    }
}

// ---------------------------------------------------------------------------
// Entries inferred from files
// ---------------------------------------------------------------------------

/// Entries inferred from files number at most the files; when every file has
/// a stem, there is one entry per file, in order, named after the stem of its
/// file's normal form and placed at that normal form.
pub proof fn law_inferred_by_stem(files: Seq<Seq<char>>)
    ensures
        spec_inferred_by_stem(files).len() <= files.len(),
        (forall|i: int| 0 <= i < files.len() ==> (#[trigger] spec_file_stem(spec_normalize_path(files[i]))) is Some)
            ==> {
            &&& spec_inferred_by_stem(files).len() == files.len()
            &&& forall|i: int| 0 <= i < files.len() ==> #[trigger] spec_inferred_by_stem(files)[i] == inferred_target(
                spec_file_stem(spec_normalize_path(files[i]))->0,
                spec_normalize_path(files[i]),
            )
        },
    decreases files.len(),
{
    if files.len() > 0 {
        let d = files.drop_last();
        law_inferred_by_stem(d);
        if forall|i: int| 0 <= i < files.len() ==> (#[trigger] spec_file_stem(spec_normalize_path(files[i]))) is Some {
            assert forall|i: int| 0 <= i < d.len() implies (#[trigger] spec_file_stem(spec_normalize_path(d[i]))) is Some by {
                assert(d[i] == files[i]);
            }
            assert(spec_file_stem(spec_normalize_path(files[files.len() - 1])) is Some);
            assert forall|i: int| 0 <= i < files.len() implies #[trigger] spec_inferred_by_stem(files)[i] == inferred_target(
                spec_file_stem(spec_normalize_path(files[i]))->0,
                spec_normalize_path(files[i]),
            ) by {
                if i < d.len() {
                    assert(d[i] == files[i]);
                    assert(spec_inferred_by_stem(d)[i] == inferred_target(
                        spec_file_stem(spec_normalize_path(d[i]))->0,
                        spec_normalize_path(d[i]),
                    ));
                }
            }
        }
    }
}

} // verus!
