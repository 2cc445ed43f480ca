//! Where a package's sources are, and the targets those files imply when the
//! manifest does not list them.

use vstd::prelude::*;
use vstd::string::*;
use crate::paths::{
    extension, file_name, file_stem, join, normalize_path, spec_extension, spec_file_name, spec_file_stem, spec_join,
    spec_normalize_path, str_eq,
};
use crate::schema::{TomlTarget, TomlTargetView};
use crate::model::seq_view;

verus! {

/// The source files found in a package's directory. Each string is a path,
/// read in its normal form wherever it is used.
#[derive(Debug)]
pub struct Layout {
    /// `src/lib.rs`, when present.
    pub lib: Option<String>,
    /// `src/main.rs` when present, then the `.rs` files of `src/bin`.
    pub bins: Vec<String>,
    /// The `.rs` files of `examples`.
    pub examples: Vec<String>,
    /// The `.rs` files of `tests`, then `src/test.rs` when present.
    pub tests: Vec<String>,
}

pub struct LayoutView {
    pub lib: Option<Seq<char>>,
    pub bins: Seq<Seq<char>>,
    pub examples: Seq<Seq<char>>,
    pub tests: Seq<Seq<char>>,
}

impl View for Layout {
    type V = LayoutView;

    open spec fn view(&self) -> LayoutView {
        LayoutView {
            lib: self.lib.deep_view(),
            bins: self.bins.deep_view(),
            examples: self.examples.deep_view(),
            tests: self.tests.deep_view(),
        }
    }
}

impl Clone for Layout {
    fn clone(&self) -> (res: Self)
        ensures
            res@ == self@,
    {
        Layout {
            lib: crate::schema::clone_opt_string(&self.lib),
            bins: crate::schema::clone_strings(&self.bins),
            examples: crate::schema::clone_strings(&self.examples),
            tests: crate::schema::clone_strings(&self.tests),
        }
    }
}

/// Whether a path, in normal form, names a file called `main.rs`.
pub open spec fn is_main_rs(p: Seq<char>) -> bool {
    spec_file_name(spec_normalize_path(p)) == Some("main.rs"@)
}

/// The first of `bins` whose file is called `main.rs`.
pub open spec fn spec_main(bins: Seq<Seq<char>>) -> Option<Seq<char>>
    decreases bins.len(),
{
    if bins.len() == 0 {
        None
    } else {
        match spec_main(bins.drop_last()) {
            Some(p) => Some(p),
            None => if is_main_rs(bins.last()) { Some(bins.last()) } else { None },
        }
    }
}

impl Layout {
    /// The first binary whose file is called `main.rs`.
    pub fn main(&self) -> (res: Option<&String>)
        ensures
            match res {
                Some(p) => spec_main(self@.bins) == Some(p@),
                None => spec_main(self@.bins) is None,
            },
    {
        let mut i: usize = 0;
        while i < self.bins.len()
            invariant
                i <= self.bins.len(),
                spec_main(self@.bins.take(i as int)) is None,
            decreases self.bins.len() - i,
        {
            let ghost bins = self@.bins;
            assert(bins.take(i + 1).drop_last() =~= bins.take(i as int));
            let normal = normalize_path(self.bins[i].as_str());
            let name = file_name(normal.as_str());
            let found = match &name {
                Some(n) => str_eq(n.as_str(), "main.rs"),
                None => false,
            };
            if found {
                proof {
                    lemma_main_prefix(bins, i as int + 1);
                }
                return Some(&self.bins[i]);
            }
            i = i + 1;
        }
        assert(self@.bins.take(i as int) =~= self@.bins);
        None
    }
}

/// A `main.rs` found in a prefix is the one found in the whole list.
proof fn lemma_main_prefix(bins: Seq<Seq<char>>, n: int)
    requires
        0 < n <= bins.len(),
        spec_main(bins.take(n)) is Some,
    ensures
        spec_main(bins) == spec_main(bins.take(n)),
    decreases bins.len() - n,
{
    if n < bins.len() {
        assert(bins.take(n + 1).drop_last() =~= bins.take(n));
        lemma_main_prefix(bins, n + 1);
    } else {
        assert(bins.take(n) =~= bins);
    }
}

/// What a package's directory holds, as far as its layout goes: whether
/// `src/lib.rs`, `src/main.rs` and `src/test.rs` exist, and the entries of
/// `src/bin`, `examples` and `tests` (each entry the directory's path joined
/// with the file's name; no entries when a directory cannot be read).
#[derive(Debug)]
pub struct ProjectListing {
    pub has_lib_rs: bool,
    pub has_main_rs: bool,
    pub bin_dir: Vec<String>,
    pub examples_dir: Vec<String>,
    pub tests_dir: Vec<String>,
    pub has_test_rs: bool,
}

/// The entries whose extension is `rs`, in order, each in normal form.
pub open spec fn rs_files(entries: Seq<Seq<char>>) -> Seq<Seq<char>>
    decreases entries.len(),
{
    if entries.len() == 0 {
        Seq::empty()
    } else {
        let p = spec_normalize_path(entries.last());
        if spec_extension(p) == Some("rs"@) {
            rs_files(entries.drop_last()).push(p)
        } else {
            rs_files(entries.drop_last())
        }
    }
}

/// The layout of the package in `root`.
pub open spec fn spec_project_layout(
    root: Seq<char>,
    has_lib_rs: bool,
    has_main_rs: bool,
    bin_dir: Seq<Seq<char>>,
    examples_dir: Seq<Seq<char>>,
    tests_dir: Seq<Seq<char>>,
    has_test_rs: bool,
) -> LayoutView {
    LayoutView {
        lib: if has_lib_rs { Some(spec_join(root, "src/lib.rs"@)) } else { None },
        bins: (if has_main_rs { seq![spec_join(root, "src/main.rs"@)] } else { Seq::empty() }) + rs_files(bin_dir),
        examples: rs_files(examples_dir),
        tests: rs_files(tests_dir) + (if has_test_rs { seq![spec_join(root, "src/test.rs"@)] } else { Seq::empty() }),
    }
}

/// Appends the entries of `entries` whose extension is `rs`.
fn push_rs_files(dst: &mut Vec<String>, entries: &Vec<String>)
    ensures
        final(dst).deep_view() == old(dst).deep_view() + rs_files(entries.deep_view()),
{
    let ghost start = dst.deep_view();
    let mut i: usize = 0;
    while i < entries.len()
        invariant
            i <= entries.len(),
            dst.deep_view() == start + rs_files(entries.deep_view().take(i as int)),
        decreases entries.len() - i,
    {
        let ghost es = entries.deep_view();
        assert(es.take(i + 1).drop_last() =~= es.take(i as int));
        assert(es.take(i + 1).last() == entries@[i as int]@);
        let normal = normalize_path(entries[i].as_str());
        let ext = extension(normal.as_str());
        let is_rs = match &ext {
            Some(e) => str_eq(e.as_str(), "rs"),
            None => false,
        };
        if is_rs {
            let ghost before = dst.deep_view();
            dst.push(normal);
            assert(dst.deep_view() =~= before.push(spec_normalize_path(entries@[i as int]@)));
        }
        i = i + 1;
    }
    assert(entries.deep_view().take(i as int) =~= entries.deep_view());
}

/// The layout of the package in `root`, from what its directory holds (see
/// `spec_project_layout`).
pub fn project_layout(root: &str, listing: &ProjectListing) -> (res: Layout)
    ensures
        res@ == spec_project_layout(
            root@,
            listing.has_lib_rs,
            listing.has_main_rs,
            listing.bin_dir.deep_view(),
            listing.examples_dir.deep_view(),
            listing.tests_dir.deep_view(),
            listing.has_test_rs,
        ),
{
    let lib = if listing.has_lib_rs { Some(join(root, "src/lib.rs")) } else { None };
    let mut bins: Vec<String> = Vec::new();
    let mut examples: Vec<String> = Vec::new();
    let mut tests: Vec<String> = Vec::new();
    if listing.has_main_rs {
        bins.push(join(root, "src/main.rs"));
    }
    proof {
        assert(bins.deep_view() =~= (if listing.has_main_rs { seq![spec_join(root@, "src/main.rs"@)] } else { Seq::empty() }));
        assert(examples.deep_view() =~= Seq::<Seq<char>>::empty());
        assert(tests.deep_view() =~= Seq::<Seq<char>>::empty());
    }
    push_rs_files(&mut bins, &listing.bin_dir);
    push_rs_files(&mut examples, &listing.examples_dir);
    push_rs_files(&mut tests, &listing.tests_dir);
    if listing.has_test_rs {
        let ghost before = tests.deep_view();
        tests.push(join(root, "src/test.rs"));
        assert(tests.deep_view() =~= before.push(spec_join(root@, "src/test.rs"@)));
    }
    proof {
        assert(examples.deep_view() =~= rs_files(listing.examples_dir.deep_view()));
        assert(tests.deep_view() =~= rs_files(listing.tests_dir.deep_view())
            + (if listing.has_test_rs { seq![spec_join(root@, "src/test.rs"@)] } else { Seq::empty() }));
        assert(lib.deep_view() == (if listing.has_lib_rs { Some(spec_join(root@, "src/lib.rs"@)) } else { None }));
    }
    Layout { lib, bins, examples, tests }
}

/// A target entry with only a name and a path.
pub open spec fn inferred_target(name: Seq<char>, path: Seq<char>) -> TomlTargetView {
    TomlTargetView { name, crate_type: None, path: Some(path), test: None, plugin: None }
}

pub open spec fn spec_inferred_lib_target(name: Seq<char>, layout: LayoutView) -> Option<Seq<TomlTargetView>> {
    match layout.lib {
        Some(lib) => Some(seq![inferred_target(name, spec_normalize_path(lib))]),
        None => None,
    }
}

/// The binaries' target entries, each with its path in normal form:
/// `src/main.rs` is named after the package, any other binary after its
/// file's stem; a binary without a stem is left out.
pub open spec fn spec_inferred_bins(name: Seq<char>, bins: Seq<Seq<char>>) -> Seq<TomlTargetView>
    decreases bins.len(),
{
    if bins.len() == 0 {
        Seq::empty()
    } else {
        let rest = spec_inferred_bins(name, bins.drop_last());
        let b = spec_normalize_path(bins.last());
        if b == "src/main.rs"@ {
            rest.push(inferred_target(name, b))
        } else {
            match spec_file_stem(b) {
                Some(stem) => rest.push(inferred_target(stem, b)),
                None => rest,
            }
        }
    }
}

/// Target entries named after their files' stems, each with its path in
/// normal form; files without a stem are left out.
pub open spec fn spec_inferred_by_stem(files: Seq<Seq<char>>) -> Seq<TomlTargetView>
    decreases files.len(),
{
    if files.len() == 0 {
        Seq::empty()
    } else {
        let rest = spec_inferred_by_stem(files.drop_last());
        let f = spec_normalize_path(files.last());
        match spec_file_stem(f) {
            Some(stem) => rest.push(inferred_target(stem, f)),
            None => rest,
        }
    }
}

fn new_target(name: String, path: &String) -> (t: TomlTarget)
    ensures
        t@ == inferred_target(name@, path@),
{
    TomlTarget { name, crate_type: None, path: Some(path.clone()), test: None, plugin: None }
}

/// The library's target entry, when the layout has a library.
pub fn inferred_lib_target(name: &str, layout: &Layout) -> (res: Option<Vec<TomlTarget>>)
    ensures
        opt_targets(res) == spec_inferred_lib_target(name@, layout@),
        res matches Some(v) ==> v@.len() == 1,
{
    match &layout.lib {
        Some(lib) => {
            let mut v: Vec<TomlTarget> = Vec::new();
            let path = normalize_path(lib.as_str());
            v.push(new_target(String::from_str(name), &path));
            assert(seq_view(v@) =~= seq![inferred_target(name@, path@)]);
            Some(v)
        },
        None => None,
    }
}

pub open spec fn opt_targets(o: Option<Vec<TomlTarget>>) -> Option<Seq<TomlTargetView>> {
    match o {
        Some(v) => Some(seq_view(v@)),
        None => None,
    }
}

/// The binaries' target entries (see `spec_inferred_bins`).
pub fn inferred_bin_targets(name: &str, layout: &Layout) -> (res: Option<Vec<TomlTarget>>)
    ensures
        opt_targets(res) == Some(spec_inferred_bins(name@, layout@.bins)),
{
    let mut out: Vec<TomlTarget> = Vec::new();
    let mut i: usize = 0;
    while i < layout.bins.len()
        invariant
            i <= layout.bins.len(),
            seq_view(out@) == spec_inferred_bins(name@, layout@.bins.take(i as int)),
        decreases layout.bins.len() - i,
    {
        let ghost bins = layout@.bins;
        assert(bins.take(i + 1).drop_last() =~= bins.take(i as int));
        assert(bins.take(i + 1).last() == layout.bins@[i as int]@);
        let normal = normalize_path(layout.bins[i].as_str());
        let bin = &normal;
        let target_name = if str_eq(bin.as_str(), "src/main.rs") {
            Some(String::from_str(name))
        } else {
            file_stem(bin.as_str())
        };
        match target_name {
            Some(n) => {
                let ghost before = seq_view(out@);
                let t = new_target(n, bin);
                out.push(t);
                assert(seq_view(out@) =~= before.push(t@));
            },
            None => {},
        }
        i = i + 1;
    }
    assert(layout@.bins.take(i as int) =~= layout@.bins);
    Some(out)
}

/// Target entries for files, named after their stems.
fn inferred_by_stem(files: &Vec<String>) -> (res: Vec<TomlTarget>)
    ensures
        seq_view(res@) == spec_inferred_by_stem(files.deep_view()),
{
    let mut out: Vec<TomlTarget> = Vec::new();
    let mut i: usize = 0;
    while i < files.len()
        invariant
            i <= files.len(),
            seq_view(out@) == spec_inferred_by_stem(files.deep_view().take(i as int)),
        decreases files.len() - i,
    {
        let ghost fs = files.deep_view();
        assert(fs.take(i + 1).drop_last() =~= fs.take(i as int));
        assert(fs.take(i + 1).last() == files@[i as int]@);
        let normal = normalize_path(files[i].as_str());
        match file_stem(normal.as_str()) {
            Some(n) => {
                let ghost before = seq_view(out@);
                let t = new_target(n, &normal);
                out.push(t);
                assert(seq_view(out@) =~= before.push(t@));
            },
            None => {},
        }
        i = i + 1;
    }
    assert(files.deep_view().take(i as int) =~= files.deep_view());
    out
}

/// The examples' target entries, named after their files' stems.
pub fn inferred_example_targets(layout: &Layout) -> (res: Option<Vec<TomlTarget>>)
    ensures
        opt_targets(res) == Some(spec_inferred_by_stem(layout@.examples)),
{
    Some(inferred_by_stem(&layout.examples))
}

/// The tests' target entries, named after their files' stems.
pub fn inferred_test_targets(layout: &Layout) -> (res: Option<Vec<TomlTarget>>)
    ensures
        opt_targets(res) == Some(spec_inferred_by_stem(layout@.tests)),
{
    Some(inferred_by_stem(&layout.tests))
}

} // verus!
