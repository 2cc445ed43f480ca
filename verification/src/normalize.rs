//! Turning the `[[lib]]`, `[[bin]]`, `[[example]]` and `[[test]]` entries of a
//! manifest into the targets to build, one per build profile.

use vstd::prelude::*;
use vstd::string::*;
use crate::model::{
    opt_view, seq_view, spec_default_dev, spec_default_release, spec_default_test, spec_lib_kinds,
    LibKind, Metadata, MetadataView, Profile, Target, TargetKind, TargetKindView, TargetView,
};
use crate::schema::{TomlTarget, TomlTargetView};
use crate::paths::{normalize_path, spec_normalize_path};

verus! {

/// Whether the library must also be built as a dependency of tests (it must
/// when there are binaries beside it).
#[derive(PartialEq, Eq, Structural, Clone, Copy, Debug)]
pub enum TestDep {
    Needed,
    NotNeeded,
}

/// The profile of a library built as a dependency of tests.
pub open spec fn spec_test_dep_profile() -> Profile {
    Profile { test: false, ..spec_default_test() }
}

/// The profiles a target is built with: development and release always; test
/// unless the target opts out of tests; the test-dependency profile when the
/// target is a library that tests need; all of them as plugins when the
/// target is a plugin.
pub open spec fn spec_target_profiles(t: TomlTargetView, dep: Option<TestDep>) -> Seq<Profile> {
    let base = seq![spec_default_dev(), spec_default_release()];
    let with_test = if t.test != Some(false) { base.push(spec_default_test()) } else { base };
    let with_dep = if dep == Some(TestDep::Needed) { with_test.push(spec_test_dep_profile()) } else { with_test };
    if t.plugin == Some(true) {
        with_dep.map_values(|p: Profile| Profile { plugin: true, ..p })
    } else {
        with_dep
    }
}

/// `prefix`, then `name`, then `.rs`.
pub open spec fn rs_path(prefix: Seq<char>, name: Seq<char>) -> Seq<char> {
    prefix + name + ".rs"@
}

/// The kinds a library is built as: those its `crate_type` names, when it
/// names only known kinds; otherwise a dynamic library for a plugin and a
/// plain library for anything else.
pub open spec fn spec_crate_types(l: TomlTargetView) -> Seq<LibKind> {
    match l.crate_type {
        Some(names) => match spec_lib_kinds(names) {
            Some(kinds) => kinds,
            None => seq![if l.plugin == Some(true) { LibKind::Dylib } else { LibKind::Lib }],
        },
        None => seq![if l.plugin == Some(true) { LibKind::Dylib } else { LibKind::Lib }],
    }
}

/// One target per profile, all alike but for the profile.
pub open spec fn targets_for_profiles(
    kind: TargetKindView,
    name: Seq<char>,
    path: Seq<char>,
    profiles: Seq<Profile>,
    metadata: Option<MetadataView>,
) -> Seq<TargetView> {
    profiles.map_values(|p: Profile| TargetView { kind, name, path, profile: p, metadata })
}

/// The library targets: only the first `[[lib]]` entry counts; its path
/// defaults to `src/<name>.rs`, and is taken in normal form.
pub open spec fn spec_lib_targets(libs: Seq<TomlTargetView>, dep: TestDep, md: MetadataView) -> Seq<TargetView> {
    let l = libs[0];
    let path = spec_normalize_path(match l.path {
        Some(p) => p,
        None => rs_path("src/"@, l.name),
    });
    targets_for_profiles(
        TargetKindView::Lib(spec_crate_types(l)),
        l.name,
        path,
        spec_target_profiles(l, Some(dep)),
        Some(md),
    )
}

/// Where a binary without a `path` is looked for.
#[derive(PartialEq, Eq, Structural, Clone, Copy, Debug)]
pub enum BinDir {
    /// `src/bin/<name>.rs`, when the package also has a library.
    SrcBin,
    /// `src/<name>.rs`, when it has none.
    Src,
}

pub open spec fn bin_prefix(dir: BinDir) -> Seq<char> {
    match dir {
        BinDir::SrcBin => "src/bin/"@,
        BinDir::Src => "src/"@,
    }
}

/// The targets of one binary: one per profile, with its path in normal form.
pub open spec fn spec_one_bin_targets(b: TomlTargetView, dir: BinDir) -> Seq<TargetView> {
    let path = spec_normalize_path(match b.path {
        Some(p) => p,
        None => rs_path(bin_prefix(dir), b.name),
    });
    targets_for_profiles(TargetKindView::Bin, b.name, path, spec_target_profiles(b, None), None)
}

pub open spec fn spec_bin_targets(bins: Seq<TomlTargetView>, dir: BinDir) -> Seq<TargetView>
    decreases bins.len(),
{
    if bins.len() == 0 {
        Seq::empty()
    } else {
        spec_bin_targets(bins.drop_last(), dir) + spec_one_bin_targets(bins.last(), dir)
    }
}

/// An example's target: built once, with the test profile that does not run tests;
/// its path defaults to `examples/<name>.rs`, and is taken in normal form.
pub open spec fn spec_one_example_target(e: TomlTargetView) -> TargetView {
    TargetView {
        kind: TargetKindView::Example,
        name: e.name,
        path: spec_normalize_path(match e.path {
            Some(p) => p,
            None => rs_path("examples/"@, e.name),
        }),
        profile: spec_test_dep_profile(),
        metadata: None,
    }
}

/// A test's target: built once, with the test profile; its path defaults to
/// `src/test.rs` for a test named `test`, and to `tests/<name>.rs` otherwise,
/// and is taken in normal form.
pub open spec fn spec_one_test_target(t: TomlTargetView) -> TargetView {
    TargetView {
        kind: TargetKindView::Test,
        name: t.name,
        path: spec_normalize_path(match t.path {
            Some(p) => p,
            None => if t.name == "test"@ { "src/test.rs"@ } else { rs_path("tests/"@, t.name) },
        }),
        profile: spec_default_test(),
        metadata: None,
    }
}

/// All the targets that a manifest's target entries describe: the library's,
/// then the binaries', then the examples', then the tests'.
pub open spec fn spec_normalize(
    lib: Option<Seq<TomlTargetView>>,
    bin: Option<Seq<TomlTargetView>>,
    example: Option<Seq<TomlTargetView>>,
    test: Option<Seq<TomlTargetView>>,
    md: MetadataView,
) -> Seq<TargetView> {
    let main = match (lib, bin) {
        (Some(l), Some(b)) => spec_lib_targets(l, TestDep::Needed, md) + spec_bin_targets(b, BinDir::SrcBin),
        (Some(l), None) => spec_lib_targets(l, TestDep::NotNeeded, md),
        (None, Some(b)) => spec_bin_targets(b, BinDir::Src),
        (None, None) => Seq::empty(),
    };
    let examples = match example {
        Some(e) => e.map_values(|x: TomlTargetView| spec_one_example_target(x)),
        None => Seq::empty(),
    };
    let tests = match test {
        Some(t) => t.map_values(|x: TomlTargetView| spec_one_test_target(x)),
        None => Seq::empty(),
    };
    main + examples + tests
}

pub open spec fn opt_slice_view(o: Option<&[TomlTarget]>) -> Option<Seq<TomlTargetView>> {
    match o {
        Some(s) => Some(seq_view(s@)),
        None => None,
    }
}

/// `prefix`, then `name`, then `.rs`.
fn format_rs_path(prefix: &str, name: &str) -> (res: String)
    ensures
        res@ == rs_path(prefix@, name@),
{
    let mut res = String::from_str(prefix);
    res.append(name);
    res.append(".rs");
    res
}

/// The profiles a target is built with (see `spec_target_profiles`).
fn target_profiles(target: &TomlTarget, dep: Option<TestDep>) -> (ret: Vec<Profile>)
    ensures
        ret@ == spec_target_profiles(target@, dep),
{
    let mut ret: Vec<Profile> = Vec::new();
    ret.push(Profile::default_dev());
    ret.push(Profile::default_release());
    match target.test {
        Some(true) | None => ret.push(Profile::default_test()),
        Some(false) => {},
    }
    match dep {
        Some(TestDep::Needed) => ret.push(Profile::default_test().test(false)),
        _ => {},
    }
    let ghost unplugged = ret@;
    assert(unplugged =~= {
        let base = seq![spec_default_dev(), spec_default_release()];
        let with_test = if target@.test != Some(false) { base.push(spec_default_test()) } else { base };
        if dep == Some(TestDep::Needed) { with_test.push(spec_test_dep_profile()) } else { with_test }
    });
    match target.plugin {
        Some(true) => {
            let mut plugged: Vec<Profile> = Vec::new();
            let mut i: usize = 0;
            while i < ret.len()
                invariant
                    i <= ret.len(),
                    ret@ == unplugged,
                    plugged@ =~= unplugged.take(i as int).map_values(|p: Profile| Profile { plugin: true, ..p }),
                decreases ret.len() - i,
            {
                plugged.push(ret[i].plugin(true));
                i = i + 1;
            }
            assert(unplugged.take(i as int) =~= unplugged);
            plugged
        },
        _ => ret,
    }
}

/// Pushes one target per profile.
fn push_targets_for_profiles(
    dst: &mut Vec<Target>,
    kind: &TargetKind,
    name: &str,
    path: &str,
    profiles: &Vec<Profile>,
    metadata: &Option<Metadata>,
)
    ensures
        seq_view(final(dst)@) == seq_view(old(dst)@) + targets_for_profiles(
            kind@,
            name@,
            path@,
            profiles@,
            opt_view(*metadata),
        ),
{
    let ghost start = seq_view(dst@);
    let mut i: usize = 0;
    while i < profiles.len()
        invariant
            i <= profiles.len(),
            seq_view(dst@) =~= start + targets_for_profiles(kind@, name@, path@, profiles@.take(i as int), opt_view(*metadata)),
        decreases profiles.len() - i,
    {
        let t = Target {
            kind: clone_kind(kind),
            name: String::from_str(name),
            path: String::from_str(path),
            profile: profiles[i],
            metadata: match metadata {
                Some(md) => Some(md.clone()),
                None => None,
            },
        };
        let ghost before = dst@;
        let ghost expected = TargetView {
            kind: kind@,
            name: name@,
            path: path@,
            profile: profiles@[i as int],
            metadata: opt_view(*metadata),
        };
        assert(t@ == expected);
        dst.push(t);
        proof {
            assert(seq_view(dst@) =~= seq_view(before).push(t@));
            assert(profiles@.take(i + 1) =~= profiles@.take(i as int).push(profiles@[i as int]));
            assert(targets_for_profiles(kind@, name@, path@, profiles@.take(i + 1), opt_view(*metadata))
                =~= targets_for_profiles(kind@, name@, path@, profiles@.take(i as int), opt_view(*metadata)).push(expected));
        }
        i = i + 1;
    }
    assert(profiles@.take(i as int) =~= profiles@);
}

fn clone_kind(kind: &TargetKind) -> (res: TargetKind)
    ensures
        res@ == kind@,
{
    match kind {
        TargetKind::Lib(kinds) => TargetKind::Lib(clone_lib_kinds(kinds)),
        TargetKind::Bin => TargetKind::Bin,
        TargetKind::Example => TargetKind::Example,
        TargetKind::Test => TargetKind::Test,
    }
}

fn clone_lib_kinds(kinds: &Vec<LibKind>) -> (res: Vec<LibKind>)
    ensures
        res@ == kinds@,
{
    let mut out: Vec<LibKind> = Vec::new();
    let mut i: usize = 0;
    while i < kinds.len()
        invariant
            i <= kinds.len(),
            out@ =~= kinds@.take(i as int),
        decreases kinds.len() - i,
    {
        out.push(kinds[i]);
        i = i + 1;
    }
    assert(kinds@.take(i as int) =~= kinds@);
    out
}


/// The library's targets (see `spec_lib_targets`).
fn lib_targets(dst: &mut Vec<Target>, libs: &[TomlTarget], dep: TestDep, metadata: &Metadata)
    requires
        libs@.len() > 0,
    ensures
        seq_view(final(dst)@) == seq_view(old(dst)@) + spec_lib_targets(seq_view(libs@), dep, metadata@),
{
    let l = &libs[0];
    let given = match &l.path {
        Some(p) => p.clone(),
        None => format_rs_path("src/", l.name.as_str()),
    };
    let path = normalize_path(given.as_str());
    let fallback = if l.plugin == Some(true) { LibKind::Dylib } else { LibKind::Lib };
    let crate_types = match &l.crate_type {
        Some(names) => match LibKind::from_strs(names) {
            Some(kinds) => kinds,
            None => {
                let mut v: Vec<LibKind> = Vec::new();
                v.push(fallback);
                v
            },
        },
        None => {
            let mut v: Vec<LibKind> = Vec::new();
            v.push(fallback);
            v
        },
    };
    assert(crate_types@ =~= spec_crate_types(l@));
    let profiles = target_profiles(l, Some(dep));
    let kind = TargetKind::Lib(crate_types);
    push_targets_for_profiles(dst, &kind, l.name.as_str(), path.as_str(), &profiles, &Some(metadata.clone()));
}

/// The targets of one binary (see `spec_one_bin_targets`).
fn one_bin_targets(dst: &mut Vec<Target>, bin: &TomlTarget, dir: BinDir)
    ensures
        seq_view(final(dst)@) == seq_view(old(dst)@) + spec_one_bin_targets(bin@, dir),
{
    let given = match &bin.path {
        Some(p) => p.clone(),
        None => match dir {
            BinDir::SrcBin => format_rs_path("src/bin/", bin.name.as_str()),
            BinDir::Src => format_rs_path("src/", bin.name.as_str()),
        },
    };
    let path = normalize_path(given.as_str());
    let profiles = target_profiles(bin, None);
    push_targets_for_profiles(dst, &TargetKind::Bin, bin.name.as_str(), path.as_str(), &profiles, &None);
}

/// The binaries' targets (see `spec_bin_targets`).
fn bin_targets(dst: &mut Vec<Target>, bins: &[TomlTarget], dir: BinDir)
    ensures
        seq_view(final(dst)@) == seq_view(old(dst)@) + spec_bin_targets(seq_view(bins@), dir),
{
    let ghost start = seq_view(dst@);
    let mut i: usize = 0;
    while i < bins.len()
        invariant
            i <= bins@.len(),
            seq_view(dst@) == start + spec_bin_targets(seq_view(bins@).take(i as int), dir),
        decreases bins@.len() - i,
    {
        one_bin_targets(dst, &bins[i], dir);
        proof {
            let s = seq_view(bins@);
            assert(s.take(i + 1).drop_last() =~= s.take(i as int));
            assert(s.take(i + 1).last() == bins@[i as int]@);
            assert(start + spec_bin_targets(s.take(i as int), dir) + spec_one_bin_targets(bins@[i as int]@, dir)
                =~= start + spec_bin_targets(s.take(i + 1), dir));
        }
        i = i + 1;
    }
    assert(seq_view(bins@).take(i as int) =~= seq_view(bins@));
}

/// The examples' targets (see `spec_one_example_target`).
fn example_targets(dst: &mut Vec<Target>, examples: &[TomlTarget])
    ensures
        seq_view(final(dst)@) == seq_view(old(dst)@) + seq_view(examples@).map_values(
            |x: TomlTargetView| spec_one_example_target(x),
        ),
{
    let ghost start = seq_view(dst@);
    let mut i: usize = 0;
    while i < examples.len()
        invariant
            i <= examples@.len(),
            seq_view(dst@) =~= start + seq_view(examples@).take(i as int).map_values(
                |x: TomlTargetView| spec_one_example_target(x),
            ),
        decreases examples@.len() - i,
    {
        let ex = &examples[i];
        let given = match &ex.path {
            Some(p) => p.clone(),
            None => format_rs_path("examples/", ex.name.as_str()),
        };
        let path = normalize_path(given.as_str());
        let profile = Profile::default_test().test(false);
        let t = Target::example_target(ex.name.as_str(), path.as_str(), &profile);
        let ghost before = dst@;
        dst.push(t);
        proof {
            assert(seq_view(dst@) =~= seq_view(before).push(t@));
            assert(seq_view(examples@).take(i + 1) =~= seq_view(examples@).take(i as int).push(ex@));
        }
        i = i + 1;
    }
    assert(seq_view(examples@).take(i as int) =~= seq_view(examples@));
}

/// The tests' targets (see `spec_one_test_target`).
fn test_targets(dst: &mut Vec<Target>, tests: &[TomlTarget])
    ensures
        seq_view(final(dst)@) == seq_view(old(dst)@) + seq_view(tests@).map_values(
            |x: TomlTargetView| spec_one_test_target(x),
        ),
{
    let ghost start = seq_view(dst@);
    let mut i: usize = 0;
    while i < tests.len()
        invariant
            i <= tests@.len(),
            seq_view(dst@) =~= start + seq_view(tests@).take(i as int).map_values(
                |x: TomlTargetView| spec_one_test_target(x),
            ),
        decreases tests@.len() - i,
    {
        let test = &tests[i];
        let given = match &test.path {
            Some(p) => p.clone(),
            None => if crate::paths::str_eq(test.name.as_str(), "test") {
                String::from_str("src/test.rs")
            } else {
                format_rs_path("tests/", test.name.as_str())
            },
        };
        let path = normalize_path(given.as_str());
        let profile = Profile::default_test();
        let t = Target::test_target(test.name.as_str(), path.as_str(), &profile);
        let ghost before = dst@;
        dst.push(t);
        proof {
            assert(seq_view(dst@) =~= seq_view(before).push(t@));
            assert(seq_view(tests@).take(i + 1) =~= seq_view(tests@).take(i as int).push(test@));
        }
        i = i + 1;
    }
    assert(seq_view(tests@).take(i as int) =~= seq_view(tests@));
}

/// The targets that a manifest's target entries describe (see
/// `spec_normalize`). Only the first library entry is used, so a library
/// list, when given, must not be empty.
pub fn normalize(
    lib: Option<&[TomlTarget]>,
    bin: Option<&[TomlTarget]>,
    example: Option<&[TomlTarget]>,
    test: Option<&[TomlTarget]>,
    metadata: &Metadata,
) -> (ret: Vec<Target>)
    requires
        lib matches Some(l) ==> l@.len() > 0,
    ensures
        seq_view(ret@) == spec_normalize(
            opt_slice_view(lib),
            opt_slice_view(bin),
            opt_slice_view(example),
            opt_slice_view(test),
            metadata@,
        ),
{
    let mut ret: Vec<Target> = Vec::new();
    assert(seq_view(ret@) =~= Seq::<TargetView>::empty());
    match (lib, bin) {
        (Some(libs), Some(bins)) => {
            lib_targets(&mut ret, libs, TestDep::Needed, metadata);
            bin_targets(&mut ret, bins, BinDir::SrcBin);
        },
        (Some(libs), None) => {
            lib_targets(&mut ret, libs, TestDep::NotNeeded, metadata);
        },
        (None, Some(bins)) => {
            bin_targets(&mut ret, bins, BinDir::Src);
        },
        (None, None) => {},
    }
    match example {
        Some(examples) => example_targets(&mut ret, examples),
        None => {},
    }
    match test {
        Some(tests) => test_targets(&mut ret, tests),
        None => {},
    }
    ret
}

} // verus!
