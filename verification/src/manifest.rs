//! From a manifest's tables to the package model: the project, its targets,
//! its dependencies and its build commands.

use vstd::prelude::*;
use vstd::string::*;
use crate::layout::{
    inferred_bin_targets, inferred_example_targets, inferred_lib_target, inferred_test_targets,
    spec_inferred_bins, spec_inferred_by_stem, spec_inferred_lib_target, spec_main, Layout, LayoutView,
};
use crate::model::{
    seq_view, spec_central_source, spec_dependency, spec_metadata, spec_package_id, spec_parse_location,
    Dependency, DependencyView, Location, Manifest, ManifestError, ManifestErrorView, ManifestView,
    PackageId, PackageIdView, SourceId, SourceIdView, SourceKind, SourceKindView, Summary, SummaryView,
};
use crate::normalize::{normalize, opt_slice_view, spec_normalize};
use crate::paths::{normalize_path, spec_normalize_path};
use crate::schema::{
    clone_opt_string, clone_strings, clone_targets, deps_view, DetailedTomlDependency, DetailedTomlDependencyView, TomlBuildCommandsList,
    TomlBuildCommandsListView, TomlDependencies, TomlDependency, TomlDependencyView, TomlManifest,
    TomlManifestView, TomlProject, TomlProjectView, TomlTarget, TomlTargetView,
};

verus! {

impl TomlProject {
    /// The id of the package this project describes.
    pub fn to_package_id(&self, source_id: &SourceId) -> (res: Result<PackageId, ManifestError>)
        ensures
            match res {
                Ok(id) => spec_package_id(self@.name, self@.version, source_id@) == Ok::<PackageIdView, ManifestErrorView>(id@),
                Err(e) => spec_package_id(self@.name, self@.version, source_id@) == Err::<PackageIdView, ManifestErrorView>(e@),
            },
    {
        PackageId::new(self.name.as_str(), self.version.as_str(), source_id)
    }
}

/// What reading the dependency tables accumulates.
struct Context {
    deps: Vec<Dependency>,
    source_id: SourceId,
    source_ids: Vec<SourceId>,
    nested_paths: Vec<String>,
}

pub struct ContextView {
    pub deps: Seq<DependencyView>,
    pub source_id: SourceIdView,
    pub source_ids: Seq<SourceIdView>,
    pub nested_paths: Seq<Seq<char>>,
}

impl View for Context {
    type V = ContextView;

    closed spec fn view(&self) -> ContextView {
        ContextView {
            deps: seq_view(self.deps@),
            source_id: self.source_id@,
            source_ids: seq_view(self.source_ids@),
            nested_paths: self.nested_paths.deep_view(),
        }
    }
}

/// The git reference a dependency names: its branch, else its tag, else its
/// revision, else `master`.
pub open spec fn spec_reference(d: DetailedTomlDependencyView) -> Seq<char> {
    match d.branch {
        Some(b) => b,
        None => match d.tag {
            Some(t) => t,
            None => match d.rev {
                Some(r) => r,
                None => "master"@,
            },
        },
    }
}

/// Reading one dependency: a git dependency adds its source, a path
/// dependency adds its path (and comes from the manifest's own source);
/// anything else comes from the central registry. The dependency is then
/// added, as a development dependency when `dev` holds. The second component
/// is the error that stops the reading, if any.
pub open spec fn spec_process_entry(
    cx: ContextView,
    dev: bool,
    name: Seq<char>,
    dep: TomlDependencyView,
) -> (ContextView, Option<ManifestErrorView>) {
    let located: Result<(ContextView, Option<Seq<char>>, SourceIdView), ManifestErrorView> = match dep {
        TomlDependencyView::SimpleDep(v) => Ok((cx, Some(v), spec_central_source())),
        TomlDependencyView::DetailedDep(d) => match d.git {
            Some(git) => match spec_parse_location(git) {
                Ok(loc) => {
                    let sid = SourceIdView { kind: SourceKindView::Git(spec_reference(d)), location: loc };
                    Ok((ContextView { source_ids: cx.source_ids.push(sid), ..cx }, d.version, sid))
                },
                Err(e) => Err(e),
            },
            None => match d.path {
                Some(p) => Ok((ContextView { nested_paths: cx.nested_paths.push(spec_normalize_path(p)), ..cx }, d.version, cx.source_id)),
                None => Ok((cx, d.version, spec_central_source())),
            },
        },
    };
    match located {
        Err(e) => (cx, Some(e)),
        Ok((cx1, version, sid)) => match spec_dependency(name, version, sid) {
            Ok(dv) => {
                let dv2 = if dev { DependencyView { transitive: false, ..dv } } else { dv };
                (ContextView { deps: cx1.deps.push(dv2), ..cx1 }, None)
            },
            Err(e) => (cx1, Some(e)),
        },
    }
}

/// Reading a table of dependencies in order, stopping at the first error.
pub open spec fn spec_process(
    cx: ContextView,
    dev: bool,
    entries: Seq<(Seq<char>, TomlDependencyView)>,
) -> (ContextView, Option<ManifestErrorView>)
    decreases entries.len(),
{
    if entries.len() == 0 {
        (cx, None)
    } else {
        let (c, e) = spec_process(cx, dev, entries.drop_last());
        if e is Some {
            (c, e)
        } else {
            spec_process_entry(c, dev, entries.last().0, entries.last().1)
        }
    }
}

pub open spec fn opt_deps(o: Option<Seq<(Seq<char>, TomlDependencyView)>>) -> Seq<(Seq<char>, TomlDependencyView)> {
    match o {
        Some(d) => d,
        None => Seq::empty(),
    }
}

/// The git reference of a detailed dependency (see `spec_reference`).
fn reference(d: &DetailedTomlDependency) -> (res: String)
    ensures
        res@ == spec_reference(d@),
{
    match &d.branch {
        Some(b) => b.clone(),
        None => match &d.tag {
            Some(t) => t.clone(),
            None => match &d.rev {
                Some(r) => r.clone(),
                None => String::from_str("master"),
            },
        },
    }
}

/// Reads one dependency into the context (see `spec_process_entry`).
fn process_entry(cx: &mut Context, dev: bool, name: &String, v: &TomlDependency) -> (res: Result<(), ManifestError>)
    ensures
        (final(cx)@, match res { Ok(_) => None, Err(e) => Some(e@) }) == spec_process_entry(old(cx)@, dev, name@, v@),
{
    let ghost cx0 = cx@;
    let (version, source_id): (Option<String>, SourceId) = match v {
        TomlDependency::SimpleDep(s) => (Some(s.clone()), SourceId::for_central()),
        TomlDependency::DetailedDep(details) => {
            let reference = reference(details);
            let new_source_id = match &details.git {
                Some(git) => {
                    let loc = match Location::parse(git.as_str()) {
                        Ok(l) => l,
                        Err(e) => return Err(e),
                    };
                    let source_id = SourceId::new(SourceKind::Git(reference), loc);
                    let ghost before = cx.source_ids@;
                    cx.source_ids.push(source_id.clone());
                    assert(seq_view(cx.source_ids@) =~= seq_view(before).push(source_id@));
                    source_id
                },
                None => match &details.path {
                    Some(path) => {
                        let ghost before = cx.nested_paths.deep_view();
                        cx.nested_paths.push(normalize_path(path.as_str()));
                        assert(cx.nested_paths.deep_view() =~= before.push(spec_normalize_path(path@)));
                        cx.source_id.clone()
                    },
                    None => SourceId::for_central(),
                },
            };
            (clone_opt_string(&details.version), new_source_id)
        },
    };
    let version_str: Option<&str> = match &version {
        Some(s) => Some(s.as_str()),
        None => None,
    };
    let dep = match Dependency::parse(name.as_str(), version_str, &source_id) {
        Ok(d) => d,
        Err(e) => return Err(e),
    };
    let dep = if dev { dep.as_dev() } else { dep };
    let ghost before = cx.deps@;
    cx.deps.push(dep);
    assert(seq_view(cx.deps@) =~= seq_view(before).push(dep@));
    Ok(())
}

/// Reads a table of dependencies into the context (see `spec_process`).
fn process_dependencies(cx: &mut Context, dev: bool, new_deps: Option<&TomlDependencies>) -> (res: Result<(), ManifestError>)
    ensures
        (final(cx)@, match res { Ok(_) => None, Err(e) => Some(e@) }) == spec_process(
            old(cx)@,
            dev,
            match new_deps {
                Some(d) => deps_view(d@),
                None => Seq::empty(),
            },
        ),
{
    let dependencies = match new_deps {
        Some(d) => d,
        None => return Ok(()),
    };
    let ghost entries = deps_view(dependencies@);
    let ghost cx0 = cx@;
    let mut i: usize = 0;
    while i < dependencies.len()
        invariant
            i <= dependencies.len(),
            entries == deps_view(dependencies@),
            new_deps == Some(dependencies),
            cx0 == old(cx)@,
            spec_process(cx0, dev, entries.take(i as int)) == (cx@, None::<ManifestErrorView>),
        decreases dependencies.len() - i,
    {
        assert(entries.take(i + 1).drop_last() =~= entries.take(i as int));
        assert(entries.take(i + 1).last() == (dependencies@[i as int].0@, dependencies@[i as int].1@));
        let (n, v) = &dependencies[i];
        match process_entry(cx, dev, n, v) {
            Ok(()) => {},
            Err(e) => {
                proof {
                    assert(spec_process(cx0, dev, entries.take(i + 1)) == (cx@, Some(e@)));
                    lemma_process_error_extends(cx0, dev, entries, i as int + 1);
                    assert(spec_process(cx0, dev, entries) == (cx@, Some(e@)));
                }
                return Err(e);
            },
        }
        i = i + 1;
    }
    assert(entries.take(i as int) =~= entries);
    Ok(())
}

/// Once reading stops at an error, reading more entries keeps that outcome.
proof fn lemma_process_error_extends(cx: ContextView, dev: bool, entries: Seq<(Seq<char>, TomlDependencyView)>, n: int)
    requires
        0 < n <= entries.len(),
        spec_process(cx, dev, entries.take(n)).1 is Some,
    ensures
        spec_process(cx, dev, entries) == spec_process(cx, dev, entries.take(n)),
    decreases entries.len() - n,
{
    if n < entries.len() {
        assert(entries.take(n + 1).drop_last() =~= entries.take(n));
        lemma_process_error_extends(cx, dev, entries, n + 1);
    } else {
        assert(entries.take(n) =~= entries);
    }
}


/// A list of targets given in the manifest, or nothing when it is absent or empty.
pub open spec fn given(o: Option<Seq<TomlTargetView>>) -> Option<Seq<TomlTargetView>> {
    match o {
        Some(s) => if s.len() == 0 { None } else { Some(s) },
        None => None,
    }
}

/// A path, when there is one, in normal form.
pub open spec fn opt_normal(p: Option<Seq<char>>) -> Option<Seq<char>> {
    match p {
        Some(x) => Some(spec_normalize_path(x)),
        None => None,
    }
}

/// The library entries: the manifest's, where an entry without a path takes
/// the layout's library (in normal form); else the one the layout implies.
pub open spec fn spec_lib_entries(m: TomlManifestView, name: Seq<char>, layout: LayoutView) -> Option<Seq<TomlTargetView>> {
    match given(m.lib) {
        None => spec_inferred_lib_target(name, layout),
        Some(libs) => Some(libs.map_values(|t: TomlTargetView|
            if layout.lib is Some && t.path is None { TomlTargetView { path: opt_normal(layout.lib), ..t } } else { t })),
    }
}

/// The binary entries: the manifest's, where an entry without a path takes
/// the layout's `main.rs` (in normal form) (and is not a plugin); else those the layout implies.
pub open spec fn spec_bin_entries(m: TomlManifestView, name: Seq<char>, layout: LayoutView) -> Option<Seq<TomlTargetView>> {
    match given(m.bin) {
        None => Some(spec_inferred_bins(name, layout.bins)),
        Some(bins) => {
            let main = spec_main(layout.bins);
            Some(bins.map_values(|t: TomlTargetView|
                if main is Some && t.path is None {
                    TomlTargetView { name: t.name, crate_type: t.crate_type, path: opt_normal(main), test: t.test, plugin: None }
                } else {
                    t
                }))
        },
    }
}

/// Entries given in the manifest, else those implied by the files.
pub open spec fn spec_entries_or(given_entries: Option<Seq<TomlTargetView>>, files: Seq<Seq<char>>) -> Option<Seq<TomlTargetView>> {
    match given(given_entries) {
        None => Some(spec_inferred_by_stem(files)),
        Some(e) => Some(e),
    }
}

/// The build commands of a project.
pub open spec fn spec_build_commands(b: Option<TomlBuildCommandsListView>) -> Seq<Seq<char>> {
    match b {
        Some(TomlBuildCommandsListView::SingleBuildCommand(c)) => seq![c],
        Some(TomlBuildCommandsListView::MultipleBuildCommands(cs)) => cs,
        None => Seq::empty(),
    }
}

/// The project table: `[project]`, else `[package]`.
pub open spec fn spec_project(m: TomlManifestView) -> Option<TomlProjectView> {
    match m.project {
        Some(p) => Some(p),
        None => m.package,
    }
}

/// The manifest that a manifest's tables describe, with the paths of the
/// packages its path dependencies live in.
pub open spec fn spec_toml_to_manifest(
    m: TomlManifestView,
    source_id: SourceIdView,
    layout: LayoutView,
) -> Result<(ManifestView, Seq<Seq<char>>), ManifestErrorView> {
    match spec_project(m) {
        None => Err(ManifestErrorView::NoProject),
        Some(p) => match spec_package_id(p.name, p.version, source_id) {
            Err(e) => Err(e),
            Ok(pkgid) => {
                let targets = spec_normalize(
                    spec_lib_entries(m, p.name, layout),
                    spec_bin_entries(m, p.name, layout),
                    spec_entries_or(m.example, layout.examples),
                    spec_entries_or(m.test, layout.tests),
                    spec_metadata(pkgid),
                );
                let cx0 = ContextView {
                    deps: Seq::empty(),
                    source_id,
                    source_ids: Seq::empty(),
                    nested_paths: Seq::empty(),
                };
                let (cx1, e1) = spec_process(cx0, false, opt_deps(m.dependencies));
                match e1 {
                    Some(e) => Err(e),
                    None => {
                        let (cx2, e2) = spec_process(cx1, true, opt_deps(m.dev_dependencies));
                        match e2 {
                            Some(e) => Err(e),
                            None => Ok((
                                ManifestView {
                                    summary: SummaryView { package_id: pkgid, dependencies: cx2.deps },
                                    targets,
                                    target_dir: "target"@,
                                    sources: cx2.source_ids,
                                    build: spec_build_commands(p.build),
                                    unused_keys: Seq::empty(),
                                },
                                cx2.nested_paths,
                            )),
                        }
                    },
                }
            },
        },
    }
}

pub open spec fn result_view(r: Result<(Manifest, Vec<String>), ManifestError>) -> Result<(ManifestView, Seq<Seq<char>>), ManifestErrorView> {
    match r {
        Ok((m, paths)) => Ok((m@, paths.deep_view())),
        Err(e) => Err(e@),
    }
}

/// The library entries (see `spec_lib_entries`).
fn lib_entries(m: &TomlManifest, name: &str, layout: &Layout) -> (res: Option<Vec<TomlTarget>>)
    ensures
        crate::layout::opt_targets(res) == spec_lib_entries(m@, name@, layout@),
        res matches Some(v) ==> v@.len() > 0,
{
    let libs = match &m.lib {
        Some(libs) if libs.len() > 0 => libs,
        _ => return inferred_lib_target(name, layout),
    };
    let mut out: Vec<TomlTarget> = Vec::new();
    let mut i: usize = 0;
    while i < libs.len()
        invariant
            i <= libs.len(),
            m.lib == Some(*libs),
            seq_view(out@) =~= seq_view(libs@).take(i as int).map_values(|t: TomlTargetView|
                if layout@.lib is Some && t.path is None { TomlTargetView { path: opt_normal(layout@.lib), ..t } } else { t }),
        decreases libs.len() - i,
    {
        let t = &libs[i];
        let entry = if layout.lib.is_some() && t.path.is_none() {
            TomlTarget {
                name: t.name.clone(),
                crate_type: crate::schema::clone_opt_strings(&t.crate_type),
                path: match &layout.lib {
                    Some(p) => Some(normalize_path(p.as_str())),
                    None => None,
                },
                test: t.test,
                plugin: t.plugin,
            }
        } else {
            t.clone()
        };
        let ghost before = seq_view(out@);
        out.push(entry);
        proof {
            assert(seq_view(out@) =~= before.push(entry@));
            assert(seq_view(libs@).take(i + 1) =~= seq_view(libs@).take(i as int).push(t@));
        }
        i = i + 1;
    }
    assert(seq_view(libs@).take(i as int) =~= seq_view(libs@));
    Some(out)
}

/// The binary entries (see `spec_bin_entries`).
fn bin_entries(m: &TomlManifest, name: &str, layout: &Layout) -> (res: Option<Vec<TomlTarget>>)
    ensures
        crate::layout::opt_targets(res) == spec_bin_entries(m@, name@, layout@),
{
    let bins = match &m.bin {
        Some(bins) if bins.len() > 0 => bins,
        _ => return inferred_bin_targets(name, layout),
    };
    let bin = layout.main();
    let ghost main = spec_main(layout@.bins);
    let mut out: Vec<TomlTarget> = Vec::new();
    let mut i: usize = 0;
    while i < bins.len()
        invariant
            i <= bins.len(),
            m.bin == Some(*bins),
            main == spec_main(layout@.bins),
            match bin {
                Some(p) => main == Some(p@),
                None => main is None,
            },
            seq_view(out@) =~= seq_view(bins@).take(i as int).map_values(|t: TomlTargetView|
                if main is Some && t.path is None {
                    TomlTargetView { name: t.name, crate_type: t.crate_type, path: opt_normal(main), test: t.test, plugin: None }
                } else {
                    t
                }),
        decreases bins.len() - i,
    {
        let t = &bins[i];
        let entry = if bin.is_some() && t.path.is_none() {
            TomlTarget {
                name: t.name.clone(),
                crate_type: crate::schema::clone_opt_strings(&t.crate_type),
                path: match bin {
                    Some(p) => Some(normalize_path(p.as_str())),
                    None => None,
                },
                test: t.test,
                plugin: None,
            }
        } else {
            t.clone()
        };
        let ghost before = seq_view(out@);
        out.push(entry);
        proof {
            assert(seq_view(out@) =~= before.push(entry@));
            assert(seq_view(bins@).take(i + 1) =~= seq_view(bins@).take(i as int).push(t@));
        }
        i = i + 1;
    }
    assert(seq_view(bins@).take(i as int) =~= seq_view(bins@));
    Some(out)
}

/// Entries given in the manifest, else those `inferred` gives.
fn entries_or(given_entries: &Option<Vec<TomlTarget>>, inferred: Option<Vec<TomlTarget>>) -> (res: Option<Vec<TomlTarget>>)
    ensures
        crate::layout::opt_targets(res) == match given(crate::layout::opt_targets(*given_entries)) {
            None => crate::layout::opt_targets(inferred),
            Some(e) => Some(e),
        },
{
    match given_entries {
        Some(e) if e.len() > 0 => Some(clone_targets(e)),
        _ => inferred,
    }
}

fn as_slice_opt(o: &Option<Vec<TomlTarget>>) -> (res: Option<&[TomlTarget]>)
    ensures
        opt_slice_view(res) == crate::layout::opt_targets(*o),
        o matches Some(v) ==> (res matches Some(sl) && sl@.len() == v@.len()),
{
    match o {
        Some(v) => Some(v.as_slice()),
        None => None,
    }
}

impl TomlManifest {
    /// The manifest these tables describe, read against the package's source
    /// and layout (see `spec_toml_to_manifest`), with the paths of the
    /// packages its path dependencies live in.
    pub fn to_manifest(&self, source_id: &SourceId, layout: &Layout) -> (res: Result<(Manifest, Vec<String>), ManifestError>)
        ensures
            result_view(res) == spec_toml_to_manifest(self@, source_id@, layout@),
    {
        let project = match &self.project {
            Some(p) => p,
            None => match &self.package {
                Some(p) => p,
                None => return Err(ManifestError::NoProject),
            },
        };
        let pkgid = match project.to_package_id(source_id) {
            Ok(id) => id,
            Err(e) => return Err(e),
        };
        let metadata = pkgid.generate_metadata();

        let lib = lib_entries(self, project.name.as_str(), layout);
        let bins = bin_entries(self, project.name.as_str(), layout);
        let examples = entries_or(&self.example, inferred_example_targets(layout));
        let tests = entries_or(&self.test, inferred_test_targets(layout));

        let targets = normalize(
            as_slice_opt(&lib),
            as_slice_opt(&bins),
            as_slice_opt(&examples),
            as_slice_opt(&tests),
            &metadata,
        );

        let mut cx = Context {
            deps: Vec::new(),
            source_id: source_id.clone(),
            source_ids: Vec::new(),
            nested_paths: Vec::new(),
        };
        proof {
            assert(seq_view(cx.deps@) =~= Seq::<DependencyView>::empty());
            assert(seq_view(cx.source_ids@) =~= Seq::<SourceIdView>::empty());
            assert(cx.nested_paths.deep_view() =~= Seq::<Seq<char>>::empty());
        }
        match process_dependencies(&mut cx, false, self.dependencies.as_ref()) {
            Ok(()) => {},
            Err(e) => return Err(e),
        }
        match process_dependencies(&mut cx, true, self.dev_dependencies.as_ref()) {
            Ok(()) => {},
            Err(e) => return Err(e),
        }
        let build: Vec<String> = match &project.build {
            Some(TomlBuildCommandsList::SingleBuildCommand(cmd)) => {
                let mut v: Vec<String> = Vec::new();
                v.push(cmd.clone());
                assert(v.deep_view() =~= seq![cmd@]);
                v
            },
            Some(TomlBuildCommandsList::MultipleBuildCommands(cmds)) => clone_strings(cmds),
            None => {
                let v: Vec<String> = Vec::new();
                assert(v.deep_view() =~= Seq::<Seq<char>>::empty());
                v
            },
        };
        let Context { deps, source_ids, nested_paths, .. } = cx;
        let summary = Summary::new(pkgid, deps);
        Ok((Manifest::new(summary, targets, "target", source_ids, build), nested_paths))
    }
}

} // verus!
