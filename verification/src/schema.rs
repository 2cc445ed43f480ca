//! The manifest as written: the tables and keys a `Cargo.toml` may hold.

use vstd::prelude::*;
use crate::model::{opt_view, seq_view};

verus! {

/// Copies a list of strings.
pub fn clone_strings(v: &Vec<String>) -> (res: Vec<String>)
    ensures
        res.deep_view() == v.deep_view(),
{
    let mut out: Vec<String> = Vec::new();
    let mut i: usize = 0;
    while i < v.len()
        invariant
            i <= v.len(),
            out@.len() == i,
            out.deep_view() == v.deep_view().take(i as int),
        decreases v.len() - i,
    {
        let ghost before = out@;
        out.push(v[i].clone());
        assert forall|j: int| 0 <= j < i + 1 implies out.deep_view()[j] == v.deep_view().take(i + 1)[j] by {
            if j < i {
                assert(out@[j] == before[j]);
            }
        }
        assert(out.deep_view() =~= v.deep_view().take(i + 1));
        i = i + 1;
    }
    assert(v.deep_view().take(i as int) =~= v.deep_view());
    out
}

/// Copies an optional string.
pub fn clone_opt_string(o: &Option<String>) -> (res: Option<String>)
    ensures
        res.deep_view() == o.deep_view(),
{
    match o {
        Some(s) => Some(s.clone()),
        None => None,
    }
}

/// Copies an optional list of strings.
pub fn clone_opt_strings(o: &Option<Vec<String>>) -> (res: Option<Vec<String>>)
    ensures
        res.deep_view() == o.deep_view(),
{
    match o {
        Some(v) => Some(clone_strings(v)),
        None => None,
    }
}

/// A `[[lib]]`, `[[bin]]`, `[[example]]` or `[[test]]` entry.
#[derive(Debug)]
pub struct TomlTarget {
    pub name: String,
    pub crate_type: Option<Vec<String>>,
    pub path: Option<String>,
    pub test: Option<bool>,
    pub plugin: Option<bool>,
}

pub struct TomlTargetView {
    pub name: Seq<char>,
    pub crate_type: Option<Seq<Seq<char>>>,
    pub path: Option<Seq<char>>,
    pub test: Option<bool>,
    pub plugin: Option<bool>,
}

impl View for TomlTarget {
    type V = TomlTargetView;

    open spec fn view(&self) -> TomlTargetView {
        TomlTargetView {
            name: self.name@,
            crate_type: self.crate_type.deep_view(),
            path: self.path.deep_view(),
            test: self.test,
            plugin: self.plugin,
        }
    }
}

impl Clone for TomlTarget {
    fn clone(&self) -> (res: Self)
        ensures
            res@ == self@,
    {
        TomlTarget {
            name: self.name.clone(),
            crate_type: clone_opt_strings(&self.crate_type),
            path: clone_opt_string(&self.path),
            test: self.test,
            plugin: self.plugin,
        }
    }
}

/// The keys of a dependency given as a table.
#[derive(Debug)]
pub struct DetailedTomlDependency {
    pub version: Option<String>,
    pub path: Option<String>,
    pub git: Option<String>,
    pub branch: Option<String>,
    pub tag: Option<String>,
    pub rev: Option<String>,
}

pub struct DetailedTomlDependencyView {
    pub version: Option<Seq<char>>,
    pub path: Option<Seq<char>>,
    pub git: Option<Seq<char>>,
    pub branch: Option<Seq<char>>,
    pub tag: Option<Seq<char>>,
    pub rev: Option<Seq<char>>,
}

impl View for DetailedTomlDependency {
    type V = DetailedTomlDependencyView;

    open spec fn view(&self) -> DetailedTomlDependencyView {
        DetailedTomlDependencyView {
            version: self.version.deep_view(),
            path: self.path.deep_view(),
            git: self.git.deep_view(),
            branch: self.branch.deep_view(),
            tag: self.tag.deep_view(),
            rev: self.rev.deep_view(),
        }
    }
}

impl Clone for DetailedTomlDependency {
    fn clone(&self) -> (res: Self)
        ensures
            res@ == self@,
    {
        DetailedTomlDependency {
            version: clone_opt_string(&self.version),
            path: clone_opt_string(&self.path),
            git: clone_opt_string(&self.git),
            branch: clone_opt_string(&self.branch),
            tag: clone_opt_string(&self.tag),
            rev: clone_opt_string(&self.rev),
        }
    }
}

/// A dependency: a version requirement alone, or a table of keys.
#[derive(Debug)]
pub enum TomlDependency {
    SimpleDep(String),
    DetailedDep(DetailedTomlDependency),
}

pub enum TomlDependencyView {
    SimpleDep(Seq<char>),
    DetailedDep(DetailedTomlDependencyView),
}

impl View for TomlDependency {
    type V = TomlDependencyView;

    open spec fn view(&self) -> TomlDependencyView {
        match self {
            TomlDependency::SimpleDep(s) => TomlDependencyView::SimpleDep(s@),
            TomlDependency::DetailedDep(d) => TomlDependencyView::DetailedDep(d@),
        }
    }
}

impl Clone for TomlDependency {
    fn clone(&self) -> (res: Self)
        ensures
            res@ == self@,
    {
        match self {
            TomlDependency::SimpleDep(v) => TomlDependency::SimpleDep(v.clone()),
            TomlDependency::DetailedDep(d) => TomlDependency::DetailedDep(d.clone()),
        }
    }
}

/// The package's build command, or its list of build commands.
#[derive(Debug)]
pub enum TomlBuildCommandsList {
    SingleBuildCommand(String),
    MultipleBuildCommands(Vec<String>),
}

pub enum TomlBuildCommandsListView {
    SingleBuildCommand(Seq<char>),
    MultipleBuildCommands(Seq<Seq<char>>),
}

impl View for TomlBuildCommandsList {
    type V = TomlBuildCommandsListView;

    open spec fn view(&self) -> TomlBuildCommandsListView {
        match self {
            TomlBuildCommandsList::SingleBuildCommand(c) => TomlBuildCommandsListView::SingleBuildCommand(c@),
            TomlBuildCommandsList::MultipleBuildCommands(cs) => TomlBuildCommandsListView::MultipleBuildCommands(cs.deep_view()),
        }
    }
}

impl Clone for TomlBuildCommandsList {
    fn clone(&self) -> (res: Self)
        ensures
            res@ == self@,
    {
        match self {
            TomlBuildCommandsList::SingleBuildCommand(c) => TomlBuildCommandsList::SingleBuildCommand(c.clone()),
            TomlBuildCommandsList::MultipleBuildCommands(cs) => TomlBuildCommandsList::MultipleBuildCommands(
                clone_strings(cs),
            ),
        }
    }
}

/// The `[package]` (or `[project]`) table.
#[derive(Debug)]
pub struct TomlProject {
    pub name: String,
    pub version: String,
    pub authors: Vec<String>,
    pub build: Option<TomlBuildCommandsList>,
}

pub struct TomlProjectView {
    pub name: Seq<char>,
    pub version: Seq<char>,
    pub authors: Seq<Seq<char>>,
    pub build: Option<TomlBuildCommandsListView>,
}

impl View for TomlProject {
    type V = TomlProjectView;

    open spec fn view(&self) -> TomlProjectView {
        TomlProjectView {
            name: self.name@,
            version: self.version@,
            authors: self.authors.deep_view(),
            build: opt_view(self.build),
        }
    }
}

impl Clone for TomlProject {
    fn clone(&self) -> (res: Self)
        ensures
            res@ == self@,
    {
        TomlProject {
            name: self.name.clone(),
            version: self.version.clone(),
            authors: clone_strings(&self.authors),
            build: match &self.build {
                Some(b) => Some(b.clone()),
                None => None,
            },
        }
    }
}

/// A table of dependencies, as (name, dependency) entries in the table's order.
pub type TomlDependencies = Vec<(String, TomlDependency)>;

pub open spec fn deps_view(d: Seq<(String, TomlDependency)>) -> Seq<(Seq<char>, TomlDependencyView)> {
    d.map_values(|e: (String, TomlDependency)| (e.0@, e.1@))
}

pub open spec fn opt_targets_view(o: Option<Vec<TomlTarget>>) -> Option<Seq<TomlTargetView>> {
    match o {
        Some(v) => Some(seq_view(v@)),
        None => None,
    }
}

pub open spec fn opt_deps_view(o: Option<TomlDependencies>) -> Option<Seq<(Seq<char>, TomlDependencyView)>> {
    match o {
        Some(v) => Some(deps_view(v@)),
        None => None,
    }
}

/// A whole manifest.
#[derive(Debug)]
pub struct TomlManifest {
    pub package: Option<TomlProject>,
    pub project: Option<TomlProject>,
    pub lib: Option<Vec<TomlTarget>>,
    pub bin: Option<Vec<TomlTarget>>,
    pub example: Option<Vec<TomlTarget>>,
    pub test: Option<Vec<TomlTarget>>,
    pub dependencies: Option<TomlDependencies>,
    pub dev_dependencies: Option<TomlDependencies>,
}

pub struct TomlManifestView {
    pub package: Option<TomlProjectView>,
    pub project: Option<TomlProjectView>,
    pub lib: Option<Seq<TomlTargetView>>,
    pub bin: Option<Seq<TomlTargetView>>,
    pub example: Option<Seq<TomlTargetView>>,
    pub test: Option<Seq<TomlTargetView>>,
    pub dependencies: Option<Seq<(Seq<char>, TomlDependencyView)>>,
    pub dev_dependencies: Option<Seq<(Seq<char>, TomlDependencyView)>>,
}

impl View for TomlManifest {
    type V = TomlManifestView;

    open spec fn view(&self) -> TomlManifestView {
        TomlManifestView {
            package: opt_view(self.package),
            project: opt_view(self.project),
            lib: opt_targets_view(self.lib),
            bin: opt_targets_view(self.bin),
            example: opt_targets_view(self.example),
            test: opt_targets_view(self.test),
            dependencies: opt_deps_view(self.dependencies),
            dev_dependencies: opt_deps_view(self.dev_dependencies),
        }
    }
}


fn clone_opt_project(o: &Option<TomlProject>) -> (res: Option<TomlProject>)
    ensures
        opt_view(res) == opt_view(*o),
{
    match o {
        Some(p) => Some(p.clone()),
        None => None,
    }
}

/// Copies a list of target entries.
pub fn clone_targets(v: &Vec<TomlTarget>) -> (res: Vec<TomlTarget>)
    ensures
        seq_view(res@) == seq_view(v@),
{
    let mut out: Vec<TomlTarget> = Vec::new();
    let mut i: usize = 0;
    while i < v.len()
        invariant
            i <= v.len(),
            seq_view(out@) =~= seq_view(v@).take(i as int),
        decreases v.len() - i,
    {
        let t = v[i].clone();
        let ghost before = seq_view(out@);
        out.push(t);
        assert(seq_view(out@) =~= before.push(t@));
        i = i + 1;
    }
    assert(seq_view(v@).take(i as int) =~= seq_view(v@));
    out
}

fn clone_opt_targets(o: &Option<Vec<TomlTarget>>) -> (res: Option<Vec<TomlTarget>>)
    ensures
        opt_targets_view(res) == opt_targets_view(*o),
{
    match o {
        Some(v) => Some(clone_targets(v)),
        None => None,
    }
}

fn clone_opt_deps(o: &Option<TomlDependencies>) -> (res: Option<TomlDependencies>)
    ensures
        opt_deps_view(res) == opt_deps_view(*o),
{
    match o {
        Some(v) => {
            let mut out: TomlDependencies = Vec::new();
            let mut i: usize = 0;
            while i < v.len()
                invariant
                    i <= v.len(),
                    deps_view(out@) =~= deps_view(v@).take(i as int),
                decreases v.len() - i,
            {
                let e = (v[i].0.clone(), v[i].1.clone());
                let ghost before = deps_view(out@);
                out.push(e);
                assert(deps_view(out@) =~= before.push((e.0@, e.1@)));
                i = i + 1;
            }
            assert(deps_view(v@).take(i as int) =~= deps_view(v@));
            Some(out)
        },
        None => None,
    }
}

impl Clone for TomlManifest {
    fn clone(&self) -> (res: Self)
        ensures
            res@ == self@,
    {
        TomlManifest {
            package: clone_opt_project(&self.package),
            project: clone_opt_project(&self.project),
            lib: clone_opt_targets(&self.lib),
            bin: clone_opt_targets(&self.bin),
            example: clone_opt_targets(&self.example),
            test: clone_opt_targets(&self.test),
            dependencies: clone_opt_deps(&self.dependencies),
            dev_dependencies: clone_opt_deps(&self.dev_dependencies),
        }
    }
}

} // verus!
