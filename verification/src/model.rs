//! The package model a manifest is read into: build profiles, targets,
//! sources, package ids, dependencies and the manifest itself.

use vstd::prelude::*;
use vstd::string::*;
use crate::paths::{starts_with, substring};

verus! {

// ---------------------------------------------------------------------------
// Outside calls
// ---------------------------------------------------------------------------

/// Whether `semver::Version::parse` accepts the text.
pub uninterp spec fn semver_version_parses(text: Seq<char>) -> bool;

/// Whether `semver::VersionReq::parse` accepts the text.
pub uninterp spec fn semver_req_parses(text: Seq<char>) -> bool;

/// What `url::Url::parse` makes of the text: its serialization, or nothing
/// when the text is not a URL.
pub uninterp spec fn url_parse(text: Seq<char>) -> Option<Seq<char>>;

/// Calls `semver::Version::parse` and reports whether it succeeded; the
/// result is named by `semver_version_parses` and is a function of the text
/// alone.
#[verifier::external_body]
fn version_parses(text: &str) -> (res: bool)
    ensures
        res == semver_version_parses(text@),
{
    match semver::Version::parse(text) {
        Ok(_) => true,
        Err(_) => false,
    }
}

/// Calls `semver::VersionReq::parse` and reports whether it succeeded; the
/// result is named by `semver_req_parses` and is a function of the text alone.
#[verifier::external_body]
fn version_req_parses(text: &str) -> (res: bool)
    ensures
        res == semver_req_parses(text@),
{
    match semver::VersionReq::parse(text) {
        Ok(_) => true,
        Err(_) => false,
    }
}

/// Calls `url::Url::parse`, giving the parsed URL's serialization
/// (`Url::to_string`), or `None` when parsing fails; named by `url_parse`.
#[verifier::external_body]
fn parse_url(text: &str) -> (res: Option<String>)
    ensures
        res.deep_view() == url_parse(text@),
{
    match url::Url::parse(text) {
        Ok(u) => Some(u.to_string()),
        Err(_) => None,
    }
}

// ---------------------------------------------------------------------------
// Errors
// ---------------------------------------------------------------------------

/// A value of the wrong type, or a missing one, met while reading the
/// manifest's tables.
#[derive(Debug)]
pub struct DecodeError {
    /// The dotted key at which it was met.
    pub key: String,
    /// The TOML type that was expected there.
    pub expected: String,
}

pub struct DecodeErrorView {
    pub key: Seq<char>,
    pub expected: Seq<char>,
}

impl View for DecodeError {
    type V = DecodeErrorView;

    open spec fn view(&self) -> DecodeErrorView {
        DecodeErrorView { key: self.key@, expected: self.expected@ }
    }
}

/// Why a manifest could not be read.
#[derive(Debug)]
pub enum ManifestError {
    /// The file is not UTF-8.
    NotUtf8,
    /// The text is not TOML; the message says where and why.
    Parse(String),
    /// The TOML does not have the shape of a manifest.
    Decode(DecodeError),
    /// Neither `[package]` nor `[project]` is present.
    NoProject,
    /// The package version is not a semantic version.
    InvalidVersion(String),
    /// A git dependency's location is not a URL.
    InvalidUrl(String),
    /// A dependency's version requirement does not parse: (name, requirement).
    InvalidVersionReq(String, String),
    /// The manifest declares no target and none can be inferred.
    NoTargets,
    /// The manifest is not valid; the inner error says why.
    Invalid(Box<ManifestError>),
}

pub enum ManifestErrorView {
    NotUtf8,
    Parse(Seq<char>),
    Decode(DecodeErrorView),
    NoProject,
    InvalidVersion(Seq<char>),
    InvalidUrl(Seq<char>),
    InvalidVersionReq(Seq<char>, Seq<char>),
    NoTargets,
    Invalid(Box<ManifestErrorView>),
}

impl ManifestError {
    pub open spec fn view_of(self) -> ManifestErrorView
        decreases self,
    {
        match self {
            ManifestError::NotUtf8 => ManifestErrorView::NotUtf8,
            ManifestError::Parse(m) => ManifestErrorView::Parse(m@),
            ManifestError::Decode(d) => ManifestErrorView::Decode(d@),
            ManifestError::NoProject => ManifestErrorView::NoProject,
            ManifestError::InvalidVersion(v) => ManifestErrorView::InvalidVersion(v@),
            ManifestError::InvalidUrl(u) => ManifestErrorView::InvalidUrl(u@),
            ManifestError::InvalidVersionReq(n, r) => ManifestErrorView::InvalidVersionReq(n@, r@),
            ManifestError::NoTargets => ManifestErrorView::NoTargets,
            ManifestError::Invalid(inner) => ManifestErrorView::Invalid(Box::new((*inner).view_of())),
        }
    }
}

impl View for ManifestError {
    type V = ManifestErrorView;

    open spec fn view(&self) -> ManifestErrorView {
        self.view_of()
    }
}

/// The text that reports an error.
pub open spec fn spec_error_message(e: ManifestErrorView) -> Seq<char>
    decreases e,
{
    match e {
        ManifestErrorView::NotUtf8 => "Cargo.toml is not valid UTF-8"@,
        ManifestErrorView::Parse(m) => m,
        ManifestErrorView::Decode(d) =>
            "expected a value of type `"@ + d.expected + "` for the key `"@ + d.key + "`"@,
        ManifestErrorView::NoProject => "No `package` or `project` section found."@,
        ManifestErrorView::InvalidVersion(v) => "invalid version `"@ + v + "`"@,
        ManifestErrorView::InvalidUrl(u) => "invalid url `"@ + u + "`"@,
        ManifestErrorView::InvalidVersionReq(n, r) =>
            "invalid version requirement `"@ + r + "` for dependency `"@ + n + "`"@,
        ManifestErrorView::NoTargets => "either a [[lib]] or [[bin]] section must be present"@,
        ManifestErrorView::Invalid(inner) =>
            "Cargo.toml is not a valid manifest\n\n"@ + spec_error_message(*inner),
    }
}

impl ManifestError {
    /// The text that reports this error (see `spec_error_message`).
    pub fn description(&self) -> (res: String)
        ensures
            res@ == spec_error_message(self@),
        decreases self,
    {
        match self {
            ManifestError::NotUtf8 => String::from_str("Cargo.toml is not valid UTF-8"),
            ManifestError::Parse(m) => m.clone(),
            ManifestError::Decode(d) => {
                let mut r = String::from_str("expected a value of type `");
                r.append(d.expected.as_str());
                r.append("` for the key `");
                r.append(d.key.as_str());
                r.append("`");
                r
            },
            ManifestError::NoProject => String::from_str("No `package` or `project` section found."),
            ManifestError::InvalidVersion(v) => {
                let mut r = String::from_str("invalid version `");
                r.append(v.as_str());
                r.append("`");
                r
            },
            ManifestError::InvalidUrl(u) => {
                let mut r = String::from_str("invalid url `");
                r.append(u.as_str());
                r.append("`");
                r
            },
            ManifestError::InvalidVersionReq(n, q) => {
                let mut r = String::from_str("invalid version requirement `");
                r.append(q.as_str());
                r.append("` for dependency `");
                r.append(n.as_str());
                r.append("`");
                r
            },
            ManifestError::NoTargets => String::from_str("either a [[lib]] or [[bin]] section must be present"),
            ManifestError::Invalid(inner) => {
                let mut r = String::from_str("Cargo.toml is not a valid manifest\n\n");
                let rest = inner.description();
                r.append(rest.as_str());
                r
            },
        }
    }
}

// ---------------------------------------------------------------------------
// Profiles and targets
// ---------------------------------------------------------------------------

/// The environment a profile builds for.
#[derive(PartialEq, Eq, Structural, Clone, Copy, Debug)]
pub enum ProfileEnv {
    Compile,
    Test,
    Release,
}

/// How a target is built.
#[derive(PartialEq, Eq, Structural, Clone, Copy, Debug)]
pub struct Profile {
    pub env: ProfileEnv,
    pub opt_level: u32,
    pub debug: bool,
    /// Whether the build runs the target's tests.
    pub test: bool,
    /// Whether the target is a compiler plugin.
    pub plugin: bool,
}

pub open spec fn spec_default_dev() -> Profile {
    Profile { env: ProfileEnv::Compile, opt_level: 0, debug: true, test: false, plugin: false }
}

pub open spec fn spec_default_test() -> Profile {
    Profile { env: ProfileEnv::Test, opt_level: 0, debug: true, test: true, plugin: false }
}

pub open spec fn spec_default_release() -> Profile {
    Profile { env: ProfileEnv::Release, opt_level: 3, debug: false, test: false, plugin: false }
}

impl Profile {
    /// The profile of an ordinary development build.
    pub fn default_dev() -> (p: Profile)
        ensures
            p == spec_default_dev(),
    {
        Profile { env: ProfileEnv::Compile, opt_level: 0, debug: true, test: false, plugin: false }
    }

    /// The profile of a test build.
    pub fn default_test() -> (p: Profile)
        ensures
            p == spec_default_test(),
    {
        Profile { env: ProfileEnv::Test, opt_level: 0, debug: true, test: true, plugin: false }
    }

    /// The profile of an optimised release build.
    pub fn default_release() -> (p: Profile)
        ensures
            p == spec_default_release(),
    {
        Profile { env: ProfileEnv::Release, opt_level: 3, debug: false, test: false, plugin: false }
    }

    /// The same profile with its `test` flag set to `test`.
    pub fn test(self, test: bool) -> (p: Profile)
        ensures
            p == (Profile { test, ..self }),
    {
        Profile { test, ..self }
    }

    /// The same profile with its `plugin` flag set to `plugin`.
    pub fn plugin(self, plugin: bool) -> (p: Profile)
        ensures
            p == (Profile { plugin, ..self }),
    {
        Profile { plugin, ..self }
    }
}

/// The kinds of library a crate can be built as.
#[derive(PartialEq, Eq, Structural, Clone, Copy, Debug)]
pub enum LibKind {
    Lib,
    Rlib,
    Dylib,
    StaticLib,
}

/// The library kind a `crate_type` entry names.
pub open spec fn spec_lib_kind(s: Seq<char>) -> Option<LibKind> {
    if s == "lib"@ {
        Some(LibKind::Lib)
    } else if s == "rlib"@ {
        Some(LibKind::Rlib)
    } else if s == "dylib"@ {
        Some(LibKind::Dylib)
    } else if s == "staticlib"@ {
        Some(LibKind::StaticLib)
    } else {
        None
    }
}

/// The library kinds that a list of `crate_type` entries names, or nothing
/// when one of them names no kind.
pub open spec fn spec_lib_kinds(strs: Seq<Seq<char>>) -> Option<Seq<LibKind>>
    decreases strs.len(),
{
    if strs.len() == 0 {
        Some(Seq::empty())
    } else {
        match (spec_lib_kinds(strs.drop_last()), spec_lib_kind(strs.last())) {
            (Some(ks), Some(k)) => Some(ks.push(k)),
            _ => None,
        }
    }
}

impl LibKind {
    /// The library kind named by `s`: one of `lib`, `rlib`, `dylib`, `staticlib`.
    pub fn from_str(s: &str) -> (res: Option<LibKind>)
        ensures
            res == spec_lib_kind(s@),
    {
        if crate::paths::str_eq(s, "lib") {
            Some(LibKind::Lib)
        } else if crate::paths::str_eq(s, "rlib") {
            Some(LibKind::Rlib)
        } else if crate::paths::str_eq(s, "dylib") {
            Some(LibKind::Dylib)
        } else if crate::paths::str_eq(s, "staticlib") {
            Some(LibKind::StaticLib)
        } else {
            None
        }
    }

    /// The library kinds named by `strs`, in order; `None` if any name is unknown.
    pub fn from_strs(strs: &Vec<String>) -> (res: Option<Vec<LibKind>>)
        ensures
            match res {
                Some(v) => spec_lib_kinds(strs.deep_view()) == Some(v@),
                None => spec_lib_kinds(strs.deep_view()) is None,
            },
    {
        let mut out: Vec<LibKind> = Vec::new();
        let mut i: usize = 0;
        while i < strs.len()
            invariant
                i <= strs.len(),
                spec_lib_kinds(strs.deep_view().take(i as int)) == Some(out@),
            decreases strs.len() - i,
        {
            assert(strs.deep_view().take(i + 1).drop_last() =~= strs.deep_view().take(i as int));
            match LibKind::from_str(strs[i].as_str()) {
                Some(k) => out.push(k),
                None => {
                    proof {
                        lemma_lib_kinds_none_extends(strs.deep_view(), i as int + 1);
                    }
                    return None;
                },
            }
            i = i + 1;
        }
        assert(strs.deep_view().take(i as int) =~= strs.deep_view());
        Some(out)
    }
}

/// Once a prefix names an unknown kind, every longer prefix does too.
proof fn lemma_lib_kinds_none_extends(strs: Seq<Seq<char>>, n: int)
    requires
        0 < n <= strs.len(),
        spec_lib_kinds(strs.take(n)) is None,
    ensures
        spec_lib_kinds(strs) is None,
    decreases strs.len() - n,
{
    if n < strs.len() {
        assert(strs.take(n + 1).drop_last() =~= strs.take(n));
        lemma_lib_kinds_none_extends(strs, n + 1);
    } else {
        assert(strs.take(n) =~= strs);
    }
}


/// What a target builds.
#[derive(Debug)]
pub enum TargetKind {
    /// A library, built as the given kinds.
    Lib(Vec<LibKind>),
    Bin,
    Example,
    Test,
}

pub enum TargetKindView {
    Lib(Seq<LibKind>),
    Bin,
    Example,
    Test,
}

impl View for TargetKind {
    type V = TargetKindView;

    open spec fn view(&self) -> TargetKindView {
        match self {
            TargetKind::Lib(kinds) => TargetKindView::Lib(kinds@),
            TargetKind::Bin => TargetKindView::Bin,
            TargetKind::Example => TargetKindView::Example,
            TargetKind::Test => TargetKindView::Test,
        }
    }
}

/// Data that distinguishes one package's library artifacts from another's.
#[derive(Debug)]
pub struct Metadata {
    pub metadata: String,
    pub extra_filename: String,
}

pub struct MetadataView {
    pub metadata: Seq<char>,
    pub extra_filename: Seq<char>,
}

impl View for Metadata {
    type V = MetadataView;

    open spec fn view(&self) -> MetadataView {
        MetadataView { metadata: self.metadata@, extra_filename: self.extra_filename@ }
    }
}

impl Clone for Metadata {
    fn clone(&self) -> (res: Self)
        ensures
            res@ == self@,
    {
        Metadata { metadata: self.metadata.clone(), extra_filename: self.extra_filename.clone() }
    }
}

/// One thing to build from a package, with the profile to build it with.
#[derive(Debug)]
pub struct Target {
    pub kind: TargetKind,
    pub name: String,
    pub path: String,
    pub profile: Profile,
    pub metadata: Option<Metadata>,
}

pub struct TargetView {
    pub kind: TargetKindView,
    pub name: Seq<char>,
    pub path: Seq<char>,
    pub profile: Profile,
    pub metadata: Option<MetadataView>,
}

pub open spec fn opt_view<T: View>(o: Option<T>) -> Option<T::V> {
    match o {
        Some(x) => Some(x@),
        None => None,
    }
}

impl View for Target {
    type V = TargetView;

    open spec fn view(&self) -> TargetView {
        TargetView {
            kind: self.kind@,
            name: self.name@,
            path: self.path@,
            profile: self.profile,
            metadata: opt_view(self.metadata),
        }
    }
}

impl Target {
    /// A library target built as `crate_types`.
    pub fn lib_target(
        name: &str,
        crate_types: Vec<LibKind>,
        path: &str,
        profile: &Profile,
        metadata: &Metadata,
    ) -> (t: Target)
        ensures
            t@ == (TargetView {
                kind: TargetKindView::Lib(crate_types@),
                name: name@,
                path: path@,
                profile: *profile,
                metadata: Some(metadata@),
            }),
    {
        Target {
            kind: TargetKind::Lib(crate_types),
            name: String::from_str(name),
            path: String::from_str(path),
            profile: *profile,
            metadata: Some(metadata.clone()),
        }
    }

    /// A binary target.
    pub fn bin_target(name: &str, path: &str, profile: &Profile) -> (t: Target)
        ensures
            t@ == (TargetView {
                kind: TargetKindView::Bin,
                name: name@,
                path: path@,
                profile: *profile,
                metadata: None,
            }),
    {
        Target {
            kind: TargetKind::Bin,
            name: String::from_str(name),
            path: String::from_str(path),
            profile: *profile,
            metadata: None,
        }
    }

    /// An example target.
    pub fn example_target(name: &str, path: &str, profile: &Profile) -> (t: Target)
        ensures
            t@ == (TargetView {
                kind: TargetKindView::Example,
                name: name@,
                path: path@,
                profile: *profile,
                metadata: None,
            }),
    {
        Target {
            kind: TargetKind::Example,
            name: String::from_str(name),
            path: String::from_str(path),
            profile: *profile,
            metadata: None,
        }
    }

    /// A test target.
    pub fn test_target(name: &str, path: &str, profile: &Profile) -> (t: Target)
        ensures
            t@ == (TargetView {
                kind: TargetKindView::Test,
                name: name@,
                path: path@,
                profile: *profile,
                metadata: None,
            }),
    {
        Target {
            kind: TargetKind::Test,
            name: String::from_str(name),
            path: String::from_str(path),
            profile: *profile,
            metadata: None,
        }
    }
}

// ---------------------------------------------------------------------------
// Sources, package ids and dependencies
// ---------------------------------------------------------------------------

/// Where a source's packages come from.
#[derive(Debug)]
pub enum SourceKind {
    /// A git repository, at the given branch, tag or revision.
    Git(String),
    /// A directory on disk.
    Path,
    /// The central registry.
    Registry,
}

pub enum SourceKindView {
    Git(Seq<char>),
    Path,
    Registry,
}

impl View for SourceKind {
    type V = SourceKindView;

    open spec fn view(&self) -> SourceKindView {
        match self {
            SourceKind::Git(r) => SourceKindView::Git(r@),
            SourceKind::Path => SourceKindView::Path,
            SourceKind::Registry => SourceKindView::Registry,
        }
    }
}

/// A source's location: a local path, or a URL (as serialized by `url`).
#[derive(Debug)]
pub enum Location {
    Local(String),
    Remote(String),
}

pub enum LocationView {
    Local(Seq<char>),
    Remote(Seq<char>),
}

impl View for Location {
    type V = LocationView;

    open spec fn view(&self) -> LocationView {
        match self {
            Location::Local(p) => LocationView::Local(p@),
            Location::Remote(u) => LocationView::Remote(u@),
        }
    }
}

/// The location of a `file:` URL, or else what `url` makes of the text.
pub open spec fn spec_parse_location(s: Seq<char>) -> Result<LocationView, ManifestErrorView> {
    if "file:"@.len() <= s.len() && s.subrange(0, "file:"@.len() as int) == "file:"@ {
        Ok(LocationView::Local(s.subrange("file:"@.len() as int, s.len() as int)))
    } else {
        match url_parse(s) {
            Some(u) => Ok(LocationView::Remote(u)),
            None => Err(ManifestErrorView::InvalidUrl(s)),
        }
    }
}

impl Location {
    /// Reads a location: `file:` followed by a path, or a URL.
    pub fn parse(s: &str) -> (res: Result<Location, ManifestError>)
        ensures
            match res {
                Ok(l) => spec_parse_location(s@) == Ok::<LocationView, ManifestErrorView>(l@),
                Err(e) => spec_parse_location(s@) == Err::<LocationView, ManifestErrorView>(e@),
            },
    {
        let prefix = "file:";
        if starts_with(s, prefix) {
            let n: usize = s.unicode_len();
            let m: usize = prefix.unicode_len();
            Ok(Location::Local(substring(s, m, n)))
        } else {
            match parse_url(s) {
                Some(u) => Ok(Location::Remote(u)),
                None => Err(ManifestError::InvalidUrl(String::from_str(s))),
            }
        }
    }
}

/// Identifies a source of packages.
#[derive(Debug)]
pub struct SourceId {
    pub kind: SourceKind,
    pub location: Location,
}

pub struct SourceIdView {
    pub kind: SourceKindView,
    pub location: LocationView,
}

impl View for SourceId {
    type V = SourceIdView;

    open spec fn view(&self) -> SourceIdView {
        SourceIdView { kind: self.kind@, location: self.location@ }
    }
}

/// The URL of the central registry.
pub open spec fn central_url() -> Seq<char> {
    "https://example.com/"@
}

pub open spec fn spec_central_source() -> SourceIdView {
    SourceIdView { kind: SourceKindView::Registry, location: LocationView::Remote(central_url()) }
}

impl Clone for SourceKind {
    fn clone(&self) -> (res: Self)
        ensures
            res@ == self@,
    {
        match self {
            SourceKind::Git(r) => SourceKind::Git(r.clone()),
            SourceKind::Path => SourceKind::Path,
            SourceKind::Registry => SourceKind::Registry,
        }
    }
}

impl Clone for Location {
    fn clone(&self) -> (res: Self)
        ensures
            res@ == self@,
    {
        match self {
            Location::Local(p) => Location::Local(p.clone()),
            Location::Remote(u) => Location::Remote(u.clone()),
        }
    }
}

impl Clone for SourceId {
    fn clone(&self) -> (res: Self)
        ensures
            res@ == self@,
    {
        SourceId { kind: self.kind.clone(), location: self.location.clone() }
    }
}

impl SourceId {
    pub fn new(kind: SourceKind, location: Location) -> (res: SourceId)
        ensures
            res@ == (SourceIdView { kind: kind@, location: location@ }),
    {
        SourceId { kind, location }
    }

    /// The central registry.
    pub fn for_central() -> (res: SourceId)
        ensures
            res@ == spec_central_source(),
    {
        SourceId {
            kind: SourceKind::Registry,
            location: Location::Remote(String::from_str("https://example.com/")),
        }
    }
}

/// Names one version of one package from one source.
#[derive(Debug)]
pub struct PackageId {
    pub name: String,
    pub version: String,
    pub source_id: SourceId,
}

pub struct PackageIdView {
    pub name: Seq<char>,
    pub version: Seq<char>,
    pub source_id: SourceIdView,
}

impl View for PackageId {
    type V = PackageIdView;

    open spec fn view(&self) -> PackageIdView {
        PackageIdView { name: self.name@, version: self.version@, source_id: self.source_id@ }
    }
}

pub open spec fn spec_package_id(
    name: Seq<char>,
    version: Seq<char>,
    source_id: SourceIdView,
) -> Result<PackageIdView, ManifestErrorView> {
    if semver_version_parses(version) {
        Ok(PackageIdView { name, version, source_id })
    } else {
        Err(ManifestErrorView::InvalidVersion(version))
    }
}

/// The metadata of a package: its name and version, joined by `-`.
pub open spec fn spec_metadata(id: PackageIdView) -> MetadataView {
    let m = id.name + "-"@ + id.version;
    MetadataView { metadata: m, extra_filename: "-"@ + m }
}

impl PackageId {
    /// The id of version `version` of package `name`; the version must be a
    /// semantic version.
    pub fn new(name: &str, version: &str, source_id: &SourceId) -> (res: Result<PackageId, ManifestError>)
        ensures
            match res {
                Ok(id) => spec_package_id(name@, version@, source_id@) == Ok::<PackageIdView, ManifestErrorView>(id@),
                Err(e) => spec_package_id(name@, version@, source_id@) == Err::<PackageIdView, ManifestErrorView>(e@),
            },
    {
        if version_parses(version) {
            Ok(PackageId {
                name: String::from_str(name),
                version: String::from_str(version),
                source_id: source_id.clone(),
            })
        } else {
            Err(ManifestError::InvalidVersion(String::from_str(version)))
        }
    }

    /// The metadata that tells this package's artifacts apart.
    pub fn generate_metadata(&self) -> (res: Metadata)
        ensures
            res@ == spec_metadata(self@),
    {
        let mut m = self.name.clone();
        m.append("-");
        m.append(self.version.as_str());
        let mut extra = String::from_str("-");
        extra.append(m.as_str());
        Metadata { metadata: m, extra_filename: extra }
    }
}

impl Clone for PackageId {
    fn clone(&self) -> (res: Self)
        ensures
            res@ == self@,
    {
        PackageId {
            name: self.name.clone(),
            version: self.version.clone(),
            source_id: self.source_id.clone(),
        }
    }
}

/// A dependency on a package, by name and version requirement.
#[derive(Debug)]
pub struct Dependency {
    pub name: String,
    /// The version requirement, in `semver` syntax.
    pub req: String,
    pub source_id: SourceId,
    /// Whether packages depending on this one depend on it too; false for
    /// development dependencies.
    pub transitive: bool,
}

pub struct DependencyView {
    pub name: Seq<char>,
    pub req: Seq<char>,
    pub source_id: SourceIdView,
    pub transitive: bool,
}

impl View for Dependency {
    type V = DependencyView;

    open spec fn view(&self) -> DependencyView {
        DependencyView {
            name: self.name@,
            req: self.req@,
            source_id: self.source_id@,
            transitive: self.transitive,
        }
    }
}

pub open spec fn spec_dependency(
    name: Seq<char>,
    version: Option<Seq<char>>,
    source_id: SourceIdView,
) -> Result<DependencyView, ManifestErrorView> {
    match version {
        Some(v) => if semver_req_parses(v) {
            Ok(DependencyView { name, req: v, source_id, transitive: true })
        } else {
            Err(ManifestErrorView::InvalidVersionReq(name, v))
        },
        None => Ok(DependencyView { name, req: "*"@, source_id, transitive: true }),
    }
}

impl Dependency {
    /// A dependency on `name`, at any version when `version` is absent, else
    /// at the versions the requirement `version` allows.
    pub fn parse(name: &str, version: Option<&str>, source_id: &SourceId) -> (res: Result<Dependency, ManifestError>)
        ensures
            match res {
                Ok(d) => spec_dependency(name@, version.deep_view(), source_id@) == Ok::<DependencyView, ManifestErrorView>(d@),
                Err(e) => spec_dependency(name@, version.deep_view(), source_id@) == Err::<DependencyView, ManifestErrorView>(e@),
            },
    {
        let req = match version {
            Some(v) => {
                if !version_req_parses(v) {
                    return Err(ManifestError::InvalidVersionReq(String::from_str(name), String::from_str(v)));
                }
                String::from_str(v)
            },
            None => String::from_str("*"),
        };
        Ok(Dependency { name: String::from_str(name), req, source_id: source_id.clone(), transitive: true })
    }

    /// The same dependency, as a development dependency.
    pub fn as_dev(self) -> (res: Dependency)
        ensures
            res@ == (DependencyView { transitive: false, ..self@ }),
    {
        Dependency { transitive: false, ..self }
    }
}

/// A package id with the package's dependencies.
#[derive(Debug)]
pub struct Summary {
    pub package_id: PackageId,
    pub dependencies: Vec<Dependency>,
}

pub struct SummaryView {
    pub package_id: PackageIdView,
    pub dependencies: Seq<DependencyView>,
}

pub open spec fn seq_view<T: View>(s: Seq<T>) -> Seq<T::V> {
    s.map_values(|x: T| x@)
}

impl View for Summary {
    type V = SummaryView;

    open spec fn view(&self) -> SummaryView {
        SummaryView { package_id: self.package_id@, dependencies: seq_view(self.dependencies@) }
    }
}

impl Summary {
    pub fn new(package_id: PackageId, dependencies: Vec<Dependency>) -> (res: Summary)
        ensures
            res@ == (SummaryView { package_id: package_id@, dependencies: seq_view(dependencies@) }),
    {
        Summary { package_id, dependencies }
    }
}

/// What a manifest describes: the package, its targets, the sources its
/// dependencies come from, its build commands, and the keys it holds that
/// mean nothing to a manifest.
#[derive(Debug)]
pub struct Manifest {
    pub summary: Summary,
    pub targets: Vec<Target>,
    pub target_dir: String,
    pub sources: Vec<SourceId>,
    pub build: Vec<String>,
    pub unused_keys: Vec<String>,
}

pub struct ManifestView {
    pub summary: SummaryView,
    pub targets: Seq<TargetView>,
    pub target_dir: Seq<char>,
    pub sources: Seq<SourceIdView>,
    pub build: Seq<Seq<char>>,
    pub unused_keys: Seq<Seq<char>>,
}

impl View for Manifest {
    type V = ManifestView;

    open spec fn view(&self) -> ManifestView {
        ManifestView {
            summary: self.summary@,
            targets: seq_view(self.targets@),
            target_dir: self.target_dir@,
            sources: seq_view(self.sources@),
            build: self.build.deep_view(),
            unused_keys: self.unused_keys.deep_view(),
        }
    }
}

impl Manifest {
    pub fn new(
        summary: Summary,
        targets: Vec<Target>,
        target_dir: &str,
        sources: Vec<SourceId>,
        build: Vec<String>,
    ) -> (res: Manifest)
        ensures
            res@ == (ManifestView {
                summary: summary@,
                targets: seq_view(targets@),
                target_dir: target_dir@,
                sources: seq_view(sources@),
                build: build.deep_view(),
                unused_keys: Seq::empty(),
            }),
    {
        let unused_keys: Vec<String> = Vec::new();
        assert(unused_keys.deep_view() =~= Seq::<Seq<char>>::empty());
        Manifest { summary, targets, target_dir: String::from_str(target_dir), sources, build, unused_keys }
    }

    /// Records a key of the manifest that means nothing to it.
    pub fn add_unused_key(&mut self, key: String)
        ensures
            final(self)@ == (ManifestView {
                unused_keys: old(self)@.unused_keys.push(key@),
                ..old(self)@
            }),
    {
        self.unused_keys.push(key);
        proof {
            assert(self.unused_keys.deep_view() =~= old(self).unused_keys.deep_view().push(key@));
        }
    }

    pub fn get_targets(&self) -> (res: &Vec<Target>)
        ensures
            seq_view(res@) == seq_view(self.targets@),
    {
        &self.targets
    }
}

} // verus!
