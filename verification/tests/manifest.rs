use toml_manifest::model::{
    Location, ManifestError, Profile, ProfileEnv, SourceId, SourceKind, TargetKind,
};
use toml_manifest::{to_manifest, Layout};

fn local_source() -> SourceId {
    SourceId::new(SourceKind::Path, Location::Local("/work/pkg".to_string()))
}

fn layout_with(lib: bool, main: bool) -> Layout {
    Layout {
        lib: if lib { Some("src/lib.rs".to_string()) } else { None },
        bins: if main { vec!["src/main.rs".to_string()] } else { vec![] },
        examples: vec![],
        tests: vec![],
    }
}

#[test]
fn simple_library_manifest() {
    let text = b"[package]\nname = \"foo\"\nversion = \"0.1.0\"\nauthors = [\"a@b.c\"]\n";
    let (m, paths) = to_manifest(text, &local_source(), layout_with(true, false)).unwrap();
    assert!(paths.is_empty());
    assert_eq!(m.summary.package_id.name, "foo");
    assert_eq!(m.summary.package_id.version, "0.1.0");
    assert_eq!(m.target_dir, "target");
    // dev, release, test, and test-dependency: the inferred binaries are an
    // empty list, which still counts as binaries being present
    assert_eq!(m.targets.len(), 4);
    for t in &m.targets {
        assert_eq!(t.name, "foo");
        assert_eq!(t.path, "src/lib.rs");
        match &t.kind {
            TargetKind::Lib(kinds) => assert_eq!(kinds.len(), 1),
            _ => panic!("expected a library target"),
        }
        let md = t.metadata.as_ref().unwrap();
        assert_eq!(md.metadata, "foo-0.1.0");
        assert_eq!(md.extra_filename, "-foo-0.1.0");
    }
    assert_eq!(m.targets[0].profile, Profile::default_dev());
    assert_eq!(m.targets[1].profile, Profile::default_release());
    assert_eq!(m.targets[2].profile, Profile::default_test());
    assert_eq!(m.targets[3].profile, Profile::default_test().test(false));
    assert!(m.unused_keys.is_empty());
}

#[test]
fn library_and_binary() {
    let text = b"[project]\nname = \"foo\"\nversion = \"1.2.3\"\nauthors = []\n";
    let (m, _) = to_manifest(text, &local_source(), layout_with(true, true)).unwrap();
    // the library also gets the test-dependency profile: 4, then 3 for the binary
    assert_eq!(m.targets.len(), 7);
    let test_dep = Profile::default_test().test(false);
    assert_eq!(m.targets[3].profile, test_dep);
    assert!(matches!(m.targets[4].kind, TargetKind::Bin));
    // src/main.rs is named after the package
    assert_eq!(m.targets[4].name, "foo");
    assert_eq!(m.targets[4].path, "src/main.rs");
}

#[test]
fn not_utf8() {
    let text = [0xffu8, 0xfe, 0x00];
    let r = to_manifest(&text, &local_source(), layout_with(true, false));
    assert!(matches!(r, Err(ManifestError::NotUtf8)));
    assert_eq!(r.err().unwrap().description(), "Cargo.toml is not valid UTF-8");
}

#[test]
fn not_toml() {
    let text = b"[package\nname = 1\n";
    match to_manifest(text, &local_source(), layout_with(true, false)) {
        Err(ManifestError::Parse(msg)) => {
            assert!(msg.starts_with("could not parse input TOML\nCargo.toml:1:"), "{}", msg);
            assert!(msg.ends_with("\n"));
        }
        other => panic!("unexpected {:?}", other.is_ok()),
    }
}

#[test]
fn no_project_section() {
    let text = b"[dependencies]\nbar = \"1.0\"\n";
    let e = to_manifest(text, &local_source(), layout_with(true, false)).err().unwrap();
    assert_eq!(
        e.description(),
        "Cargo.toml is not a valid manifest\n\nNo `package` or `project` section found."
    );
}

#[test]
fn missing_name_is_a_decode_error() {
    let text = b"[package]\nversion = \"0.1.0\"\nauthors = []\n";
    let e = to_manifest(text, &local_source(), layout_with(true, false)).err().unwrap();
    assert_eq!(
        e.description(),
        "Cargo.toml is not a valid manifest\n\nexpected a value of type `string` for the key `package.name`"
    );
}

#[test]
fn no_targets() {
    let text = b"[package]\nname = \"foo\"\nversion = \"0.1.0\"\nauthors = []\n";
    let e = to_manifest(text, &local_source(), layout_with(false, false)).err().unwrap();
    assert!(matches!(e, ManifestError::NoTargets));
    assert_eq!(e.description(), "either a [[lib]] or [[bin]] section must be present");
}

#[test]
fn dependencies_of_every_kind() {
    let text = b"[package]\nname = \"foo\"\nversion = \"0.1.0\"\nauthors = []\n\
[dependencies]\nbar = \"1.0\"\nbaz = { path = \"../baz\" }\nqux = { git = \"https://example.org/qux\", tag = \"v1\", version = \">= 0.2\" }\n\
[dev-dependencies]\nquux = \"*\"\n";
    let (m, paths) = to_manifest(text, &local_source(), layout_with(true, false)).unwrap();
    assert_eq!(paths, vec!["../baz".to_string()]);
    let deps = &m.summary.dependencies;
    assert_eq!(deps.len(), 4);
    // toml keeps table entries sorted by key
    assert_eq!(deps[0].name, "bar");
    assert_eq!(deps[0].req, "1.0");
    assert!(matches!(deps[0].source_id.kind, SourceKind::Registry));
    assert!(deps[0].transitive);
    assert_eq!(deps[1].name, "baz");
    assert_eq!(deps[1].req, "*");
    assert!(matches!(deps[1].source_id.kind, SourceKind::Path));
    assert_eq!(deps[2].name, "qux");
    assert_eq!(deps[2].req, ">= 0.2");
    match &deps[2].source_id.kind {
        SourceKind::Git(r) => assert_eq!(r, "v1"),
        _ => panic!("expected a git source"),
    }
    match &deps[2].source_id.location {
        Location::Remote(u) => assert_eq!(u, "https://example.org/qux"),
        _ => panic!("expected a remote location"),
    }
    assert_eq!(m.sources.len(), 1);
    assert_eq!(deps[3].name, "quux");
    assert!(!deps[3].transitive);
}

#[test]
fn unused_keys_are_reported() {
    let text = b"[package]\nname = \"foo\"\nversion = \"0.1.0\"\nauthors = []\nfoo = 1\n\
[[bin]]\nname = \"x\"\nbar = { a = 1, b = [2, 3] }\n[other]\nz = true\n";
    let (m, _) = to_manifest(text, &local_source(), layout_with(false, true)).unwrap();
    assert_eq!(
        m.unused_keys,
        vec![
            "bin.bar.a".to_string(),
            "bin.bar.b".to_string(),
            "bin.bar.b".to_string(),
            "other.z".to_string(),
            "package.foo".to_string(),
        ]
    );
}

#[test]
fn bad_version() {
    let text = b"[package]\nname = \"foo\"\nversion = \"1.0\"\nauthors = []\n";
    let e = to_manifest(text, &local_source(), layout_with(true, false)).err().unwrap();
    assert_eq!(
        e.description(),
        "Cargo.toml is not a valid manifest\n\ninvalid version `1.0`"
    );
}

#[test]
fn bad_git_url() {
    let text = b"[package]\nname = \"foo\"\nversion = \"1.0.0\"\nauthors = []\n[dependencies]\nbar = { git = \"not a url\" }\n";
    let e = to_manifest(text, &local_source(), layout_with(true, false)).err().unwrap();
    assert_eq!(
        e.description(),
        "Cargo.toml is not a valid manifest\n\ninvalid url `not a url`"
    );
}

#[test]
fn profiles_are_plain_values() {
    let p = Profile::default_release();
    assert_eq!(p.env, ProfileEnv::Release);
    assert_eq!(p.opt_level, 3);
    assert!(!p.debug);
}
