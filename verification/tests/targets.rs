use toml_manifest::layout::{
    inferred_bin_targets, inferred_example_targets, inferred_lib_target, inferred_test_targets, project_layout,
    Layout, ProjectListing,
};
use toml_manifest::model::{LibKind, Metadata, Profile, TargetKind};
use toml_manifest::normalize::normalize;
use toml_manifest::schema::TomlTarget;

fn target(name: &str) -> TomlTarget {
    TomlTarget { name: name.to_string(), crate_type: None, path: None, test: None, plugin: None }
}

fn md() -> Metadata {
    Metadata { metadata: "m".to_string(), extra_filename: "-m".to_string() }
}

#[test]
fn default_paths_with_a_library() {
    let libs = vec![target("foo")];
    let bins = vec![target("tool")];
    let examples = vec![target("demo")];
    let tests = vec![target("test"), target("smoke")];
    let ts = normalize(Some(&libs), Some(&bins), Some(&examples), Some(&tests), &md());
    // library: dev, release, test, test-dependency; binary: dev, release, test
    assert_eq!(ts.len(), 4 + 3 + 1 + 2);
    assert_eq!(ts[0].path, "src/foo.rs");
    assert_eq!(ts[4].path, "src/bin/tool.rs");
    assert_eq!(ts[7].path, "examples/demo.rs");
    assert_eq!(ts[7].profile, Profile::default_test().test(false));
    assert!(matches!(ts[7].kind, TargetKind::Example));
    assert_eq!(ts[8].path, "src/test.rs");
    assert_eq!(ts[8].profile, Profile::default_test());
    assert_eq!(ts[9].path, "tests/smoke.rs");
    assert!(ts[4].metadata.is_none());
    assert!(ts[0].metadata.is_some());
}

#[test]
fn binaries_without_a_library() {
    let bins = vec![target("tool")];
    let ts = normalize(None, Some(&bins), None, None, &md());
    assert_eq!(ts.len(), 3);
    assert_eq!(ts[0].path, "src/tool.rs");
}

#[test]
fn library_alone_has_no_test_dependency_profile() {
    let libs = vec![target("foo"), target("ignored")];
    let ts = normalize(Some(&libs), None, None, None, &md());
    assert_eq!(ts.len(), 3);
    assert!(ts.iter().all(|t| t.name == "foo"));
}

#[test]
fn plugin_and_crate_types() {
    let mut plugin = target("plug");
    plugin.plugin = Some(true);
    plugin.test = Some(false);
    let ts = normalize(Some(&vec![plugin]), None, None, None, &md());
    assert_eq!(ts.len(), 2);
    assert!(ts.iter().all(|t| t.profile.plugin));
    match &ts[0].kind {
        TargetKind::Lib(k) => assert_eq!(k, &vec![LibKind::Dylib]),
        _ => panic!(),
    }
    let mut typed = target("typed");
    typed.crate_type = Some(vec!["rlib".to_string(), "staticlib".to_string()]);
    let ts = normalize(Some(&vec![typed]), None, None, None, &md());
    match &ts[0].kind {
        TargetKind::Lib(k) => assert_eq!(k, &vec![LibKind::Rlib, LibKind::StaticLib]),
        _ => panic!(),
    }
    let mut unknown = target("unknown");
    unknown.crate_type = Some(vec!["rlib".to_string(), "weird".to_string()]);
    let ts = normalize(Some(&vec![unknown]), None, None, None, &md());
    match &ts[0].kind {
        TargetKind::Lib(k) => assert_eq!(k, &vec![LibKind::Lib]),
        _ => panic!(),
    }
}

#[test]
fn lib_kind_names() {
    assert_eq!(LibKind::from_str("dylib"), Some(LibKind::Dylib));
    assert_eq!(LibKind::from_str("lib"), Some(LibKind::Lib));
    assert_eq!(LibKind::from_str("so"), None);
    assert_eq!(LibKind::from_strs(&vec!["lib".to_string(), "rlib".to_string()]), Some(vec![LibKind::Lib, LibKind::Rlib]));
    assert_eq!(LibKind::from_strs(&vec!["lib".to_string(), "x".to_string()]), None);
}

fn listing() -> ProjectListing {
    ProjectListing {
        has_lib_rs: true,
        has_main_rs: true,
        bin_dir: vec!["pkg/src/bin/a.rs".to_string(), "pkg/src/bin/notes.txt".to_string(), "pkg/src/bin/b.rs".to_string()],
        examples_dir: vec!["pkg/examples/ex.rs".to_string()],
        tests_dir: vec!["pkg/tests/t.rs".to_string(), "pkg/tests/.hidden".to_string()],
        has_test_rs: true,
    }
}

#[test]
fn layout_from_listing() {
    let l = project_layout("pkg", &listing());
    assert_eq!(l.lib, Some("pkg/src/lib.rs".to_string()));
    assert_eq!(l.bins, vec!["pkg/src/main.rs", "pkg/src/bin/a.rs", "pkg/src/bin/b.rs"]);
    assert_eq!(l.examples, vec!["pkg/examples/ex.rs"]);
    assert_eq!(l.tests, vec!["pkg/tests/t.rs", "pkg/src/test.rs"]);
    assert_eq!(l.main(), Some(&"pkg/src/main.rs".to_string()));
}

#[test]
fn layout_main_is_first_main_rs() {
    let l = Layout {
        lib: None,
        bins: vec!["x/a.rs".to_string(), "x/main.rs".to_string(), "y/main.rs".to_string()],
        examples: vec![],
        tests: vec![],
    };
    assert_eq!(l.main(), Some(&"x/main.rs".to_string()));
    let none = Layout { lib: None, bins: vec!["x/a.rs".to_string()], examples: vec![], tests: vec![] };
    assert_eq!(none.main(), None);
}

#[test]
fn inferred_entries() {
    let l = Layout {
        lib: Some("src/lib.rs".to_string()),
        bins: vec!["src/main.rs".to_string(), "src/bin/other.rs".to_string(), "../..".to_string()],
        examples: vec!["examples/ex.rs".to_string()],
        tests: vec!["tests/it.rs".to_string()],
    };
    let lib = inferred_lib_target("pkg", &l).unwrap();
    assert_eq!(lib.len(), 1);
    assert_eq!(lib[0].name, "pkg");
    assert_eq!(lib[0].path, Some("src/lib.rs".to_string()));
    let bins = inferred_bin_targets("pkg", &l).unwrap();
    assert_eq!(bins.len(), 2);
    assert_eq!(bins[0].name, "pkg");
    assert_eq!(bins[1].name, "other");
    assert_eq!(bins[1].path, Some("src/bin/other.rs".to_string()));
    let ex = inferred_example_targets(&l).unwrap();
    assert_eq!(ex[0].name, "ex");
    let ts = inferred_test_targets(&l).unwrap();
    assert_eq!(ts[0].name, "it");
    let no_lib = Layout { lib: None, bins: vec![], examples: vec![], tests: vec![] };
    assert!(inferred_lib_target("pkg", &no_lib).is_none());
}

#[test]
fn layout_paths_are_taken_in_normal_form() {
    let l = project_layout("./", &ProjectListing {
        has_lib_rs: true,
        has_main_rs: true,
        bin_dir: vec!["./src/bin/./a.rs".to_string(), "./src/bin/b.rs/".to_string()],
        examples_dir: vec![],
        tests_dir: vec![],
        has_test_rs: false,
    });
    assert_eq!(l.lib, Some("src/lib.rs".to_string()));
    assert_eq!(l.bins, vec!["src/main.rs", "src/bin/a.rs", "src/bin/b.rs"]);
    let bins = inferred_bin_targets("pkg", &l).unwrap();
    assert_eq!(bins[0].name, "pkg");
    assert_eq!(bins[0].path, Some("src/main.rs".to_string()));
    let raw = Layout {
        lib: Some("./src//lib.rs".to_string()),
        bins: vec!["./src/main.rs".to_string(), "src/bin/x/../y.rs".to_string(), "src/bin/..".to_string()],
        examples: vec!["examples/./e.rs".to_string()],
        tests: vec![],
    };
    assert_eq!(raw.main(), Some(&"./src/main.rs".to_string()));
    let lib = inferred_lib_target("pkg", &raw).unwrap();
    assert_eq!(lib[0].path, Some("src/lib.rs".to_string()));
    let bins = inferred_bin_targets("pkg", &raw).unwrap();
    assert_eq!(bins.len(), 3);
    assert_eq!(bins[0].name, "pkg");
    assert_eq!(bins[0].path, Some("src/main.rs".to_string()));
    assert_eq!(bins[1].name, "y");
    assert_eq!(bins[1].path, Some("src/bin/y.rs".to_string()));
    assert_eq!(bins[2].name, "src");
    assert_eq!(bins[2].path, Some("src".to_string()));
    let ex = inferred_example_targets(&raw).unwrap();
    assert_eq!(ex[0].path, Some("examples/e.rs".to_string()));
}

#[test]
fn target_paths_are_taken_in_normal_form() {
    let mut lib = target("foo");
    lib.path = Some("src/./foo.rs".to_string());
    let mut bin = target("tool");
    bin.path = Some("src//bin/../tool.rs/".to_string());
    let ts = normalize(Some(&vec![lib]), Some(&vec![bin]), None, None, &md());
    assert_eq!(ts[0].path, "src/foo.rs");
    assert_eq!(ts[4].path, "src/tool.rs");
}
