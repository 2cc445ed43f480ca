use toml_manifest::decode::{decode_manifest, unused_keys};
use toml_manifest::model::{Location, ManifestError, SourceId, SourceKind, TargetKind};
use toml_manifest::read::{linecol, parse, parse_error_message, push_decimal};
use toml_manifest::schema::{TomlBuildCommandsList, TomlDependency};
use toml_manifest::{manifest_from_document, to_manifest, Layout, TomlValue};

fn text(s: &str) -> TomlValue {
    TomlValue::Text(s.to_string())
}

fn table(entries: Vec<(&str, TomlValue)>) -> TomlValue {
    TomlValue::Table(entries.into_iter().map(|(k, v)| (k.to_string(), v)).collect())
}

fn package() -> TomlValue {
    table(vec![
        ("name", text("foo")),
        ("version", text("0.1.0")),
        ("authors", TomlValue::Array(vec![text("me")])),
    ])
}

fn source() -> SourceId {
    SourceId::new(SourceKind::Path, Location::Local("/p".to_string()))
}

fn empty_layout() -> Layout {
    Layout { lib: None, bins: vec![], examples: vec![], tests: vec![] }
}

#[test]
fn decimal_text() {
    let mut s = String::from("n=");
    push_decimal(&mut s, 0);
    push_decimal(&mut s, 7);
    push_decimal(&mut s, 1204);
    assert_eq!(s, "n=071204");
}

#[test]
fn line_and_column() {
    let b = b"ab\ncde\n\nf";
    assert_eq!(linecol(b, 0), (0, 0));
    assert_eq!(linecol(b, 2), (0, 2));
    assert_eq!(linecol(b, 3), (1, 0));
    assert_eq!(linecol(b, 5), (1, 2));
    assert_eq!(linecol(b, 8), (3, 0));
    assert_eq!(linecol(b, 100), (3, 1));
}

#[test]
fn parse_error_messages() {
    let b = b"a = 1\nb = \n";
    assert_eq!(
        parse_error_message("Cargo.toml", b, Some((10, 10)), "expected a value"),
        "could not parse input TOML\nCargo.toml:2:5 expected a value\n"
    );
    assert_eq!(
        parse_error_message("Cargo.toml", b, Some((4, 10)), "bad"),
        "could not parse input TOML\nCargo.toml:1:5-2:5 bad\n"
    );
    assert_eq!(parse_error_message("f", b, None, "bad"), "could not parse input TOML\nf bad\n");
}

#[test]
fn parse_gives_a_table() {
    let doc = parse("x = 1\n[t]\ny = [true, 1.5]\n", "Cargo.toml").unwrap();
    match doc {
        TomlValue::Table(es) => {
            assert_eq!(es.len(), 2);
            assert_eq!(es[0].0, "t");
            match &es[0].1 {
                TomlValue::Table(inner) => match &inner[0].1 {
                    TomlValue::Array(items) => {
                        assert!(matches!(items[0], TomlValue::Boolean(true)));
                        match &items[1] {
                            TomlValue::Float(f) => assert_eq!(f, "1.5"),
                            _ => panic!(),
                        }
                    }
                    _ => panic!(),
                },
                _ => panic!(),
            }
            assert!(matches!(es[1].1, TomlValue::Integer(1)));
        }
        _ => panic!(),
    }
}

#[test]
fn parse_error_position_comes_from_toml() {
    match parse("a = 1\nb = \n", "Cargo.toml") {
        Err(ManifestError::Parse(m)) => assert!(m.starts_with("could not parse input TOML\nCargo.toml:2:"), "{}", m),
        _ => panic!(),
    }
}

#[test]
fn decode_reads_alternative_spellings() {
    let doc = table(vec![
        ("package", package()),
        (
            "lib",
            TomlValue::Array(vec![table(vec![
                ("name", text("l")),
                ("crate-type", TomlValue::Array(vec![text("dylib")])),
            ])]),
        ),
        ("dev-dependencies", table(vec![("x", text("1"))])),
    ]);
    let m = decode_manifest(&doc).unwrap();
    let lib = &m.lib.as_ref().unwrap()[0];
    assert_eq!(lib.crate_type, Some(vec!["dylib".to_string()]));
    assert_eq!(m.dev_dependencies.as_ref().unwrap().len(), 1);
    assert!(m.project.is_none());
    assert_eq!(m.package.as_ref().unwrap().authors, vec!["me".to_string()]);
    assert!(unused_keys(&doc).is_empty());
}

#[test]
fn decode_errors() {
    let doc = table(vec![("package", table(vec![("name", TomlValue::Integer(3))]))]);
    let e = decode_manifest(&doc).err().unwrap();
    assert_eq!(e.key, "package.name");
    assert_eq!(e.expected, "string");

    let doc = table(vec![("lib", table(vec![]))]);
    let e = decode_manifest(&doc).err().unwrap();
    assert_eq!((e.key.as_str(), e.expected.as_str()), ("lib", "array"));

    let doc = table(vec![(
        "bin",
        TomlValue::Array(vec![table(vec![("name", text("b")), ("test", text("yes"))])]),
    )]);
    let e = decode_manifest(&doc).err().unwrap();
    assert_eq!((e.key.as_str(), e.expected.as_str()), ("bin.test", "boolean"));

    let doc = table(vec![("dependencies", table(vec![("d", TomlValue::Integer(1))]))]);
    let e = decode_manifest(&doc).err().unwrap();
    assert_eq!((e.key.as_str(), e.expected.as_str()), ("dependencies.d", "string or table"));

    let doc = table(vec![("package", table(vec![("name", text("n")), ("version", text("1.0.0"))]))]);
    let e = decode_manifest(&doc).err().unwrap();
    assert_eq!((e.key.as_str(), e.expected.as_str()), ("package.authors", "array"));

    let doc = TomlValue::Integer(1);
    let e = decode_manifest(&doc).err().unwrap();
    assert_eq!((e.key.as_str(), e.expected.as_str()), ("", "table"));
}

#[test]
fn build_commands() {
    let mut p = package();
    if let TomlValue::Table(es) = &mut p {
        es.push(("build".to_string(), TomlValue::Array(vec![text("make"), text("make install")])));
    }
    let doc = table(vec![("package", p), ("bin", TomlValue::Array(vec![table(vec![("name", text("b"))])]))]);
    let m = decode_manifest(&doc).unwrap();
    match &m.package.as_ref().unwrap().build {
        Some(TomlBuildCommandsList::MultipleBuildCommands(c)) => assert_eq!(c.len(), 2),
        _ => panic!(),
    }
    let (man, _) = manifest_from_document(&doc, &source(), &empty_layout()).unwrap();
    assert_eq!(man.build, vec!["make".to_string(), "make install".to_string()]);
    // a binary without a path and without a lib is looked for in src/
    assert_eq!(man.targets[0].path, "src/b.rs");
}

#[test]
fn single_build_command() {
    let text_ = b"[package]\nname = \"foo\"\nversion = \"0.1.0\"\nauthors = []\nbuild = \"make\"\n[[bin]]\nname = \"b\"\n";
    let (m, _) = to_manifest(text_, &source(), empty_layout()).unwrap();
    assert_eq!(m.build, vec!["make".to_string()]);
}

#[test]
fn invalid_version_requirement() {
    let text_ = b"[package]\nname = \"foo\"\nversion = \"0.1.0\"\nauthors = []\n[dependencies]\nbar = \"not-a-req!\"\n[[bin]]\nname = \"b\"\n";
    let e = to_manifest(text_, &source(), empty_layout()).err().unwrap();
    assert_eq!(
        e.description(),
        "Cargo.toml is not a valid manifest\n\ninvalid version requirement `not-a-req!` for dependency `bar`"
    );
}

#[test]
fn git_urls_are_normalized_and_references_chosen() {
    let text_ = b"[package]\nname = \"foo\"\nversion = \"0.1.0\"\nauthors = []\n[[bin]]\nname = \"b\"\n\
[dependencies]\na = { git = \"HTTPS://Example.ORG\" }\nb = { git = \"file:/srv/repo\", rev = \"abc\", branch = \"dev\" }\n";
    let (m, _) = to_manifest(text_, &source(), empty_layout()).unwrap();
    let deps = &m.summary.dependencies;
    match (&deps[0].source_id.kind, &deps[0].source_id.location) {
        (SourceKind::Git(r), Location::Remote(u)) => {
            assert_eq!(r, "master");
            assert_eq!(u, "https://example.org/");
        }
        _ => panic!(),
    }
    match (&deps[1].source_id.kind, &deps[1].source_id.location) {
        (SourceKind::Git(r), Location::Local(p)) => {
            assert_eq!(r, "dev");
            assert_eq!(p, "/srv/repo");
        }
        _ => panic!(),
    }
    assert_eq!(m.sources.len(), 2);
}

#[test]
fn declared_targets_take_the_layout_paths() {
    let layout = Layout {
        lib: Some("src/lib.rs".to_string()),
        bins: vec!["src/bin/x.rs".to_string(), "src/main.rs".to_string()],
        examples: vec!["examples/e.rs".to_string()],
        tests: vec![],
    };
    let text_ = b"[package]\nname = \"foo\"\nversion = \"0.1.0\"\nauthors = []\n\
[[lib]]\nname = \"mylib\"\n[[bin]]\nname = \"cli\"\nplugin = true\n[[bin]]\nname = \"other\"\npath = \"other.rs\"\n";
    let (m, _) = to_manifest(text_, &source(), layout).unwrap();
    assert_eq!(m.targets[0].name, "mylib");
    assert_eq!(m.targets[0].path, "src/lib.rs");
    let cli: Vec<_> = m.targets.iter().filter(|t| t.name == "cli").collect();
    assert_eq!(cli.len(), 3);
    assert!(cli.iter().all(|t| t.path == "src/main.rs" && !t.profile.plugin));
    let other: Vec<_> = m.targets.iter().filter(|t| t.name == "other").collect();
    assert!(other.iter().all(|t| t.path == "other.rs"));
    // examples inferred from the layout
    let ex: Vec<_> = m.targets.iter().filter(|t| matches!(t.kind, TargetKind::Example)).collect();
    assert_eq!(ex.len(), 1);
    assert_eq!(ex[0].name, "e");
}

#[test]
fn declared_lib_without_layout_lib() {
    let text_ = b"[package]\nname = \"foo\"\nversion = \"0.1.0\"\nauthors = []\n[[lib]]\nname = \"mylib\"\n";
    let (m, _) = to_manifest(text_, &source(), empty_layout()).unwrap();
    assert_eq!(m.targets[0].path, "src/mylib.rs");
}

#[test]
fn dependency_kinds_of_entries() {
    let doc = table(vec![(
        "dependencies",
        table(vec![("a", text("1")), ("b", table(vec![("path", text("p")), ("extra", TomlValue::Boolean(true))]))]),
    )]);
    let m = decode_manifest(&doc).unwrap();
    let deps = m.dependencies.unwrap();
    assert!(matches!(deps[0].1, TomlDependency::SimpleDep(_)));
    assert!(matches!(deps[1].1, TomlDependency::DetailedDep(_)));
    assert_eq!(unused_keys(&doc), vec!["dependencies.b.extra".to_string()]);
}

#[test]
fn parse_one_key() {
    match parse("a = 1", "Cargo.toml").unwrap() {
        TomlValue::Table(es) => {
            assert_eq!(es.len(), 1);
            assert_eq!(es[0].0, "a");
            assert!(matches!(es[0].1, TomlValue::Integer(1)));
        }
        _ => panic!(),
    }
}

#[test]
fn parse_error_is_the_manifest_error() {
    let text = "a = 1\nb = \n";
    let from_parse = match parse(text, "Cargo.toml") {
        Err(ManifestError::Parse(m)) => m,
        _ => panic!(),
    };
    let source = SourceId::new(SourceKind::Path, Location::Local("/p".to_string()));
    let layout = Layout { lib: Some("src/lib.rs".to_string()), bins: vec![], examples: vec![], tests: vec![] };
    match to_manifest(text.as_bytes(), &source, layout) {
        Err(ManifestError::Parse(m)) => assert_eq!(m, from_parse),
        _ => panic!(),
    }
}

#[test]
fn repeated_key_is_a_parse_error() {
    assert!(matches!(parse("a = 1\na = 2\n", "Cargo.toml"), Err(ManifestError::Parse(_))));
}

#[test]
fn dependency_names_follow_the_table_keys() {
    let doc = parse("[dependencies]\nb = \"1\"\na = \"2\"\n[dev-dependencies]\nc = \"3\"\n", "Cargo.toml").unwrap();
    let m = decode_manifest(&doc).unwrap();
    let deps = m.dependencies.unwrap();
    let names: Vec<&str> = deps.iter().map(|(n, _)| n.as_str()).collect();
    assert_eq!(names, vec!["a", "b"]);
    let dev = m.dev_dependencies.unwrap();
    assert_eq!(dev.len(), 1);
    assert_eq!(dev[0].0, "c");
}
