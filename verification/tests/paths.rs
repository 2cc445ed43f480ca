use toml_manifest::paths::{extension, file_name, file_stem, join, normalize_path};

#[test]
fn file_name_of_nested_path() {
    assert_eq!(file_name("root/src/main.rs"), Some("main.rs".to_string()));
    assert_eq!(file_name("root/src/"), None);
    assert_eq!(file_name("a/.."), None);
}

#[test]
fn stem_and_extension() {
    assert_eq!(file_stem("examples/foo.rs"), Some("foo".to_string()));
    assert_eq!(extension("examples/foo.rs"), Some("rs".to_string()));
    assert_eq!(file_stem("tests/.hidden"), Some(".hidden".to_string()));
    assert_eq!(extension("tests/.hidden"), None);
    assert_eq!(file_stem("a/archive.tar.gz"), Some("archive.tar".to_string()));
}

#[test]
fn join_paths() {
    assert_eq!(join("root", "src/lib.rs"), "root/src/lib.rs");
    assert_eq!(join("root/", "src/lib.rs"), "root/src/lib.rs");
    assert_eq!(join(".", "src/lib.rs"), "src/lib.rs");
    assert_eq!(join("", "src/lib.rs"), "src/lib.rs");
}

#[test]
fn stem_dot_extension_is_the_file_name() {
    for p in ["a/b/c.tar.gz", "x.rs", "dir/.profile.d", "noext"] {
        if let Some(ext) = extension(p) {
            let stem = file_stem(p).unwrap();
            assert_eq!(file_name(p).unwrap(), format!("{}.{}", stem, ext));
        }
    }
    assert_eq!(extension("noext"), None);
}

#[test]
fn normal_forms() {
    assert_eq!(normalize_path("a/./b//c/"), "a/b/c");
    assert_eq!(normalize_path("a/../b"), "b");
    assert_eq!(normalize_path("../a/../.."), "../..");
    assert_eq!(normalize_path("/../a"), "/a");
    assert_eq!(normalize_path("/"), "/");
    assert_eq!(normalize_path(""), ".");
    assert_eq!(normalize_path("./"), ".");
    assert_eq!(normalize_path("a/.."), ".");
    assert_eq!(normalize_path("//x/"), "/x");
}

#[test]
fn join_takes_the_normal_form() {
    assert_eq!(join("./", "src/main.rs"), "src/main.rs");
    assert_eq!(join("root/./", "src/../lib.rs"), "root/lib.rs");
    assert_eq!(join("/x", "/abs/./y"), "/abs/y");
    assert_eq!(join("root//", ""), "root");
    assert_eq!(join("..", "a"), "../a");
}
