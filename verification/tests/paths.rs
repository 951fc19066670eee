use ndk_build::path::{extension, file_name, join_path, to_unix_separators, with_extension};
use std::path::Path;

fn std_join(a: &str, b: &str) -> String {
    Path::new(a).join(b).to_str().unwrap().to_string()
}

#[test]
fn join_path_matches_std() {
    let cases = [
        ("build", "app.apk"),
        ("build/", "app.apk"),
        ("", "app.apk"),
        ("build", "/abs/app.apk"),
        ("build", ""),
        ("a/b", "c/d"),
        ("/", "x"),
    ];
    for (a, b) in cases {
        assert_eq!(join_path(a, b), std_join(a, b), "join {:?} {:?}", a, b);
    }
}

#[test]
fn join_path_exact_values() {
    assert_eq!(join_path("build", "app.apk"), "build/app.apk");
    assert_eq!(join_path("build/", "app.apk"), "build/app.apk");
    assert_eq!(join_path("build", "/tmp/x"), "/tmp/x");
    assert_eq!(join_path("", "x"), "x");
    assert_eq!(join_path("a", ""), "a/");
}

#[test]
fn file_name_matches_std() {
    let cases = [
        "libfoo.so",
        "dir/libfoo.so",
        "dir/libfoo.so/",
        "dir/libfoo.so/.",
        "dir/./libfoo.so",
        "/",
        "",
        ".",
        "..",
        "a/..",
        "a//b",
        "...",
        ".hidden",
        "./a",
    ];
    for p in cases {
        let expected = Path::new(p).file_name().map(|n| n.to_str().unwrap().to_string());
        assert_eq!(file_name(p), expected, "file_name {:?}", p);
    }
}

#[test]
fn extension_matches_std() {
    let cases = [
        "libfoo.so",
        "a/b.tar.gz",
        ".hidden",
        "noext",
        "a.",
        "dir.d/file",
        "x/y.SO",
        "..",
        "a/..",
        "a/b.dex/",
    ];
    for p in cases {
        let expected = Path::new(p).extension().map(|n| n.to_str().unwrap().to_string());
        assert_eq!(extension(p), expected, "extension {:?}", p);
    }
}

#[test]
fn with_extension_matches_std() {
    let cases = [
        "build/lib/arm64-v8a/libmain.so",
        "libmain",
        ".hidden",
        "a/b.tar.gz",
        "a/b.so/",
        "/",
        "a/..",
        "",
        "x.",
    ];
    for p in cases {
        let expected = Path::new(p).with_extension("dwarf").to_str().unwrap().to_string();
        assert_eq!(with_extension(p, "dwarf"), expected, "with_extension {:?}", p);
        let expected = Path::new(p).with_extension("").to_str().unwrap().to_string();
        assert_eq!(with_extension(p, ""), expected, "with_extension {:?} empty", p);
    }
}

#[test]
fn unix_separators_replace_backslashes() {
    assert_eq!(to_unix_separators("lib\\arm64-v8a\\libmain.so"), "lib/arm64-v8a/libmain.so");
    assert_eq!(to_unix_separators("lib/x86/a.so"), "lib/x86/a.so");
    assert_eq!(to_unix_separators(""), "");
}
