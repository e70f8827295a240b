use grazel::content_type;
use grazel::paths::{data_layout, equal_paths, join_path, path_extension, path_file_name, split_segments};
use std::path::Path;

const PATHS: [&str; 44] = [
    "", "/", "//", ".", "./", "..", "../", "./.", "/.", "/..", "a", "a/", "a//", "a/.", "a/..", "a/./", "a/../",
    "a/b", "a//b", "a/./b", "a/../b", "/a/b", "x.html", "x.html/", "x.html/.", "x.html/.//", "x.html/..",
    ".html", "a/.html", "..html", "...", "x.", "x..", "x.tar.gz", "a.b/c", "a.b/.c", "a.b/c.d", "./x.js", "../x.js",
    "x.JS", "é.css", "x.é", "a b.png", "x.html/y",
];

#[test]
fn joining_agrees_with_the_standard_library() {
    for base in PATHS {
        for part in PATHS {
            let expected = Path::new(base).join(part);
            assert_eq!(join_path(base, part), expected.to_str().unwrap(), "{base:?} {part:?}");
        }
    }
}

#[test]
fn names_and_extensions_agree_with_the_standard_library() {
    for path in PATHS {
        let std_path = Path::new(path);
        let name = std_path.file_name().map(|n| n.to_str().unwrap().to_string());
        let extension = std_path.extension().map(|e| e.to_str().unwrap().to_string());
        assert_eq!(path_file_name(path), name, "{path:?}");
        assert_eq!(path_extension(path), extension, "{path:?}");
    }
}

#[test]
fn sameness_agrees_with_the_standard_library() {
    for a in PATHS {
        for b in PATHS {
            assert_eq!(equal_paths(a, b), Path::new(a) == Path::new(b), "{a:?} {b:?}");
        }
    }
    assert!(equal_paths("d/", "d"));
    assert!(!equal_paths("./d", "d"));
}

#[test]
fn joining_keeps_paths_the_same() {
    for a in PATHS {
        for b in PATHS {
            if equal_paths(a, b) {
                for part in PATHS {
                    assert!(equal_paths(&join_path(a, part), &join_path(b, part)), "{a:?} {b:?} {part:?}");
                }
            }
        }
    }
}

#[test]
fn segments_stand_between_the_separators() {
    for path in PATHS {
        let expected: Vec<String> = path.split('/').map(|s| s.to_string()).collect();
        assert_eq!(split_segments(path), expected, "{path:?}");
    }
}

#[test]
fn the_layout_has_three_slots() {
    assert_eq!(data_layout("grazel-data"), vec!["grazel-data/sys", "grazel-data/files", "grazel-data/config"]);
    assert_eq!(data_layout("/var/g/"), vec!["/var/g/sys", "/var/g/files", "/var/g/config"]);
    assert_eq!(data_layout(""), vec!["sys", "files", "config"]);
}

#[test]
fn content_type_map() {
    assert_eq!(content_type("x.html"), "text/html; charset=utf-8");
    assert_eq!(content_type("x.json"), "application/json");
    assert_eq!(content_type("x.wasm"), "application/wasm");
    assert_eq!(content_type("x.bin"), "application/octet-stream");
}

#[test]
fn every_known_extension_has_its_type() {
    for (extension, expected) in [
        ("html", "text/html; charset=utf-8"),
        ("htm", "text/html; charset=utf-8"),
        ("js", "text/javascript; charset=utf-8"),
        ("mjs", "text/javascript; charset=utf-8"),
        ("css", "text/css; charset=utf-8"),
        ("json", "application/json"),
        ("svg", "image/svg+xml"),
        ("png", "image/png"),
        ("ico", "image/x-icon"),
        ("wasm", "application/wasm"),
        ("map", "application/json"),
        ("HTML", "application/octet-stream"),
        ("", "application/octet-stream"),
    ] {
        assert_eq!(content_type(&format!("a.b/x.{extension}")), expected);
    }
    for path in ["", "x", ".html", "a.html/..", "html"] {
        assert_eq!(content_type(path), "application/octet-stream");
    }
}
