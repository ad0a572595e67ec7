use autocoder::path::{file_name_of, join_path, parent_of, stem_of, strip_prefix, trim_tail};
use std::path::Path;

const PATHS: [&str; 22] = [
    "/", "//", "/.", "/a", "/a/", "/a/.", "/a/./b", "/a//b", "/a/b/c/", "/a/..", "/..", "/ab", "/a.b",
    "/./a/b", "a", "a/", "a/b", "./a", ".", "..", "", "a/./.",
];

#[test]
fn parts_are_told_as_std_tells_them() {
    for p in PATHS {
        let path = Path::new(p);
        assert_eq!(
            file_name_of(p).as_deref(),
            path.file_name().map(|n| n.to_str().unwrap()),
            "file name of {p:?}"
        );
        assert_eq!(
            parent_of(p).as_deref(),
            path.parent().map(|n| n.to_str().unwrap()),
            "parent of {p:?}"
        );
        for q in PATHS {
            assert_eq!(join_path(p, q), path.join(q).to_str().unwrap(), "{p:?} and {q:?}");
        }
    }
}

#[test]
fn what_lies_beneath_is_told_as_std_tells_it() {
    for p in PATHS {
        if !p.starts_with('/') {
            continue;
        }
        for q in PATHS {
            assert_eq!(
                strip_prefix(p, q).as_deref(),
                Path::new(p).strip_prefix(q).ok().map(|n| n.to_str().unwrap()),
                "{p:?} beneath {q:?}"
            );
        }
    }
}

#[test]
fn stems_are_told_as_std_tells_them() {
    for name in ["a.json", ".json", "a.b.c", "a", "a.", ".a.b"] {
        assert_eq!(
            stem_of(name),
            Path::new(name).file_stem().unwrap().to_str().unwrap(),
            "{name}"
        );
    }
    assert_eq!(trim_tail("a/./"), "a");
}
