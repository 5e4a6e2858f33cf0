use ewe::paths::{final_component, is_safe_name, last_segment};
use std::path::{Component, Path};

#[test]
fn path_traversal_is_refused() {
    assert!(!is_safe_name("../../etc/passwd"));
    assert!(is_safe_name("a/b/c.txt"));
}

#[test]
fn names_that_stay_below_the_root_are_safe() {
    assert!(is_safe_name(""));
    assert!(is_safe_name("a"));
    assert!(is_safe_name("a/../b"));
    assert!(is_safe_name("a/b/../../c"));
    assert!(is_safe_name("./a"));
    assert!(is_safe_name("a//b"));
    assert!(is_safe_name("a/./b/"));
    assert!(is_safe_name("..."));
    assert!(is_safe_name("a/.."));
}

#[test]
fn names_that_leave_the_root_are_not_safe() {
    assert!(!is_safe_name(".."));
    assert!(!is_safe_name("a/../.."));
    assert!(!is_safe_name("./.."));
    assert!(!is_safe_name("/etc/passwd"));
    assert!(!is_safe_name("/"));
    assert!(!is_safe_name("a\0b"));
    assert!(!is_safe_name("a/b/../../../c"));
}

fn std_is_safe(name: &str) -> bool {
    if name.contains('\0') {
        return false;
    }
    let mut depth = 0usize;
    for component in Path::new(name).components() {
        match component {
            Component::Prefix(_) | Component::RootDir => return false,
            Component::ParentDir => {
                if depth == 0 {
                    return false;
                }
                depth -= 1;
            }
            Component::Normal(_) => depth += 1,
            Component::CurDir => {}
        }
    }
    true
}

const SAMPLES: [&str; 32] = [
    "", ".", "..", "/", "//", "a", "a/", "a/.", "a/..", "a/b", "/a/b", "./a", "../a", "a/./b",
    "a//b", "a/b/..", "a/b/../..", "a/b/../../..", "...", ".a", "a.", "foo.txt/.//", "/usr/bin/",
    "tmp/foo.txt", "foo.txt/..", "a/../b/../c", "./.", "././a", "a/.b", "a/..b", "..a/b", "a/b/.",
];

#[test]
fn safety_agrees_with_the_components_of_the_standard_library() {
    for s in SAMPLES {
        assert_eq!(is_safe_name(s), std_is_safe(s), "{:?}", s);
    }
}

#[test]
fn the_final_component_agrees_with_the_standard_library() {
    for s in SAMPLES {
        let expected = Path::new(s).file_name().and_then(|n| n.to_str()).map(String::from);
        assert_eq!(final_component(s), expected, "{:?}", s);
    }
}

#[test]
fn final_components() {
    assert_eq!(final_component("/usr/bin/"), Some("bin".to_string()));
    assert_eq!(final_component("tmp/foo.txt"), Some("foo.txt".to_string()));
    assert_eq!(final_component("foo.txt/."), Some("foo.txt".to_string()));
    assert_eq!(final_component("foo.txt/.."), None);
    assert_eq!(final_component("/"), None);
    assert_eq!(final_component(""), None);
}

#[test]
fn last_segments() {
    assert_eq!(last_segment("/foo/bar.tar.gz"), Some("bar.tar.gz".to_string()));
    assert_eq!(last_segment("/"), Some(String::new()));
    assert_eq!(last_segment("/foo/"), Some(String::new()));
    assert_eq!(last_segment("/foo"), Some("foo".to_string()));
    assert_eq!(last_segment("text/plain,Hello"), None);
    assert_eq!(last_segment(""), None);
}
