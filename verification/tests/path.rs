use genuki::path::{canonicalize, is_absolute, parent};
use std::path::{Component, Path, PathBuf};

/// The same walk, done with the standard library's paths.
fn by_std(base: &str, candidate: &str) -> String {
    let candidate = Path::new(candidate);
    if candidate.is_absolute() {
        return candidate.to_string_lossy().to_string();
    }
    let mut result = PathBuf::from(base);
    for c in candidate.components() {
        match c {
            Component::ParentDir => {
                result.pop();
            }
            Component::Normal(name) => result.push(name),
            _ => {}
        }
    }
    result.to_string_lossy().to_string()
}

#[test]
fn absolute_candidate_comes_back_unchanged() {
    assert_eq!(canonicalize("/etc/genuki", "/boot/vmlinuz-linux"), "/boot/vmlinuz-linux");
    assert_eq!(canonicalize("", "/a/../b/./c/"), "/a/../b/./c/");
    assert_eq!(canonicalize("/x", "/"), "/");
}

#[test]
fn relative_candidate_is_walked_from_the_base() {
    assert_eq!(canonicalize("/etc/genuki", "splash.bmp"), "/etc/genuki/splash.bmp");
    assert_eq!(canonicalize("/etc/genuki", "../x"), "/etc/x");
    assert_eq!(canonicalize("/etc/genuki", "a/./b//c/"), "/etc/genuki/a/b/c");
    assert_eq!(canonicalize("/etc/genuki", "./a"), "/etc/genuki/a");
    assert_eq!(canonicalize("/etc/genuki", ""), "/etc/genuki");
    assert_eq!(canonicalize("/", "a"), "/a");
}

#[test]
fn going_up_at_the_root_stays_at_the_root() {
    assert_eq!(canonicalize("/", ".."), "/");
    assert_eq!(canonicalize("/a", "../../../b"), "/b");
}

#[test]
fn parent_step_composes() {
    let base = "/etc/genuki";
    let up = parent(base).unwrap();
    assert_eq!(up, "/etc");
    assert_eq!(canonicalize(base, "../x"), canonicalize(&up, "x"));
}

#[test]
fn parent_of_root_and_of_nothing() {
    assert_eq!(parent("/"), None);
    assert_eq!(parent(""), None);
    assert_eq!(parent("/a"), Some("/".to_string()));
    assert_eq!(parent("a"), Some("".to_string()));
    assert_eq!(parent("/a/b/"), Some("/a".to_string()));
    assert_eq!(parent("/a//b/./"), Some("/a".to_string()));
}

#[test]
fn absolute_means_starting_at_the_root() {
    assert!(is_absolute("/"));
    assert!(is_absolute("/a/b"));
    assert!(!is_absolute(""));
    assert!(!is_absolute("a/b"));
    assert!(!is_absolute("./a"));
}

#[test]
fn agrees_with_the_standard_library() {
    let bases = ["/", "/a", "/a/b", "/a/b/", "/a//b", "/a/./b", "/a/b/.", "//", "/..", "/a/.."];
    let candidates = [
        "", "x", "x/y", "..", "../x", "../../x", "./x", "x/./y", "x//y", "x/", "x/..", "../..",
        ".", "./", "...", "a.b", "/abs", "/abs/../y", "é/ü", "..x", "x..",
    ];
    for base in bases.iter() {
        for candidate in candidates.iter() {
            assert_eq!(
                canonicalize(base, candidate),
                by_std(base, candidate),
                "base {:?}, candidate {:?}",
                base,
                candidate
            );
        }
    }
}

#[test]
fn parent_agrees_with_the_standard_library() {
    let paths = [
        "", "/", "//", "/a", "/a/", "/a/b", "/a//b", "/a/b/.", "/a/./", "/.", "/..", "a", "a/b",
        "a/", ".", "..", "./a", "../a", "a/.", "a/..", "/a/b/../c",
    ];
    for p in paths.iter() {
        let expected = Path::new(p).parent().map(|q| q.to_string_lossy().to_string());
        assert_eq!(parent(p), expected, "path {:?}", p);
    }
}
