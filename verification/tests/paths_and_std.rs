use dotfile_sync::path::{file_name, has_root, is_within, join, parent, strip_prefix};
use std::path::Path;

/// Paths in which no separator stands at the end or beside another, and no
/// part is a single dot.
fn tidy_paths() -> Vec<String> {
    let parts = ["a", "b.txt", ".bashrc", "..", "x y", "ab"];
    let mut paths: Vec<String> = vec!["/".to_string(), "".to_string()];
    for root in ["", "/"] {
        for first in parts {
            paths.push(format!("{}{}", root, first));
            for second in parts {
                paths.push(format!("{}{}/{}", root, first, second));
                for third in parts {
                    paths.push(format!("{}{}/{}/{}", root, first, second, third));
                }
            }
        }
    }
    paths
}

fn any_paths() -> Vec<String> {
    let mut paths = tidy_paths();
    for odd in ["a/", "a//b", "//", "/a/./b", "./a", "a/.", ".", "a/b/", "/a//"] {
        paths.push(odd.to_string());
    }
    paths
}

#[test]
fn join_is_the_join_of_std_on_every_path() {
    for base in any_paths() {
        for rel in any_paths() {
            let expected = Path::new(&base).join(&rel);
            assert_eq!(join(&base, &rel), expected.to_str().unwrap(), "{:?} {:?}", base, rel);
        }
    }
}

#[test]
fn has_root_is_the_has_root_of_std_on_every_path() {
    for path in any_paths() {
        assert_eq!(has_root(&path), Path::new(&path).has_root(), "{:?}", path);
    }
}

fn parts_of(path: &Path) -> Vec<String> {
    path.components().map(|c| c.as_os_str().to_str().unwrap().to_string()).collect()
}

fn begins_with_a_dot(path: &str) -> bool {
    path == "." || path.starts_with("./")
}

#[test]
fn file_name_is_the_file_name_of_std_on_every_path() {
    for path in any_paths() {
        let expected = Path::new(&path).file_name().map(|n| n.to_str().unwrap().to_string());
        assert_eq!(file_name(&path), expected, "{:?}", path);
    }
}

#[test]
fn parent_is_the_parent_of_std_on_tidy_paths() {
    for path in tidy_paths() {
        let expected = Path::new(&path).parent().map(|n| n.to_str().unwrap().to_string());
        assert_eq!(parent(&path), expected, "{:?}", path);
    }
}

#[test]
fn parent_names_the_parts_that_the_parent_of_std_names() {
    for path in any_paths() {
        if begins_with_a_dot(&path) {
            continue;
        }
        let expected = Path::new(&path).parent();
        let found = parent(&path);
        assert_eq!(found.is_some(), expected.is_some(), "{:?}", path);
        if let (Some(found), Some(expected)) = (found, expected) {
            assert_eq!(parts_of(Path::new(&found)), parts_of(expected), "{:?}", path);
        }
    }
}

#[test]
fn strip_prefix_is_the_strip_prefix_of_std_on_tidy_paths() {
    for base in tidy_paths() {
        for path in tidy_paths() {
            let expected = Path::new(&path)
                .strip_prefix(&base)
                .ok()
                .map(|n| n.to_str().unwrap().to_string());
            assert_eq!(strip_prefix(&base, &path), expected, "{:?} {:?}", base, path);
        }
    }
}

#[test]
fn strip_prefix_names_the_parts_that_the_strip_prefix_of_std_names() {
    for base in any_paths() {
        for path in any_paths() {
            if begins_with_a_dot(&base) || begins_with_a_dot(&path) {
                continue;
            }
            let expected = Path::new(&path).strip_prefix(&base).ok();
            let found = strip_prefix(&base, &path);
            assert_eq!(found.is_some(), expected.is_some(), "{:?} {:?}", base, path);
            if let (Some(found), Some(expected)) = (found, expected) {
                assert_eq!(parts_of(Path::new(&found)), parts_of(expected), "{:?} {:?}", base, path);
                if !base.is_empty() {
                    assert!(!found.starts_with('/'), "{:?} {:?}", base, path);
                    assert_eq!(
                        parts_of(&Path::new(&base).join(&found)),
                        parts_of(Path::new(&path)),
                        "{:?} {:?}",
                        base,
                        path
                    );
                }
            }
        }
    }
}

#[test]
fn is_within_is_the_starts_with_of_std_where_no_part_points_upwards() {
    for base in any_paths() {
        for path in any_paths() {
            if begins_with_a_dot(&base) || begins_with_a_dot(&path) || base.is_empty() {
                continue;
            }
            if base.contains("..") || path.contains("..") {
                continue;
            }
            assert_eq!(
                is_within(&base, &path),
                Path::new(&path).starts_with(&base),
                "{:?} {:?}",
                base,
                path
            );
        }
    }
}
