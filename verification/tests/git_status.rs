use gity::git_status::{dirty_paths, path_compare, STATUS_IGNORED};

fn entries(list: &[(&str, u32)]) -> Vec<(String, u32)> {
    list.iter().map(|(p, b)| (p.to_string(), *b)).collect()
}

#[test]
fn dirty_paths_follow_path_order() {
    let v = dirty_paths(&entries(&[("b", 1), ("a-b", 128), ("a/b", 256), ("a", 128)]));
    assert_eq!(v, vec!["a", "a/b", "a-b", "b"]);
}

#[test]
fn dirty_paths_skip_current_and_ignored() {
    let v = dirty_paths(&entries(&[
        ("current", 0),
        ("ignored", STATUS_IGNORED),
        ("ignored-new", STATUS_IGNORED | 128),
        ("modified", 256),
    ]));
    assert_eq!(v, vec!["modified"]);
}

#[test]
fn dirty_paths_keep_one_of_equal_paths() {
    let v = dirty_paths(&entries(&[("a/b", 256), ("a//b/", 128), ("a/./b", 1), ("c", 1), ("c", 2)]));
    assert_eq!(v, vec!["a/b", "c"]);
}

#[test]
fn dirty_paths_of_nothing() {
    assert!(dirty_paths(&Vec::new()).is_empty());
}

#[test]
fn path_compare_goes_by_components() {
    assert_eq!(path_compare(&"a/b".to_string(), &"a-b".to_string()), -1);
    assert_eq!(path_compare(&"a-b".to_string(), &"a/b".to_string()), 1);
    assert_eq!(path_compare(&"a/b/".to_string(), &"a//b".to_string()), 0);
    assert_eq!(path_compare(&"/z".to_string(), &"a".to_string()), -1);
    assert_eq!(path_compare(&"./a".to_string(), &"a".to_string()), -1);
    assert_eq!(path_compare(&"b".to_string(), &"b/c".to_string()), -1);
    assert_eq!(path_compare(&"é".to_string(), &"z".to_string()), 1);
}
