use stackable_agent::fsext::{is_valid_file_path, join_path, normalize_path, parent_path};

#[test]
fn normalize_path_examples() {
    assert_eq!("foo/bar", normalize_path("foo//bar"));
    assert_eq!("foo/bar", normalize_path("foo/./bar"));
    assert_eq!("foo/bar", normalize_path("foo/bar/."));
    assert_eq!("foo/../bar", normalize_path("foo/../bar"));
    assert_eq!("foo/bar/..", normalize_path("foo/bar/.."));
    assert_eq!("/foo", normalize_path("/foo"));
    assert_eq!("./foo", normalize_path("./foo"));
    assert_eq!("foo", normalize_path("foo/"));
    assert_eq!("foo", normalize_path("foo"));
    assert_eq!("/", normalize_path("/"));
    assert_eq!(".", normalize_path("."));
    assert_eq!("..", normalize_path(".."));
    assert_eq!("", normalize_path(""));
}

#[test]
fn normalize_path_is_idempotent_on_examples() {
    for p in ["foo//bar", "./foo/", "/a/./b//c/", "..", ".", "", "/"] {
        let once = normalize_path(p);
        assert_eq!(once, normalize_path(&once));
    }
}

#[test]
fn is_valid_file_path_examples() {
    assert!(is_valid_file_path("foo/bar"));
    assert!(is_valid_file_path("foo/bar/"));
    assert!(is_valid_file_path("foo/bar/."));
    assert!(!is_valid_file_path("foo/bar/.."));
    assert!(is_valid_file_path("file"));
    assert!(is_valid_file_path("dir/file"));
    assert!(is_valid_file_path("/dir/file"));
    assert!(is_valid_file_path("./file"));
    assert!(!is_valid_file_path(""));
    assert!(!is_valid_file_path("."));
    assert!(!is_valid_file_path(".."));
    assert!(!is_valid_file_path("/"));
    assert!(!is_valid_file_path("dir/.."));
    assert!(is_valid_file_path("dir/file/."));
}

#[test]
fn parents_and_joins() {
    assert_eq!("/dir", parent_path("/dir/file"));
    assert_eq!("/", parent_path("/file"));
    assert_eq!("", parent_path("file"));
    assert_eq!(".", parent_path("./file"));
    assert_eq!("a/b", join_path("a", "b"));
    assert_eq!("a/b", join_path("a/", "b"));
    assert_eq!("/b", join_path("a", "/b"));
    assert_eq!("b", join_path("", "b"));
}

#[test]
fn normalized_paths_keep_their_file_names() {
    for path in ["/a//./b/", "./x/../y", "a/..", "/", "", "./", "c.txt", "/etc//agent.crt/."] {
        let n = normalize_path(path);
        assert_eq!(is_valid_file_path(path), is_valid_file_path(&n), "{}", path);
        assert_eq!(n, normalize_path(&n));
        if n != "/" {
            assert!(!n.contains("//") && !n.contains("/./") && !n.ends_with('/') && !n.ends_with("/."), "{}", n);
        }
    }
}
