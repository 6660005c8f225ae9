use file_server::resolve::filename_by_path;

#[test]
fn root_has_no_file_name() {
    assert_eq!(filename_by_path("/"), None);
}

#[test]
fn empty_path_is_the_root() {
    assert_eq!(filename_by_path(""), None);
}

#[test]
fn path_is_put_below_the_root_marker() {
    assert_eq!(filename_by_path("/foo/bar"), Some("./foo/bar".to_string()));
    assert_eq!(filename_by_path("/index.html"), Some("./index.html".to_string()));
}

#[test]
fn path_without_leading_slash_is_resolved_alike() {
    assert_eq!(filename_by_path("foo"), Some("./foo".to_string()));
}

#[test]
fn only_one_leading_slash_is_taken() {
    assert_eq!(filename_by_path("//"), Some(".//".to_string()));
    assert_eq!(filename_by_path("//foo"), Some(".//foo".to_string()));
}

#[test]
fn parent_segments_pass_through() {
    assert_eq!(filename_by_path("/../secret"), Some("./../secret".to_string()));
    assert_eq!(filename_by_path("/a/../b"), Some("./a/../b".to_string()));
}

#[test]
fn trailing_slash_is_kept() {
    assert_eq!(filename_by_path("/dir/"), Some("./dir/".to_string()));
}

#[test]
fn path_outside_ascii_is_kept() {
    assert_eq!(filename_by_path("/\u{e9}t\u{e9}/\u{1F600}"), Some("./\u{e9}t\u{e9}/\u{1F600}".to_string()));
}
