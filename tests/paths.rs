use fexplorer::{file_name, get_path_name, get_rel_path, get_string_from_path, join_path, parent_path};

#[test]
fn join_adds_one_separator() {
    assert_eq!(join_path("/tmp", "a"), "/tmp/a");
    assert_eq!(join_path("/tmp/", "a"), "/tmp/a");
    assert_eq!(join_path("", "a"), "a");
    assert_eq!(join_path("/tmp", "/etc"), "/etc");
    assert_eq!(join_path("rel", "b/c"), "rel/b/c");
}

#[test]
fn file_name_is_last_component() {
    assert_eq!(file_name("/tmp/t/b.txt"), Some(String::from("b.txt")));
    assert_eq!(file_name("/tmp/t/"), Some(String::from("t")));
    assert_eq!(file_name("plain"), Some(String::from("plain")));
    assert_eq!(file_name("/"), None);
    assert_eq!(file_name(""), None);
    assert_eq!(file_name("a/.."), None);
    assert_eq!(file_name("."), None);
}

#[test]
fn path_name_falls_back_to_path() {
    assert_eq!(get_path_name("/usr/lib"), "lib");
    assert_eq!(get_path_name("/"), "/");
    assert_eq!(get_rel_path("/usr/lib/x.so"), "x.so");
    assert_eq!(get_rel_path(".."), "..");
    assert_eq!(get_string_from_path("/a b/c"), "/a b/c");
}

#[test]
fn parent_drops_last_component() {
    assert_eq!(parent_path("/a/b"), Some(String::from("/a")));
    assert_eq!(parent_path("/a/b/"), Some(String::from("/a")));
    assert_eq!(parent_path("/a"), Some(String::from("/")));
    assert_eq!(parent_path("a"), Some(String::new()));
    assert_eq!(parent_path("a//b"), Some(String::from("a")));
    assert_eq!(parent_path("/"), None);
    assert_eq!(parent_path(""), None);
}
