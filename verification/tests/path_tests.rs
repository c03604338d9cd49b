use rssh::path::{file_name, join_path, parent_dir, split_normal, str_ends_with_sep};

#[test]
fn join_onto_empty_is_name() {
    assert_eq!(join_path("", "x.bin"), "x.bin".to_string());
}

#[test]
fn join_inserts_separator() {
    assert_eq!(join_path("/data", "x.bin"), "/data/x.bin".to_string());
}

#[test]
fn join_never_doubles_separator() {
    assert_eq!(join_path("/data/", "x.bin"), "/data/x.bin".to_string());
}

#[test]
fn ends_with_sep_cases() {
    assert!(str_ends_with_sep("/data/"));
    assert!(!str_ends_with_sep("/data"));
    assert!(!str_ends_with_sep(""));
}

#[test]
fn file_name_of_plain_path() {
    assert_eq!(file_name("dir/a.txt"), Some("a.txt".to_string()));
}

#[test]
fn file_name_ignores_trailing_separators() {
    assert_eq!(file_name("dir/sub//"), Some("sub".to_string()));
}

#[test]
fn file_name_of_root_is_none() {
    assert_eq!(file_name("/"), None);
    assert_eq!(file_name(""), None);
}

#[test]
fn file_name_of_parent_segment_is_none() {
    assert_eq!(file_name("a/.."), None);
    assert_eq!(file_name(".."), None);
}

#[test]
fn file_name_skips_trailing_dot_segments() {
    assert_eq!(file_name("foo/."), Some("foo".to_string()));
    assert_eq!(file_name("a/./"), Some("a".to_string()));
    assert_eq!(file_name("."), None);
    assert_eq!(file_name("./"), None);
}

#[test]
fn parent_skips_trailing_dot_segments() {
    assert_eq!(parent_dir("foo/."), Some("".to_string()));
    assert_eq!(parent_dir("/a/b/."), Some("/a".to_string()));
}

#[test]
fn parent_of_nested_path() {
    assert_eq!(parent_dir("/a/b"), Some("/a".to_string()));
    assert_eq!(parent_dir("a/b/"), Some("a".to_string()));
}

#[test]
fn parent_of_top_level_entry_is_root() {
    assert_eq!(parent_dir("/a"), Some("/".to_string()));
}

#[test]
fn parent_of_bare_name_is_empty() {
    assert_eq!(parent_dir("a"), Some("".to_string()));
}

#[test]
fn parent_of_root_is_none() {
    assert_eq!(parent_dir("/"), None);
    assert_eq!(parent_dir(""), None);
}

#[test]
fn split_normal_drops_empty_and_relative_segments() {
    assert_eq!(
        split_normal("/a//b/./../c"),
        vec!["a".to_string(), "b".to_string(), "c".to_string()]
    );
}

#[test]
fn split_normal_of_root_and_empty() {
    assert_eq!(split_normal("/"), Vec::<String>::new());
    assert_eq!(split_normal(""), Vec::<String>::new());
}

#[test]
fn split_normal_without_separator() {
    assert_eq!(split_normal("etc"), vec!["etc".to_string()]);
}
