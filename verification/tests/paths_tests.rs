use mmbackup::paths::{archive_name, get_last_segment, join_path, remote_path};

#[test]
fn last_segment_of_nested_path() {
    assert_eq!(get_last_segment("/a/b/c.txt"), "c.txt");
}

#[test]
fn last_segment_of_bare_name() {
    assert_eq!(get_last_segment("c.txt"), "c.txt");
}

#[test]
fn last_segment_of_empty_string() {
    assert_eq!(get_last_segment(""), "");
}

#[test]
fn last_segment_of_trailing_slash() {
    assert_eq!(get_last_segment("/a/b/"), "");
}

#[test]
fn archive_name_appends_suffix() {
    assert_eq!(archive_name("project"), "project.tar.gz");
    assert_eq!(archive_name(""), ".tar.gz");
}

#[test]
fn join_path_with_and_without_prefix() {
    assert_eq!(join_path("", "a.txt"), "a.txt");
    assert_eq!(join_path("project", "a.txt"), "project/a.txt");
    assert_eq!(join_path("project/sub", "b.bin"), "project/sub/b.bin");
}

#[test]
fn remote_path_keeps_existing_separator() {
    assert_eq!(remote_path("/backups/", "project.tar.gz"), "/backups/project.tar.gz");
}

#[test]
fn remote_path_inserts_missing_separator() {
    assert_eq!(remote_path("/backups", "project.tar.gz"), "/backups/project.tar.gz");
    assert_eq!(remote_path("", "project.tar.gz"), "project.tar.gz");
}
