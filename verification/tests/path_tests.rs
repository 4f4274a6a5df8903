use podcast_downloader::paths::{is_absolute_path, join_path, path_components, path_starts_with, resolve_path};

#[test]
fn joins_with_one_separator() {
    assert_eq!(join_path("/base", "file"), "/base/file");
    assert_eq!(join_path("/base/", "file"), "/base/file");
    assert_eq!(join_path("", "file"), "file");
    assert_eq!(join_path("/base", "/abs"), "/abs");
}

#[test]
fn resolves_relative_paths_only() {
    assert!(is_absolute_path("/x"));
    assert!(!is_absolute_path("x/y"));
    assert_eq!(resolve_path("/data", "/var/db"), "/var/db");
    assert_eq!(resolve_path("/data", "db"), "/data/db");
}

#[test]
fn components_drop_empty_and_dot_pieces() {
    assert_eq!(path_components("/a//b/./c/"), vec!["/", "a", "b", "c"]);
    assert_eq!(path_components("./a"), vec![".", "a"]);
    assert_eq!(path_components("a/../b"), vec!["a", "..", "b"]);
}

#[test]
fn containment_compares_whole_components() {
    assert!(path_starts_with("/downloads/show/file.mp3", "/downloads"));
    assert!(path_starts_with("/downloads/file.mp3", "/downloads/"));
    assert!(!path_starts_with("/downloads-other/file.mp3", "/downloads"));
    assert!(!path_starts_with("/etc/passwd", "/downloads"));
    assert!(path_starts_with("/downloads", "/downloads"));
}
