use cargo_wasmer::error::{Error, ErrorKind};
use cargo_wasmer::paths::SegPath;

fn path(segments: &[&str]) -> SegPath {
    SegPath {
        segments: segments.iter().map(|s| s.to_string()).collect(),
    }
}

#[test]
fn ancestors_are_component_wise() {
    let base = path(&["ws", "a"]);
    assert!(base.is_ancestor_of(&path(&["ws", "a", "src"])));
    assert!(base.is_ancestor_of(&path(&["ws", "a"])));
    assert!(!base.is_ancestor_of(&path(&["ws", "ab", "src"])));
    assert!(!base.is_ancestor_of(&path(&["ws"])));
}

#[test]
fn strip_prefix_rehomes() {
    let base = path(&["ws", "a"]);
    let full = path(&["ws", "a", "wai", "api.wai"]);
    assert_eq!(full.strip_prefix(&base), Some(path(&["wai", "api.wai"])));
    assert_eq!(path(&["ws", "b", "x"]).strip_prefix(&base), None);
}

#[test]
fn join_parent_and_file_name() {
    let base = path(&["ws", "a"]);
    assert_eq!(base.join(&path(&["x", "y"])), path(&["ws", "a", "x", "y"]));
    assert_eq!(base.parent(), Some(path(&["ws"])));
    assert_eq!(SegPath { segments: vec![] }.parent(), None);
    assert_eq!(path(&["a", "b.txt"]).file_name(), Some("b.txt".to_string()));
    assert_eq!(path(&["a", ".."]).file_name(), None);
}

#[test]
fn error_kinds_follow_the_taxonomy() {
    assert_eq!(Error::MissingDescription.kind(), ErrorKind::Configuration);
    assert_eq!(Error::NoPackageSelected.kind(), ErrorKind::Resolution);
    assert_eq!(
        Error::CompilerFailed { exit_code: None }.kind(),
        ErrorKind::Build
    );
    assert_eq!(
        Error::PathEscapesBaseDirectory {
            path: path(&["x"])
        }
        .kind(),
        ErrorKind::Io
    );
    assert_eq!(
        Error::PublisherFailed { exit_code: Some(1) }.kind(),
        ErrorKind::Publish
    );
}
