use tincta::paths::{file_name, label_of, normal_path_of};
use tincta::workspace::file_key_of;

fn same_file(a: &str, b: &str) -> bool {
    normal_path_of(a) == normal_path_of(b)
}

#[test]
fn file_names_like_the_standard_library() {
    assert_eq!(file_name("/home/user/notes.txt"), Some("notes.txt".to_string()));
    assert_eq!(file_name("notes.txt"), Some("notes.txt".to_string()));
    assert_eq!(file_name("/tmp//dir/"), Some("dir".to_string()));
    assert_eq!(file_name("foo.txt/."), Some("foo.txt".to_string()));
    assert_eq!(file_name("a/./b"), Some("b".to_string()));
    assert_eq!(file_name("untitled://2"), Some("2".to_string()));
    assert_eq!(file_name("foo/.."), None);
    assert_eq!(file_name("/"), None);
    assert_eq!(file_name(""), None);
    assert_eq!(file_name("."), None);
}

#[test]
fn labels_fall_back_to_the_path() {
    assert_eq!(label_of("/a/b.rs"), "b.rs");
    assert_eq!(label_of(".."), "..");
    assert_eq!(label_of("/"), "/");
}

#[test]
fn normal_spellings() {
    assert_eq!(normal_path_of("/tmp//a.rs"), "/tmp/a.rs");
    assert_eq!(normal_path_of("/tmp/./a.rs/"), "/tmp/a.rs");
    assert_eq!(normal_path_of("./src//lib.rs"), "./src/lib.rs");
    assert_eq!(normal_path_of("a/../b"), "a/../b");
    assert_eq!(normal_path_of("."), ".");
    assert_eq!(normal_path_of("./"), ".");
    assert_eq!(normal_path_of("//"), "/");
    assert_eq!(normal_path_of(""), "");
}

#[test]
fn paths_compare_by_component() {
    assert!(same_file("/tmp//a.rs", "/tmp/a.rs"));
    assert!(same_file("a/./b", "a/b/"));
    assert!(!same_file("/a", "a"));
    assert!(!same_file("./a", "a"));
    assert!(!same_file("a/../b", "b"));
}

#[test]
fn unsaved_buffers_are_their_own_keys() {
    assert_eq!(file_key_of("untitled://3"), "untitled://3");
    assert_eq!(file_key_of("/home//me/./x.rs"), "/home/me/x.rs");
}
