use neatnik::path::{extension, file_name, file_stem, join, parent, starts_with, strip_prefix, with_file_name};

#[test]
fn join_follows_std_semantics() {
    assert_eq!(join("/a", "b"), "/a/b");
    assert_eq!(join("/a/", "b"), "/a/b");
    assert_eq!(join("", "b"), "b");
    assert_eq!(join("/a", "/b"), "/b");
    assert_eq!(join("/mnt", ""), "/mnt/");
}

#[test]
fn components_decide_prefixes() {
    assert!(starts_with("/a/b/c", "/a/b"));
    assert!(starts_with("/a//b/./c", "/a/b"));
    assert!(!starts_with("/a/bc", "/a/b"));
    assert!(!starts_with("a/b", "/a"));
    assert_eq!(strip_prefix("/a/b/c/d", "/a/b"), Some("c/d".to_string()));
    assert_eq!(strip_prefix("/a/b", "/a/b"), Some(String::new()));
    assert_eq!(strip_prefix("/x/y", "/a"), None);
}

#[test]
fn parents_and_names() {
    assert_eq!(parent("/a/b.log"), Some("/a".to_string()));
    assert_eq!(parent("b.log"), Some(String::new()));
    assert_eq!(parent("/"), None);
    assert_eq!(file_name("/a/b.log"), Some("b.log".to_string()));
    assert_eq!(file_name("/"), None);
    assert_eq!(file_name("/a/.."), None);
    assert_eq!(file_stem("/a/b.tar.gz"), Some("b.tar".to_string()));
    assert_eq!(extension("/a/b.tar.gz"), Some("gz".to_string()));
    assert_eq!(extension("/a/.hidden"), None);
    assert_eq!(file_stem("/a/.hidden"), Some(".hidden".to_string()));
    assert_eq!(extension("/a/README"), None);
    assert_eq!(with_file_name("/a/b.log", "c.log"), "/a/c.log");
}

#[test]
fn a_leading_dot_is_kept_as_std_keeps_it() {
    let p = std::path::Path::new("./a.log");
    assert_eq!(parent("./a.log").as_deref(), p.parent().and_then(|q| q.to_str()));
    assert_eq!(parent("./a.log"), Some(".".to_string()));
    assert_eq!(file_name("./a.log"), Some("a.log".to_string()));
    assert_eq!(file_name("."), None);
    assert_eq!(parent("."), Some(String::new()));
    assert!(!starts_with("./x/a", "x"));
    assert!(!std::path::Path::new("./x/a").starts_with("x"));
    assert!(starts_with("./x/a", "./x"));
    assert!(starts_with("x/./a", "x"));
    assert_eq!(strip_prefix("./x/a", "."), Some("x/a".to_string()));
    assert_eq!(with_file_name("./a.log", "b.log"), "./b.log");
}
