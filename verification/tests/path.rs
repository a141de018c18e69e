use aistore::path::ObjectLocation;

fn key(raw: &str) -> Option<String> {
    ObjectLocation::parse(raw).map(|l| l.as_str().to_string())
}

#[test]
fn plain_keys_are_kept() {
    assert_eq!(key("a"), Some("a".to_string()));
    assert_eq!(key("a/b"), Some("a/b".to_string()));
    assert_eq!(key("a/b/c.txt"), Some("a/b/c.txt".to_string()));
    assert_eq!(key("foo%2Fbar"), Some("foo%2Fbar".to_string()));
    assert_eq!(key("a/.b"), Some("a/.b".to_string()));
    assert_eq!(key("a/..."), Some("a/...".to_string()));
    assert_eq!(key("é/ü"), Some("é/ü".to_string()));
}

#[test]
fn one_slash_at_either_end_is_dropped() {
    assert_eq!(key("/a/b"), Some("a/b".to_string()));
    assert_eq!(key("a/b/"), Some("a/b".to_string()));
    assert_eq!(key("/a/b/"), Some("a/b".to_string()));
}

#[test]
fn the_root_is_a_location() {
    assert_eq!(key(""), Some("".to_string()));
    assert_eq!(key("/"), Some("".to_string()));
}

#[test]
fn empty_segments_are_refused() {
    assert_eq!(key("//"), None);
    assert_eq!(key("a//b"), None);
    assert_eq!(key("//a"), None);
    assert_eq!(key("a//"), None);
    assert_eq!(key("/a//"), None);
}

#[test]
fn relative_segments_are_refused() {
    assert_eq!(key("."), None);
    assert_eq!(key(".."), None);
    assert_eq!(key("a/./b"), None);
    assert_eq!(key("a/../b"), None);
    assert_eq!(key("a/.."), None);
    assert_eq!(key("/../"), None);
}

#[test]
fn control_characters_are_refused() {
    assert_eq!(key("a\u{0}b"), None);
    assert_eq!(key("a/b\n"), None);
    assert_eq!(key("a\tb"), None);
    assert_eq!(key("a\u{7f}"), None);
    assert_eq!(key("a\u{80}"), Some("a\u{80}".to_string()));
    assert_eq!(key("a b"), Some("a b".to_string()));
}

#[test]
fn a_copy_has_the_same_key() {
    let location = ObjectLocation::parse("a/b").unwrap();
    assert_eq!(location.duplicate().as_str(), "a/b");
}
