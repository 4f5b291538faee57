use cdn_publish::error::Error;
use cdn_publish::url::UrlPath;

fn parsed(s: &str) -> Option<String> {
    UrlPath::parse(s).ok().map(|p| p.as_str().to_string())
}

#[test]
fn parse_collapses_trailing_separators() {
    assert_eq!(parsed("/path/////"), Some("path".to_string()));
}

#[test]
fn parse_drops_empty_query() {
    assert_eq!(parsed("/path/?"), Some("path".to_string()));
}

#[test]
fn parse_plain_path() {
    assert_eq!(parsed("/path"), Some("path".to_string()));
}

#[test]
fn parse_root_is_valid() {
    assert_eq!(parsed("/"), Some("".to_string()));
}

#[test]
fn parse_empty_fails() {
    assert!(matches!(UrlPath::parse(""), Err(Error::Parse(_))));
}

#[test]
fn parse_adds_leading_separator_and_collapses_inner_runs() {
    assert_eq!(parsed("a//b/c/"), Some("a/b/c".to_string()));
}

#[test]
fn parse_rejects_invalid_uri() {
    assert!(matches!(UrlPath::parse("a b"), Err(Error::Parse(_))));
}

#[test]
fn join_with_root_is_identity() {
    let p = UrlPath::parse("dir/file.txt").unwrap();
    let root = UrlPath::root();
    assert_eq!(root.join(&p).as_str(), "dir/file.txt");
    assert_eq!(p.join(&root).as_str(), "dir/file.txt");
    let empty_root = UrlPath::parse("/").unwrap();
    assert_eq!(empty_root.join(&p).as_str(), "dir/file.txt");
    assert_eq!(p.join(&empty_root).as_str(), "dir/file.txt");
}

#[test]
fn join_puts_one_separator_between() {
    let a = UrlPath::parse("prefix").unwrap();
    let b = UrlPath::parse("dir/file.txt").unwrap();
    assert_eq!(a.join(&b).as_str(), "prefix/dir/file.txt");
}

#[test]
fn default_is_root() {
    let p: UrlPath = Default::default();
    assert_eq!(p.as_str(), "/");
}

#[test]
fn file_name_is_last_segment() {
    let p = UrlPath::parse("a/b/c.txt").unwrap();
    assert_eq!(p.file_name(), Some("c.txt".to_string()));
    assert_eq!(UrlPath::root().file_name(), None);
    assert_eq!(UrlPath::parse("/").unwrap().file_name(), None);
}

#[test]
fn directory_form_and_join() {
    let p = UrlPath::parse("__test/run").unwrap();
    let dir = p.as_dir();
    assert_eq!(dir.as_str(), "__test/run/");
    let f = UrlPath::parse("x.json").unwrap();
    assert_eq!(dir.join(&f).as_str(), "__test/run/x.json");
    assert_eq!(dir.into_path().as_str(), "__test/run/");
}

#[test]
fn normalize_path_collapses_separators() {
    assert_eq!(cdn_publish::url::normalize_path("//a///b//"), "a/b");
    assert_eq!(cdn_publish::url::normalize_path("///"), "");
}
