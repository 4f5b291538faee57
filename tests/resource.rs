use cdn_publish::error::Error;
use cdn_publish::resource::{
    content_checksum, finish_resources, map_resource, map_resources, overwrite_guard,
    strip_suffix, LocalResource,
};
use cdn_publish::traverse::LocalPath;
use cdn_publish::url::UrlPath;

fn lp(parts: &[&str]) -> LocalPath {
    LocalPath::new(parts.iter().map(|s| s.to_string()).collect())
}

const EMPTY_SHA256: &str = "E3B0C44298FC1C149AFBF4C8996FB92427AE41E4649B934CA495991B7852B855";
const ABC_SHA256: &str = "BA7816BF8F01CFEA414140DE5DAE2223B00361A396177A9CB410FF61F20015AD";

#[test]
fn checksum_of_empty_content() {
    assert_eq!(content_checksum(b""), EMPTY_SHA256);
}

#[test]
fn checksum_of_abc_is_upper_hex() {
    let sum = content_checksum(b"abc");
    assert_eq!(sum, ABC_SHA256);
    assert_eq!(sum.len(), 64);
}

#[test]
fn checksum_is_deterministic() {
    let content = br#"{"key": "value"}"#.to_vec();
    assert_eq!(content_checksum(&content), content_checksum(&content.clone()));
}

#[test]
fn map_resource_under_prefix() {
    let prefix = UrlPath::parse("site/v1").unwrap();
    let r = map_resource(&prefix, lp(&["dir1", "file1.txt"])).unwrap();
    assert_eq!(r.url.as_str(), "site/v1/dir1/file1.txt");
    assert_eq!(r.path.to_text(), "dir1/file1.txt");
    assert!(r.checksum.is_none());
}

#[test]
fn map_resource_under_root_prefix() {
    let r = map_resource(&UrlPath::root(), lp(&["a.txt"])).unwrap();
    assert_eq!(r.url.as_str(), "a.txt");
}

#[test]
fn map_resource_rejects_unparsable_path() {
    let r = map_resource(&UrlPath::root(), lp(&["bad name.txt"]));
    assert!(matches!(r, Err(Error::Parse(_))));
    let r = map_resource(&UrlPath::root(), lp(&[]));
    assert!(matches!(r, Err(Error::Parse(_))));
}

#[test]
fn map_resources_stops_on_first_failure() {
    let paths = vec![lp(&["ok.txt"]), lp(&["not ok.txt"]), lp(&["fine.txt"])];
    assert!(matches!(map_resources(&UrlPath::root(), &paths), Err(Error::Parse(_))));
    let paths = vec![lp(&["a.txt"]), lp(&["d", "b.txt"])];
    let v = map_resources(&UrlPath::root(), &paths).unwrap();
    assert_eq!(v.len(), 2);
    assert_eq!(v[1].url.as_str(), "d/b.txt");
}

fn two_resources() -> Vec<LocalResource> {
    let paths = vec![lp(&["a.txt"]), lp(&["b.txt"])];
    map_resources(&UrlPath::root(), &paths).unwrap()
}

#[test]
fn no_checksum_when_not_requested() {
    let r = finish_resources(two_resources(), false, &vec![]);
    assert_eq!(r.len(), 2);
    assert!(r.iter().all(|x| x.checksum.is_none()));
}

#[test]
fn every_checksum_when_requested() {
    let contents = vec![b"abc".to_vec(), b"".to_vec()];
    let r = finish_resources(two_resources(), true, &contents);
    assert_eq!(r[0].checksum.as_deref(), Some(ABC_SHA256));
    assert_eq!(r[1].checksum.as_deref(), Some(EMPTY_SHA256));
    assert_eq!(r[1].url.as_str(), "b.txt");
}

#[test]
fn overwrite_guard_refuses_non_empty_prefix() {
    let dir = UrlPath::parse("site").unwrap().as_dir();
    match overwrite_guard(&dir, false, 3) {
        Err(Error::Operations(m)) => assert_eq!(m, "site/"),
        _ => panic!("the guard must refuse"),
    }
    assert!(overwrite_guard(&dir, true, 3).is_ok());
    assert!(overwrite_guard(&dir, false, 0).is_ok());
}

#[test]
fn basepath_and_file_name() {
    let prefix = UrlPath::parse("p").unwrap();
    let r = map_resource(&prefix, lp(&["d", "f.txt"])).unwrap();
    assert_eq!(r.name_from_path(), "f.txt");
    assert_eq!(r.basepath(), "p/d/");
    let none = LocalResource { path: lp(&[]), url: UrlPath::root(), checksum: None };
    assert_eq!(none.name_from_path(), "[none]");
    assert_eq!(none.basepath(), "/");
}

#[test]
fn strip_suffix_only_at_end() {
    assert_eq!(strip_suffix("abc/def", "def"), "abc/");
    assert_eq!(strip_suffix("abc/def", "abc"), "abc/def");
    assert_eq!(strip_suffix("ab", "abc"), "ab");
}

#[test]
fn checksum_label_in_report() {
    let r = two_resources().remove(0);
    assert_eq!(r.checksum_yes_or_no(), "none");
    let r = r.with_checksum(b"abc");
    assert_eq!(r.checksum_yes_or_no(), "👍");
    assert_eq!(r.checksum.as_deref(), Some(ABC_SHA256));
}

#[test]
fn digest_hex_is_upper_case_high_nibble_first() {
    assert_eq!(cdn_publish::resource::digest_hex(&vec![0x00, 0xab, 0x7f, 0x10]), "00AB7F10");
    assert_eq!(cdn_publish::resource::digest_hex(&vec![]), "");
}
