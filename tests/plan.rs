use cdn_publish::error::Error;
use cdn_publish::plan::{PlanPhase, UploadPlan};
use cdn_publish::traverse::LocalPath;
use cdn_publish::url::UrlPath;

fn lp(parts: &[&str]) -> LocalPath {
    LocalPath::new(parts.iter().map(|s| s.to_string()).collect())
}

#[test]
fn non_empty_prefix_without_overwrite_is_refused() {
    let mut plan = UploadPlan::new(UrlPath::parse("site").unwrap(), false, false);
    assert!(plan.needs_listing());
    assert_eq!(plan.remote_dir().as_str(), "site/");
    match plan.check_listing(2) {
        Err(Error::Operations(m)) => assert_eq!(m, "site/"),
        _ => panic!("the guard must refuse"),
    }
    assert_eq!(plan.phase(), PlanPhase::Refused);
}

#[test]
fn overwrite_skips_listing_and_collects() {
    let mut plan = UploadPlan::new(UrlPath::parse("site").unwrap(), true, false);
    assert!(!plan.needs_listing());
    assert!(plan.check_listing(0).is_ok());
    assert_eq!(plan.phase(), PlanPhase::Collecting);
    plan.add(&vec![lp(&["a.txt"]), lp(&["d", "b.txt"])], &vec![]).unwrap();
    plan.add(&vec![lp(&["c.txt"])], &vec![]).unwrap();
    let r = plan.into_resources();
    let urls: Vec<&str> = r.iter().map(|x| x.url.as_str()).collect();
    assert_eq!(urls, vec!["site/a.txt", "site/d/b.txt", "site/c.txt"]);
    assert!(r.iter().all(|x| x.checksum.is_none()));
}

#[test]
fn plan_with_checksums() {
    let mut plan = UploadPlan::new(UrlPath::root(), false, true);
    assert!(plan.check_listing(0).is_ok());
    plan.add(&vec![lp(&["x.json"])], &vec![br#"{"key": "value"}"#.to_vec()]).unwrap();
    let r = plan.into_resources();
    assert_eq!(r.len(), 1);
    let sum = r[0].checksum.clone().unwrap();
    assert_eq!(sum.len(), 64);
    assert_eq!(sum, cdn_publish::resource::content_checksum(br#"{"key": "value"}"#));
}

#[test]
fn failed_add_keeps_what_was_collected() {
    let mut plan = UploadPlan::new(UrlPath::root(), false, false);
    assert!(plan.check_listing(0).is_ok());
    plan.add(&vec![lp(&["ok.txt"])], &vec![]).unwrap();
    assert!(matches!(plan.add(&vec![lp(&["bad name"])], &vec![]), Err(Error::Parse(_))));
    assert_eq!(plan.into_resources().len(), 1);
}
