use cdn_publish::error::Error;
use cdn_publish::remote::{
    check_json_essence, check_output, choose_remote_op, classify_status, endpoint, expect_json,
    status_from_number, Item, RemoteOp, ResponseKind,
};
use cdn_publish::url::UrlPath;

#[test]
fn status_classes() {
    assert_eq!(classify_status(200), ResponseKind::Accepted);
    assert_eq!(classify_status(201), ResponseKind::Accepted);
    assert_eq!(classify_status(401), ResponseKind::ApiError);
    assert_eq!(classify_status(403), ResponseKind::ApiError);
    assert_eq!(classify_status(404), ResponseKind::ApiError);
    assert_eq!(classify_status(500), ResponseKind::Unexpected);
    assert_eq!(classify_status(204), ResponseKind::Unexpected);
}

#[test]
fn status_numbers() {
    assert_eq!(status_from_number(404).unwrap(), 404);
    assert_eq!(status_from_number(65536 + 200).unwrap(), 200);
    assert!(matches!(status_from_number(99), Err(Error::Serialization(_))));
    assert!(matches!(status_from_number(1000), Err(Error::Serialization(_))));
}

#[test]
fn json_content_type() {
    assert!(expect_json(Some("application/json")).is_ok());
    assert!(expect_json(Some("application/json; charset=utf-8")).is_ok());
    assert!(matches!(expect_json(Some("text/plain")), Err(Error::Parse(_))));
    assert!(matches!(expect_json(None), Err(Error::Parse(_))));
    assert!(check_json_essence(Some("application/json".to_string())).is_ok());
    assert!(check_json_essence(Some("text/html".to_string())).is_err());
}

#[test]
fn endpoint_joins_with_separator() {
    assert_eq!(endpoint("https://storage.example.com/zone", "a/b.txt"), "https://storage.example.com/zone/a/b.txt");
}

#[test]
fn download_plans() {
    assert!(matches!(check_output("out", true), Err(Error::Parse(m)) if m == "out"));
    assert!(check_output("out", false).is_ok());
    let p = UrlPath::parse("dir/file.txt").unwrap();
    match choose_remote_op(p, true).unwrap() {
        RemoteOp::File(name, path) => {
            assert_eq!(name, "file.txt");
            assert_eq!(path.as_str(), "dir/file.txt");
        }
        RemoteOp::Dir(_) => panic!("expected a file"),
    }
    match choose_remote_op(UrlPath::parse("dir").unwrap(), false).unwrap() {
        RemoteOp::Dir(d) => assert_eq!(d.as_str(), "dir/"),
        RemoteOp::File(..) => panic!("expected a directory"),
    }
    assert!(matches!(choose_remote_op(UrlPath::root(), true), Err(Error::Parse(_))));
}

#[test]
fn object_name_icons() {
    let mut item = Item {
        array_number: 0,
        checksum: None,
        content_type: String::new(),
        date_created: String::new(),
        guid: String::new(),
        is_directory: true,
        last_changed: String::new(),
        length: 0,
        object_name: "docs".to_string(),
        path: String::new(),
        replicated_zones: None,
        server_id: 0,
        storage_zone_id: 0,
        storage_zone_name: String::new(),
        user_id: String::new(),
    };
    assert_eq!(item.format_object_name(), "📂 docs");
    item.is_directory = false;
    assert_eq!(item.format_object_name(), "📄 docs");
}
