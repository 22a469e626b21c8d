use catalog_lint::packages::is_catalog_ref;
use catalog_lint::packages::is_special_protocol;
use catalog_lint::packages::parse_catalog_ref;

#[test]
fn test_is_catalog_ref() {
    assert!(is_catalog_ref("catalog:"));
    assert!(is_catalog_ref("catalog:default"));
    assert!(is_catalog_ref("catalog:react16"));
    assert!(!is_catalog_ref("^1.0.0"));
    assert!(!is_catalog_ref("workspace:*"));
    assert!(!is_catalog_ref("catalogued"));
}

#[test]
fn test_is_special_protocol() {
    assert!(is_special_protocol("workspace:*"));
    assert!(is_special_protocol("workspace:^"));
    assert!(is_special_protocol("link:../utils"));
    assert!(is_special_protocol("file:../utils"));
    assert!(is_special_protocol("git+https://github.com/foo/bar.git"));
    assert!(is_special_protocol("https://example.com/foo.tgz"));
    assert!(!is_special_protocol("^1.0.0"));
    assert!(!is_special_protocol("catalog:"));
}

#[test]
fn test_parse_catalog_ref() {
    assert_eq!(parse_catalog_ref("catalog:"), Some(None));
    assert_eq!(parse_catalog_ref("catalog:default"), Some(None));
    assert_eq!(
        parse_catalog_ref("catalog:react16"),
        Some(Some("react16".to_string()))
    );
    assert_eq!(parse_catalog_ref("^1.0.0"), None);
    assert_eq!(parse_catalog_ref("workspace:*"), None);
}

#[test]
fn classifier_classes_are_exclusive_on_samples() {
    for v in [
        "catalog:",
        "catalog:default",
        "catalog:react16",
        "workspace:*",
        "link:../a",
        "file:../a",
        "git:foo",
        "git+ssh://x",
        "http://x",
        "https://x",
        "^1.0.0",
        "~2.3.4",
        "",
        "catalogued",
    ] {
        let catalog = is_catalog_ref(v);
        let special = is_special_protocol(v);
        assert!(!(catalog && special), "both classes claimed {v}");
        assert_eq!(catalog, parse_catalog_ref(v).is_some(), "parser disagrees on {v}");
    }
}
