use catalog_lint::workspace::CatalogEntry;
use catalog_lint::workspace::WorkspaceCatalogs;

fn pairs(entries: Vec<(&str, &str)>) -> Vec<(String, String)> {
    entries
        .into_iter()
        .map(|(k, v)| (k.to_string(), v.to_string()))
        .collect()
}

#[test]
fn parse_default_catalog() {
    let catalogs = WorkspaceCatalogs {
        default: pairs(vec![("react", "^18.2.0"), ("lodash", "^4.17.21")]),
        named: Vec::new(),
    };
    assert!(catalogs.has_default_entry("react"));
    assert!(catalogs.has_default_entry("lodash"));
    assert!(!catalogs.has_default_entry("express"));
}

#[test]
fn parse_named_catalogs() {
    let catalogs = WorkspaceCatalogs {
        default: Vec::new(),
        named: vec![
            (
                "react16".to_string(),
                pairs(vec![("react", "^16.7.0"), ("react-dom", "^16.7.0")]),
            ),
            ("react17".to_string(), pairs(vec![("react", "^17.0.2")])),
        ],
    };
    assert!(catalogs.has_catalog("react16"));
    assert!(catalogs.has_named_entry("react16", "react"));
    assert!(!catalogs.has_named_entry("react16", "express"));
    assert!(!catalogs.has_catalog("react18"));
}

#[test]
fn find_dependency_across_catalogs() {
    let catalogs = WorkspaceCatalogs {
        default: pairs(vec![("react", "^18.2.0")]),
        named: vec![("legacy".to_string(), pairs(vec![("react", "^16.0.0")]))],
    };
    let found = catalogs.find_dependency("react");
    assert_eq!(found.len(), 2);
    assert_eq!(found[0], None); // default
    assert_eq!(found[1], Some("legacy".to_string()));
}

#[test]
fn all_entries() {
    let catalogs = WorkspaceCatalogs {
        default: pairs(vec![("react", "^18.2.0")]),
        named: vec![("legacy".to_string(), pairs(vec![("jquery", "^3.6.0")]))],
    };
    let entries = catalogs.all_entries();
    assert_eq!(entries.len(), 2);
    assert!(entries.contains(&CatalogEntry {
        catalog_name: None,
        dependency_name: "react".to_string(),
    }));
    assert!(entries.contains(&CatalogEntry {
        catalog_name: Some("legacy".to_string()),
        dependency_name: "jquery".to_string(),
    }));
}

#[test]
fn empty_catalogs() {
    let catalogs = WorkspaceCatalogs { default: Vec::new(), named: Vec::new() };
    assert!(!catalogs.has_default_entry("anything"));
    assert!(catalogs.all_entries().is_empty());
    assert!(catalogs.find_dependency("react").is_empty());
}

#[test]
fn get_version_looks_up_both_kinds() {
    let catalogs = WorkspaceCatalogs {
        default: pairs(vec![("react", "^18.2.0")]),
        named: vec![("legacy".to_string(), pairs(vec![("jquery", "^3.6.0")]))],
    };
    assert_eq!(
        catalogs.get_version(&CatalogEntry {
            catalog_name: None,
            dependency_name: "react".to_string(),
        }),
        Some("^18.2.0".to_string())
    );
    assert_eq!(
        catalogs.get_version(&CatalogEntry {
            catalog_name: Some("legacy".to_string()),
            dependency_name: "jquery".to_string(),
        }),
        Some("^3.6.0".to_string())
    );
    assert_eq!(
        catalogs.get_version(&CatalogEntry {
            catalog_name: Some("ghost".to_string()),
            dependency_name: "jquery".to_string(),
        }),
        None
    );
}
