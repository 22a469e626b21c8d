use catalog_lint::collect::collect_issues;
use catalog_lint::packages::DependencyKind;
use catalog_lint::packages::Package;
use catalog_lint::packages::PackageType;
use catalog_lint::rules::Issue;
use catalog_lint::rules::IssueLevel;
use catalog_lint::rules::MissingCatalog;
use catalog_lint::workspace::WorkspaceCatalogs;

fn pairs(entries: Vec<(&str, &str)>) -> Vec<(String, String)> {
    entries
        .into_iter()
        .map(|(k, v)| (k.to_string(), v.to_string()))
        .collect()
}

fn make_package(name: &str, deps: Vec<(&str, &str)>) -> Package {
    Package {
        package_type: PackageType::Workspace(name.to_string()),
        dependencies: pairs(deps),
        dev_dependencies: Vec::new(),
        peer_dependencies: Vec::new(),
        optional_dependencies: Vec::new(),
    }
}

fn make_catalogs(default: Vec<(&str, &str)>) -> WorkspaceCatalogs {
    WorkspaceCatalogs { default: pairs(default), named: Vec::new() }
}

fn no_ignored() -> Vec<String> {
    vec![]
}

#[test]
fn direct_version_marks_catalog_entry_as_used() {
    let catalogs = make_catalogs(vec![("react", "^18.2.0")]);
    let packages = vec![make_package("app", vec![("react", "^18.2.0")])];

    let issues = collect_issues(&packages, &catalogs, &no_ignored(), &no_ignored(), &no_ignored());

    // Should report no-direct-version error but NOT unused-catalog-entry
    assert_eq!(issues.errors_count(), 1);
    assert_eq!(issues.warnings_count(), 0);

    let (_, issue) = &issues.iter()[0];
    assert_eq!(issue.name(), "no-direct-version");
}

#[test]
fn direct_version_no_false_unused_when_rule_ignored() {
    let catalogs = make_catalogs(vec![("react", "^18.2.0")]);
    let packages = vec![make_package("app", vec![("react", "^18.2.0")])];

    let issues = collect_issues(
        &packages,
        &catalogs,
        &vec!["no-direct-version".to_string()],
        &no_ignored(),
        &no_ignored(),
    );

    // With no-direct-version ignored, there should be zero issues —
    // the catalog entry is still considered used
    assert!(issues.is_empty());
}

#[test]
fn unused_named_catalog_entry_warns_once() {
    let catalogs = WorkspaceCatalogs {
        default: Vec::new(),
        named: vec![("legacy".to_string(), pairs(vec![("jquery", "^3.6.0")]))],
    };
    let packages: Vec<Package> = Vec::new();

    let issues = collect_issues(&packages, &catalogs, &no_ignored(), &no_ignored(), &no_ignored());

    assert_eq!(issues.errors_count(), 0);
    assert_eq!(issues.warnings_count(), 1);
    let (pkg, issue) = &issues.iter()[0];
    assert_eq!(*pkg, PackageType::Root);
    assert_eq!(issue.name(), "unused-catalog-entry");
    match issue {
        Issue::UnusedCatalogEntry(u) => {
            assert_eq!(u.catalog_name, Some("legacy".to_string()));
            assert_eq!(u.dependency_name, "jquery");
            assert_eq!(u.version, "^3.6.0");
        }
        _ => panic!("wrong issue kind"),
    }
    assert_eq!(
        issue.message(),
        "'jquery' (\"^3.6.0\") in catalog \"legacy\" is never referenced"
    );
}

#[test]
fn reference_to_missing_named_catalog() {
    let catalogs = make_catalogs(vec![]);
    let packages = vec![make_package("app", vec![("react", "catalog:ghost")])];

    let issues = collect_issues(&packages, &catalogs, &no_ignored(), &no_ignored(), &no_ignored());

    assert_eq!(issues.errors_count(), 1);
    let (_, issue) = &issues.iter()[0];
    assert_eq!(issue.name(), "catalog-entry-exists");
    match issue {
        Issue::CatalogEntryExists(c) => {
            assert_eq!(c.missing, MissingCatalog::NamedCatalog("ghost".to_string()));
        }
        _ => panic!("wrong issue kind"),
    }
    assert_eq!(
        issue.message(),
        "'react' references \"catalog:ghost\" in dependencies but catalog \"ghost\" does not exist"
    );
}

#[test]
fn reference_to_missing_entry_in_existing_catalog() {
    let catalogs = WorkspaceCatalogs {
        default: Vec::new(),
        named: vec![("ghost".to_string(), pairs(vec![("lodash", "^4.0.0")]))],
    };
    let packages = vec![make_package("app", vec![("react", "catalog:ghost")])];

    let issues = collect_issues(&packages, &catalogs, &no_ignored(), &no_ignored(), &no_ignored());

    // one error for the missing entry, one warning for the unused lodash pin
    assert_eq!(issues.errors_count(), 1);
    assert_eq!(issues.warnings_count(), 1);
    let (_, issue) = &issues.iter()[0];
    match issue {
        Issue::CatalogEntryExists(c) => {
            assert_eq!(c.missing, MissingCatalog::NamedEntry("ghost".to_string()));
        }
        _ => panic!("wrong issue kind"),
    }
    assert_eq!(
        issue.message(),
        "'react' references \"catalog:ghost\" in dependencies but is not defined in catalog \"ghost\""
    );
}

#[test]
fn reference_to_missing_default_entry() {
    let catalogs = make_catalogs(vec![]);
    let packages = vec![make_package("app", vec![("react", "catalog:")])];

    let issues = collect_issues(&packages, &catalogs, &no_ignored(), &no_ignored(), &no_ignored());

    assert_eq!(issues.errors_count(), 1);
    assert_eq!(issues.warnings_count(), 0);
    let (_, issue) = &issues.iter()[0];
    match issue {
        Issue::CatalogEntryExists(c) => {
            assert_eq!(c.missing, MissingCatalog::DefaultEntry);
            assert_eq!(c.catalog_ref, "catalog:");
        }
        _ => panic!("wrong issue kind"),
    }
    assert_eq!(
        issue.message(),
        "'react' references \"catalog:\" in dependencies but is not defined in the default catalog"
    );
}

#[test]
fn message_quotes_the_reference_exactly_as_written() {
    let catalogs = make_catalogs(vec![]);
    let packages = vec![make_package("app", vec![("react", "catalog:default")])];

    let issues = collect_issues(&packages, &catalogs, &no_ignored(), &no_ignored(), &no_ignored());

    assert_eq!(issues.errors_count(), 1);
    let (_, issue) = &issues.iter()[0];
    match issue {
        Issue::CatalogEntryExists(c) => {
            assert_eq!(c.missing, MissingCatalog::DefaultEntry);
            assert_eq!(c.catalog_ref, "catalog:default");
        }
        _ => panic!("wrong issue kind"),
    }
    assert_eq!(
        issue.message(),
        "'react' references \"catalog:default\" in dependencies but is not defined in the default catalog"
    );
}

#[test]
fn satisfied_default_reference_reports_nothing() {
    let catalogs = make_catalogs(vec![("react", "^18.2.0")]);
    let packages = vec![make_package("app", vec![("react", "catalog:")])];

    let issues = collect_issues(&packages, &catalogs, &no_ignored(), &no_ignored(), &no_ignored());

    assert!(issues.is_empty());
}

#[test]
fn explicit_default_reference_counts_as_default() {
    let catalogs = make_catalogs(vec![("react", "^18.2.0")]);
    let packages = vec![make_package("app", vec![("react", "catalog:default")])];

    let issues = collect_issues(&packages, &catalogs, &no_ignored(), &no_ignored(), &no_ignored());

    assert!(issues.is_empty());
}

#[test]
fn special_protocol_is_skipped_and_entry_stays_unused() {
    let catalogs = make_catalogs(vec![("utils", "^1.0.0")]);
    let packages = vec![make_package("app", vec![("utils", "workspace:*")])];

    let issues = collect_issues(&packages, &catalogs, &no_ignored(), &no_ignored(), &no_ignored());

    assert_eq!(issues.errors_count(), 0);
    assert_eq!(issues.warnings_count(), 1);
    let (_, issue) = &issues.iter()[0];
    assert_eq!(issue.name(), "unused-catalog-entry");
    assert_eq!(
        issue.message(),
        "'utils' (\"^1.0.0\") in the default catalog is never referenced"
    );
}

#[test]
fn direct_version_lists_every_catalog_that_pins_it() {
    let catalogs = WorkspaceCatalogs {
        default: pairs(vec![("react", "^18.2.0")]),
        named: vec![("legacy".to_string(), pairs(vec![("react", "^16.0.0")]))],
    };
    let packages = vec![make_package("app", vec![("react", "^18.2.0")])];

    let issues = collect_issues(&packages, &catalogs, &no_ignored(), &no_ignored(), &no_ignored());

    // both entries marked used: one error, no unused warnings
    assert_eq!(issues.errors_count(), 1);
    assert_eq!(issues.warnings_count(), 0);
    let (pkg, issue) = &issues.iter()[0];
    assert_eq!(*pkg, PackageType::Workspace("app".to_string()));
    assert_eq!(issue.level(), IssueLevel::Error);
    assert_eq!(
        issue.message(),
        "'react' uses \"^18.2.0\" in dependencies but is available in catalog: default, \"legacy\". Use \"catalog:\" instead."
    );
}

#[test]
fn direct_version_absent_from_catalogs_is_legitimate() {
    let catalogs = make_catalogs(vec![("react", "^18.2.0")]);
    let packages = vec![
        make_package("app", vec![("express", "^4.18.0"), ("react", "catalog:")]),
    ];

    let issues = collect_issues(&packages, &catalogs, &no_ignored(), &no_ignored(), &no_ignored());

    assert!(issues.is_empty());
}

#[test]
fn ignored_package_is_skipped_whole() {
    let catalogs = make_catalogs(vec![("react", "^18.2.0")]);
    let packages = vec![make_package("app", vec![("react", "^18.2.0")])];

    let issues = collect_issues(
        &packages,
        &catalogs,
        &no_ignored(),
        &vec!["app".to_string()],
        &no_ignored(),
    );

    // the package never runs, so the entry stays unused
    assert_eq!(issues.errors_count(), 0);
    assert_eq!(issues.warnings_count(), 1);
}

#[test]
fn ignored_dependency_is_skipped() {
    let catalogs = make_catalogs(vec![("react", "^18.2.0")]);
    let packages = vec![make_package("app", vec![("react", "^18.2.0")])];

    let issues = collect_issues(
        &packages,
        &catalogs,
        &no_ignored(),
        &no_ignored(),
        &vec!["react".to_string()],
    );

    assert_eq!(issues.errors_count(), 0);
    assert_eq!(issues.warnings_count(), 1);
}

#[test]
fn dev_dependencies_kind_appears_in_message() {
    let catalogs = make_catalogs(vec![("react", "^18.2.0")]);
    let mut package = make_package("app", vec![]);
    package.dev_dependencies = pairs(vec![("react", "^18.2.0")]);
    let packages = vec![package];

    let issues = collect_issues(&packages, &catalogs, &no_ignored(), &no_ignored(), &no_ignored());

    assert_eq!(issues.errors_count(), 1);
    let (_, issue) = &issues.iter()[0];
    assert_eq!(
        issue.message(),
        "'react' uses \"^18.2.0\" in devDependencies but is available in catalog: default. Use \"catalog:\" instead."
    );
}

#[test]
fn engine_is_deterministic_on_identical_inputs() {
    let build = || {
        let catalogs = WorkspaceCatalogs {
            default: pairs(vec![("react", "^18.2.0"), ("lodash", "^4.17.21")]),
            named: vec![("legacy".to_string(), pairs(vec![("jquery", "^3.6.0")]))],
        };
        let packages = vec![
            make_package("app", vec![("react", "^18.2.0"), ("left-pad", "1.0.0")]),
            make_package("web", vec![("lodash", "catalog:"), ("thing", "catalog:ghost")]),
        ];
        (catalogs, packages)
    };
    let (catalogs1, packages1) = build();
    let (catalogs2, packages2) = build();

    let a = collect_issues(&packages1, &catalogs1, &no_ignored(), &no_ignored(), &no_ignored());
    let b = collect_issues(&packages2, &catalogs2, &no_ignored(), &no_ignored(), &no_ignored());

    assert_eq!(a.iter(), b.iter());
    assert_eq!(a.errors_count(), b.errors_count());
    assert_eq!(a.warnings_count(), b.warnings_count());
}

#[test]
fn all_dependencies_walks_blocks_in_order() {
    let mut package = make_package("app", vec![("a", "1")]);
    package.dev_dependencies = pairs(vec![("b", "2")]);
    package.peer_dependencies = pairs(vec![("c", "3")]);
    package.optional_dependencies = pairs(vec![("d", "4")]);

    let deps = package.all_dependencies();
    assert_eq!(deps.len(), 4);
    assert_eq!(deps[0].name, "a");
    assert_eq!(deps[0].kind, DependencyKind::Dependencies);
    assert_eq!(deps[1].name, "b");
    assert_eq!(deps[1].kind, DependencyKind::DevDependencies);
    assert_eq!(deps[2].name, "c");
    assert_eq!(deps[2].kind, DependencyKind::PeerDependencies);
    assert_eq!(deps[3].name, "d");
    assert_eq!(deps[3].kind, DependencyKind::OptionalDependencies);
}

#[test]
fn root_package_label_and_grouping() {
    let catalogs = make_catalogs(vec![]);
    let packages = vec![Package {
        package_type: PackageType::Root,
        dependencies: pairs(vec![("react", "catalog:")]),
        dev_dependencies: Vec::new(),
        peer_dependencies: Vec::new(),
        optional_dependencies: Vec::new(),
    }];

    let issues = collect_issues(&packages, &catalogs, &no_ignored(), &no_ignored(), &no_ignored());

    assert_eq!(issues.errors_count(), 1);
    let (pkg, _) = &issues.iter()[0];
    assert_eq!(*pkg, PackageType::Root);
    assert_eq!(packages[0].package_type.label(), "(root)");
}
