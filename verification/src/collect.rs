//! The rule engine: one pass over every manifest's dependencies that
//! cross-references the catalogs, tracks which entries are used, and emits
//! the classified, ordered issue list.

use vstd::prelude::*;

use crate::packages::Dependency;
use crate::packages::DependencyView;
use crate::packages::Package;
use crate::packages::PackageType;
use crate::packages::PackageTypeView;
use crate::packages::PackageView;
use crate::packages::deps_view;
use crate::packages::is_catalog_ref;
use crate::packages::is_special_protocol;
use crate::packages::parse_catalog_ref;
use crate::packages::spec_all_dependencies;
use crate::packages::spec_is_special_protocol;
use crate::packages::spec_package_label;
use crate::packages::spec_parse_catalog_ref;
use crate::rules::CatalogEntryExistsIssue;
use crate::rules::CatalogEntryExistsView;
use crate::rules::Issue;
use crate::rules::IssueView;
use crate::rules::IssuesList;
use crate::rules::MissingCatalog;
use crate::rules::MissingCatalogView;
use crate::rules::NoDirectVersionIssue;
use crate::rules::NoDirectVersionView;
use crate::rules::UnusedCatalogEntryIssue;
use crate::rules::UnusedCatalogEntryView;
use crate::rules::spec_emit;
use crate::strutil::clone_strings;
use crate::strutil::clone_opt_string;
use crate::strutil::contains_seq;
use crate::strutil::contains_string;
use crate::strutil::opt_view;
use crate::strutil::opts_view;
use crate::strutil::strings_view;
use crate::workspace::CatalogEntry;
use crate::workspace::CatalogEntryView;
use crate::workspace::CatalogsView;
use crate::workspace::WorkspaceCatalogs;
use crate::workspace::entries_view;
use crate::workspace::push_entry;
use crate::workspace::spec_all_entries;
use crate::workspace::spec_assoc_has;
use crate::workspace::spec_find_dependency;
use crate::workspace::spec_get_version;
use crate::workspace::spec_named_get;

verus! {

/// View of a vector of manifests.
pub open spec fn pkgs_view(s: Seq<Package>) -> Seq<PackageView> {
    s.map_values(|p: Package| p@)
}

/// The engine's working state: the issues emitted so far and the catalog
/// entries not yet proven used.
pub struct EngineState {
    pub issues: Seq<(PackageTypeView, IssueView)>,
    pub used: Seq<CatalogEntryView>,
}

/// Whether the entry names this catalog and dependency.
pub open spec fn spec_entry_matches(
    e: CatalogEntryView,
    catalog_name: Option<Seq<char>>,
    dep_name: Seq<char>,
) -> bool {
    e.catalog_name == catalog_name && e.dependency_name == dep_name
}

/// Mark one catalog entry used: drop every matching entry, keeping order.
pub open spec fn spec_remove_entry(
    used: Seq<CatalogEntryView>,
    catalog_name: Option<Seq<char>>,
    dep_name: Seq<char>,
) -> Seq<CatalogEntryView>
    decreases used.len(),
{
    if used.len() == 0 {
        used
    } else {
        let rest = spec_remove_entry(used.drop_last(), catalog_name, dep_name);
        if spec_entry_matches(used.last(), catalog_name, dep_name) {
            rest
        } else {
            rest.push(used.last())
        }
    }
}

/// Mark the dependency used in every catalog the find pass returned.
pub open spec fn spec_remove_found(
    used: Seq<CatalogEntryView>,
    found: Seq<Option<Seq<char>>>,
    dep_name: Seq<char>,
) -> Seq<CatalogEntryView>
    decreases found.len(),
{
    if found.len() == 0 {
        used
    } else {
        spec_remove_entry(
            spec_remove_found(used, found.drop_last(), dep_name),
            found.last(),
            dep_name,
        )
    }
}

/// What one dependency does to the engine state, as the single pass walks
/// it: catalog references are checked against the catalogs and mark their
/// entry used; direct versions of catalog-pinned names mark every matching
/// entry used and are reported; special protocols are skipped. The
/// used-entry bookkeeping happens whether or not the rule is ignored; only
/// the emission passes through the ignore filter.
pub open spec fn spec_step_dep(
    st: EngineState,
    cats: CatalogsView,
    igr: Seq<Seq<char>>,
    igd: Seq<Seq<char>>,
    pt: PackageTypeView,
    dep: DependencyView,
) -> EngineState {
    if contains_seq(igd, dep.name) {
        st
    } else {
        match spec_parse_catalog_ref(dep.version) {
            Some(None) => if spec_assoc_has(cats.default, dep.name) {
                EngineState { issues: st.issues, used: spec_remove_entry(st.used, None, dep.name) }
            } else {
                EngineState {
                    issues: spec_emit(
                        st.issues,
                        igr,
                        pt,
                        IssueView::CatalogEntryExists(
                            CatalogEntryExistsView {
                                dependency_name: dep.name,
                                catalog_ref: dep.version,
                                kind: dep.kind,
                                missing: MissingCatalogView::DefaultEntry,
                            },
                        ),
                    ),
                    used: st.used,
                }
            },
            Some(Some(name)) => if spec_named_get(cats.named, name) is None {
                EngineState {
                    issues: spec_emit(
                        st.issues,
                        igr,
                        pt,
                        IssueView::CatalogEntryExists(
                            CatalogEntryExistsView {
                                dependency_name: dep.name,
                                catalog_ref: dep.version,
                                kind: dep.kind,
                                missing: MissingCatalogView::NamedCatalog(name),
                            },
                        ),
                    ),
                    used: st.used,
                }
            } else if (match spec_named_get(cats.named, name) {
                Some(m) => spec_assoc_has(m, dep.name),
                None => false,
            }) {
                EngineState {
                    issues: st.issues,
                    used: spec_remove_entry(st.used, Some(name), dep.name),
                }
            } else {
                EngineState {
                    issues: spec_emit(
                        st.issues,
                        igr,
                        pt,
                        IssueView::CatalogEntryExists(
                            CatalogEntryExistsView {
                                dependency_name: dep.name,
                                catalog_ref: dep.version,
                                kind: dep.kind,
                                missing: MissingCatalogView::NamedEntry(name),
                            },
                        ),
                    ),
                    used: st.used,
                }
            },
            None => if spec_is_special_protocol(dep.version) {
                st
            } else {
                let found = spec_find_dependency(cats, dep.name);
                if found.len() == 0 {
                    st
                } else {
                    EngineState {
                        issues: spec_emit(
                            st.issues,
                            igr,
                            pt,
                            IssueView::NoDirectVersion(
                                NoDirectVersionView {
                                    dependency_name: dep.name,
                                    version: dep.version,
                                    kind: dep.kind,
                                    available_in: found,
                                },
                            ),
                        ),
                        used: spec_remove_found(st.used, found, dep.name),
                    }
                }
            },
        }
    }
}

/// The dependencies of one manifest, walked in order.
pub open spec fn spec_run_deps(
    st: EngineState,
    cats: CatalogsView,
    igr: Seq<Seq<char>>,
    igd: Seq<Seq<char>>,
    pt: PackageTypeView,
    deps: Seq<DependencyView>,
) -> EngineState
    decreases deps.len(),
{
    if deps.len() == 0 {
        st
    } else {
        spec_step_dep(
            spec_run_deps(st, cats, igr, igd, pt, deps.drop_last()),
            cats,
            igr,
            igd,
            pt,
            deps.last(),
        )
    }
}

/// One manifest: skipped whole when its label is in the ignored-package
/// list, else its dependencies are walked in order.
pub open spec fn spec_step_package(
    st: EngineState,
    cats: CatalogsView,
    igr: Seq<Seq<char>>,
    igp: Seq<Seq<char>>,
    igd: Seq<Seq<char>>,
    pkg: PackageView,
) -> EngineState {
    if contains_seq(igp, spec_package_label(pkg.package_type)) {
        st
    } else {
        spec_run_deps(st, cats, igr, igd, pkg.package_type, spec_all_dependencies(pkg))
    }
}

/// The manifests, walked in order.
pub open spec fn spec_run_packages(
    st: EngineState,
    cats: CatalogsView,
    igr: Seq<Seq<char>>,
    igp: Seq<Seq<char>>,
    igd: Seq<Seq<char>>,
    pkgs: Seq<PackageView>,
) -> EngineState
    decreases pkgs.len(),
{
    if pkgs.len() == 0 {
        st
    } else {
        spec_step_package(
            spec_run_packages(st, cats, igr, igp, igd, pkgs.drop_last()),
            cats,
            igr,
            igp,
            igd,
            pkgs.last(),
        )
    }
}

/// After the pass, one warning per entry still unused, attributed to the
/// root identity, in the order the entries were collected.
pub open spec fn spec_emit_unused(
    issues: Seq<(PackageTypeView, IssueView)>,
    cats: CatalogsView,
    igr: Seq<Seq<char>>,
    used: Seq<CatalogEntryView>,
) -> Seq<(PackageTypeView, IssueView)>
    decreases used.len(),
{
    if used.len() == 0 {
        issues
    } else {
        let prev = spec_emit_unused(issues, cats, igr, used.drop_last());
        let e = used.last();
        match spec_get_version(cats, e) {
            Some(version) => spec_emit(
                prev,
                igr,
                PackageTypeView::Root,
                IssueView::UnusedCatalogEntry(
                    UnusedCatalogEntryView {
                        dependency_name: e.dependency_name,
                        catalog_name: e.catalog_name,
                        version: version,
                    },
                ),
            ),
            None => prev,
        }
    }
}

/// The whole engine: a pure function of the manifests, the catalogs and the
/// ignore lists, yielding the ordered issue list.
pub open spec fn spec_collect_issues(
    pkgs: Seq<PackageView>,
    cats: CatalogsView,
    igr: Seq<Seq<char>>,
    igp: Seq<Seq<char>>,
    igd: Seq<Seq<char>>,
) -> Seq<(PackageTypeView, IssueView)> {
    let init = EngineState { issues: Seq::empty(), used: spec_all_entries(cats) };
    let st = spec_run_packages(init, cats, igr, igp, igd, pkgs);
    spec_emit_unused(st.issues, cats, igr, st.used)
}

/// Running the engine twice on identical inputs produces the identical
/// ordered issue list: the result depends on nothing but the manifests, the
/// catalogs and the ignore lists.
pub proof fn lemma_engine_deterministic(
    pkgs: Seq<PackageView>,
    cats: CatalogsView,
    igr: Seq<Seq<char>>,
    igp: Seq<Seq<char>>,
    igd: Seq<Seq<char>>,
    r1: Seq<(PackageTypeView, IssueView)>,
    r2: Seq<(PackageTypeView, IssueView)>,
)
    requires
        r1 == spec_collect_issues(pkgs, cats, igr, igp, igd),
        r2 == spec_collect_issues(pkgs, cats, igr, igp, igd),
    ensures
        r1 == r2,
{
}

/// Drop from `used` every entry naming this catalog and dependency.
fn remove_entry(used: &mut Vec<CatalogEntry>, catalog_name: &Option<String>, dep_name: &str)
    ensures
        entries_view(final(used)@) == spec_remove_entry(
            entries_view(old(used)@),
            opt_view(*catalog_name),
            dep_name@,
        ),
{
    let ghost all = entries_view(used@);
    let ghost gcat = opt_view(*catalog_name);
    let mut kept: Vec<CatalogEntry> = Vec::new();
    proof {
        assert(all.take(0) =~= Seq::<CatalogEntryView>::empty());
        assert(entries_view(kept@) =~= Seq::<CatalogEntryView>::empty());
    }
    let mut i: usize = 0;
    while i < used.len()
        invariant
            i <= used.len(),
            all == entries_view(used@),
            gcat == opt_view(*catalog_name),
            entries_view(kept@) == spec_remove_entry(all.take(i as int), gcat, dep_name@),
        decreases used.len() - i,
    {
        let e = &used[i];
        proof {
            let pre = all.take(i as int + 1);
            assert(pre.drop_last() =~= all.take(i as int));
            assert(pre.last() == all[i as int]);
            assert(all[i as int] == used@[i as int]@);
        }
        let matches_cat = crate::strutil::opt_str_eq(&e.catalog_name, catalog_name);
        let matches_dep = crate::strutil::str_eq(e.dependency_name.as_str(), dep_name);
        proof {
            assert((matches_cat && matches_dep) == spec_entry_matches(
                all[i as int],
                gcat,
                dep_name@,
            ));
        }
        if !(matches_cat && matches_dep) {
            push_entry(
                &mut kept,
                CatalogEntry {
                    catalog_name: clone_opt_string(&e.catalog_name),
                    dependency_name: e.dependency_name.clone(),
                },
            );
        }
        i += 1;
    }
    proof {
        assert(all.take(used@.len() as int) =~= all);
    }
    *used = kept;
}

/// Walk one dependency: check catalog references, report direct versions of
/// catalog-pinned names, and keep the used-entry bookkeeping exact even when
/// the fired rule is ignored.
fn process_dependency(
    issues: &mut IssuesList,
    used: &mut Vec<CatalogEntry>,
    catalogs: &WorkspaceCatalogs,
    ignored_dependencies: &Vec<String>,
    package_type: &PackageType,
    dep: &Dependency,
)
    ensures
        final(issues)@.ignored_rules == old(issues)@.ignored_rules,
        (EngineState {
            issues: final(issues)@.issues,
            used: entries_view(final(used)@),
        }) == spec_step_dep(
            EngineState { issues: old(issues)@.issues, used: entries_view(old(used)@) },
            catalogs@,
            old(issues)@.ignored_rules,
            strings_view(ignored_dependencies@),
            package_type@,
            dep@,
        ),
{
    if contains_string(ignored_dependencies, dep.name.as_str()) {
        return ;
    }
    if is_catalog_ref(dep.version.as_str()) {
        let parsed = parse_catalog_ref(dep.version.as_str());
        match parsed {
            Some(None) => {
                if catalogs.has_default_entry(dep.name.as_str()) {
                    let none_cat: Option<String> = None;
                    remove_entry(used, &none_cat, dep.name.as_str());
                } else {
                    issues.add(
                        package_type.clone(),
                        Issue::CatalogEntryExists(
                            CatalogEntryExistsIssue {
                                dependency_name: dep.name.clone(),
                                catalog_ref: dep.version.clone(),
                                kind: dep.kind,
                                missing: MissingCatalog::DefaultEntry,
                            },
                        ),
                    );
                }
            },
            Some(Some(name)) => {
                if !catalogs.has_catalog(name.as_str()) {
                    issues.add(
                        package_type.clone(),
                        Issue::CatalogEntryExists(
                            CatalogEntryExistsIssue {
                                dependency_name: dep.name.clone(),
                                catalog_ref: dep.version.clone(),
                                kind: dep.kind,
                                missing: MissingCatalog::NamedCatalog(name),
                            },
                        ),
                    );
                } else if catalogs.has_named_entry(name.as_str(), dep.name.as_str()) {
                    let some_cat: Option<String> = Some(name);
                    remove_entry(used, &some_cat, dep.name.as_str());
                } else {
                    issues.add(
                        package_type.clone(),
                        Issue::CatalogEntryExists(
                            CatalogEntryExistsIssue {
                                dependency_name: dep.name.clone(),
                                catalog_ref: dep.version.clone(),
                                kind: dep.kind,
                                missing: MissingCatalog::NamedEntry(name),
                            },
                        ),
                    );
                }
            },
            None => {},
        }
    } else if !is_special_protocol(dep.version.as_str()) {
        let found = catalogs.find_dependency(dep.name.as_str());
        if found.len() > 0 {
            let ghost used0 = entries_view(used@);
            proof {
                assert(opts_view(found@).take(0) =~= Seq::<Option<Seq<char>>>::empty());
            }
            let mut fi: usize = 0;
            while fi < found.len()
                invariant
                    fi <= found.len(),
                    used0 == entries_view(old(used)@),
                    entries_view(used@) == spec_remove_found(
                        used0,
                        opts_view(found@).take(fi as int),
                        dep@.name,
                    ),
                decreases found.len() - fi,
            {
                let cn = &found[fi];
                remove_entry(used, cn, dep.name.as_str());
                proof {
                    let pre = opts_view(found@).take(fi as int + 1);
                    assert(pre.drop_last() =~= opts_view(found@).take(fi as int));
                    assert(pre.last() == opts_view(found@)[fi as int]);
                    assert(opts_view(found@)[fi as int] == opt_view(found@[fi as int]));
                }
                fi += 1;
            }
            proof {
                assert(opts_view(found@).take(found@.len() as int) =~= opts_view(found@));
            }
            issues.add(
                package_type.clone(),
                Issue::NoDirectVersion(
                    NoDirectVersionIssue {
                        dependency_name: dep.name.clone(),
                        version: dep.version.clone(),
                        kind: dep.kind,
                        available_in: found,
                    },
                ),
            );
        }
    }
}

/// Walk one manifest: skipped whole when its label is ignored.
fn process_package(
    issues: &mut IssuesList,
    used: &mut Vec<CatalogEntry>,
    catalogs: &WorkspaceCatalogs,
    ignored_packages: &Vec<String>,
    ignored_dependencies: &Vec<String>,
    pkg: &Package,
)
    ensures
        final(issues)@.ignored_rules == old(issues)@.ignored_rules,
        (EngineState {
            issues: final(issues)@.issues,
            used: entries_view(final(used)@),
        }) == spec_step_package(
            EngineState { issues: old(issues)@.issues, used: entries_view(old(used)@) },
            catalogs@,
            old(issues)@.ignored_rules,
            strings_view(ignored_packages@),
            strings_view(ignored_dependencies@),
            pkg@,
        ),
{
    let ghost st0 = EngineState { issues: issues@.issues, used: entries_view(used@) };
    let label = pkg.package_type.label();
    if contains_string(ignored_packages, label.as_str()) {
        return ;
    }
    let deps = pkg.all_dependencies();
    proof {
        assert(deps_view(deps@).take(0) =~= Seq::<DependencyView>::empty());
    }
    let mut di: usize = 0;
    while di < deps.len()
        invariant
            di <= deps.len(),
            st0 == (EngineState {
                issues: old(issues)@.issues,
                used: entries_view(old(used)@),
            }),
            deps_view(deps@) == spec_all_dependencies(pkg@),
            issues@.ignored_rules == old(issues)@.ignored_rules,
            (EngineState { issues: issues@.issues, used: entries_view(used@) }) == spec_run_deps(
                st0,
                catalogs@,
                old(issues)@.ignored_rules,
                strings_view(ignored_dependencies@),
                pkg@.package_type,
                deps_view(deps@).take(di as int),
            ),
        decreases deps.len() - di,
    {
        let dep = &deps[di];
        process_dependency(issues, used, catalogs, ignored_dependencies, &pkg.package_type, dep);
        proof {
            let pre = deps_view(deps@).take(di as int + 1);
            assert(pre.drop_last() =~= deps_view(deps@).take(di as int));
            assert(pre.last() == deps_view(deps@)[di as int]);
            assert(deps_view(deps@)[di as int] == deps@[di as int]@);
        }
        di += 1;
    }
    proof {
        assert(deps_view(deps@).take(deps@.len() as int) =~= deps_view(deps@));
    }
}

/// The single pass of the rule engine over all manifests, then one warning
/// per catalog entry never proven used. The result is pinned exactly by
/// `spec_collect_issues`.
pub fn collect_issues(
    packages: &Vec<Package>,
    catalogs: &WorkspaceCatalogs,
    ignored_rules: &Vec<String>,
    ignored_packages: &Vec<String>,
    ignored_dependencies: &Vec<String>,
) -> (r: IssuesList)
    ensures
        r@.ignored_rules == strings_view(ignored_rules@),
        r@.issues == spec_collect_issues(
            pkgs_view(packages@),
            catalogs@,
            strings_view(ignored_rules@),
            strings_view(ignored_packages@),
            strings_view(ignored_dependencies@),
        ),
{
    let ghost cats = catalogs@;
    let ghost igr = strings_view(ignored_rules@);
    let ghost igp = strings_view(ignored_packages@);
    let ghost igd = strings_view(ignored_dependencies@);
    let ghost pkgs = pkgs_view(packages@);
    let ghost init = EngineState {
        issues: Seq::<(PackageTypeView, IssueView)>::empty(),
        used: spec_all_entries(cats),
    };
    let mut issues = IssuesList::new(clone_strings(ignored_rules));
    let mut used: Vec<CatalogEntry> = catalogs.all_entries();
    proof {
        assert(pkgs.take(0) =~= Seq::<PackageView>::empty());
    }
    let mut pi: usize = 0;
    while pi < packages.len()
        invariant
            pi <= packages.len(),
            cats == catalogs@,
            igr == strings_view(ignored_rules@),
            igp == strings_view(ignored_packages@),
            igd == strings_view(ignored_dependencies@),
            pkgs == pkgs_view(packages@),
            init == (EngineState {
                issues: Seq::<(PackageTypeView, IssueView)>::empty(),
                used: spec_all_entries(cats),
            }),
            issues@.ignored_rules == igr,
            (EngineState {
                issues: issues@.issues,
                used: entries_view(used@),
            }) == spec_run_packages(init, cats, igr, igp, igd, pkgs.take(pi as int)),
        decreases packages.len() - pi,
    {
        let pkg = &packages[pi];
        process_package(
            &mut issues,
            &mut used,
            catalogs,
            ignored_packages,
            ignored_dependencies,
            pkg,
        );
        proof {
            let pre = pkgs.take(pi as int + 1);
            assert(pre.drop_last() =~= pkgs.take(pi as int));
            assert(pre.last() == pkgs[pi as int]);
            assert(pkgs[pi as int] == packages@[pi as int]@);
        }
        pi += 1;
    }
    proof {
        assert(pkgs.take(packages@.len() as int) =~= pkgs);
    }
    let ghost stf = spec_run_packages(init, cats, igr, igp, igd, pkgs);
    proof {
        assert(entries_view(used@).take(0) =~= Seq::<CatalogEntryView>::empty());
    }
    let mut ei: usize = 0;
    while ei < used.len()
        invariant
            ei <= used.len(),
            cats == catalogs@,
            igr == strings_view(ignored_rules@),
            stf == spec_run_packages(init, cats, igr, igp, igd, pkgs),
            entries_view(used@) == stf.used,
            issues@.ignored_rules == igr,
            issues@.issues == spec_emit_unused(
                stf.issues,
                cats,
                igr,
                entries_view(used@).take(ei as int),
            ),
        decreases used.len() - ei,
    {
        let entry = &used[ei];
        proof {
            let pre = entries_view(used@).take(ei as int + 1);
            assert(pre.drop_last() =~= entries_view(used@).take(ei as int));
            assert(pre.last() == entries_view(used@)[ei as int]);
            assert(entries_view(used@)[ei as int] == used@[ei as int]@);
        }
        match catalogs.get_version(entry) {
            Some(version) => {
                issues.add(
                    PackageType::Root,
                    Issue::UnusedCatalogEntry(
                        UnusedCatalogEntryIssue {
                            dependency_name: entry.dependency_name.clone(),
                            catalog_name: clone_opt_string(&entry.catalog_name),
                            version: version,
                        },
                    ),
                );
            },
            None => {},
        }
        ei += 1;
    }
    proof {
        assert(entries_view(used@).take(used@.len() as int) =~= entries_view(used@));
    }
    issues
}

} // verus!
