//! The issue taxonomy — three rule kinds with their severities and human
//! messages — and the ordered issue list with its ignore-rule filter.

use vstd::prelude::*;

use crate::packages::DependencyKind;
use crate::packages::PackageType;
use crate::packages::PackageTypeView;
use crate::packages::spec_kind_label;
use crate::strutil::contains_seq;
use crate::strutil::contains_string;
use crate::strutil::opt_view;
use crate::strutil::opts_view;
use crate::strutil::strings_view;

verus! {

/// Severity of an issue.
#[derive(Debug, Clone, Copy, PartialEq, Eq, Structural)]
pub enum IssueLevel {
    Error,
    Warning,
}

/// What a failing catalog reference is missing.
#[derive(Debug, PartialEq, Eq)]
pub enum MissingCatalog {
    /// `catalog:` used but the dependency is not in the default catalog.
    DefaultEntry,
    /// `catalog:<name>` used but no catalog of that name exists.
    NamedCatalog(String),
    /// `catalog:<name>` used, the catalog exists, but lacks the dependency.
    NamedEntry(String),
}

/// Spec-level missing-catalog shape.
pub enum MissingCatalogView {
    DefaultEntry,
    NamedCatalog(Seq<char>),
    NamedEntry(Seq<char>),
}

impl View for MissingCatalog {
    type V = MissingCatalogView;

    open spec fn view(&self) -> MissingCatalogView {
        match self {
            MissingCatalog::DefaultEntry => MissingCatalogView::DefaultEntry,
            MissingCatalog::NamedCatalog(name) => MissingCatalogView::NamedCatalog(name@),
            MissingCatalog::NamedEntry(name) => MissingCatalogView::NamedEntry(name@),
        }
    }
}

/// A `catalog:` reference that points at no existing entry.
#[derive(Debug, PartialEq, Eq)]
pub struct CatalogEntryExistsIssue {
    pub dependency_name: String,
    pub catalog_ref: String,
    pub kind: DependencyKind,
    pub missing: MissingCatalog,
}

/// Spec-level shape of `CatalogEntryExistsIssue`.
pub struct CatalogEntryExistsView {
    pub dependency_name: Seq<char>,
    pub catalog_ref: Seq<char>,
    pub kind: DependencyKind,
    pub missing: MissingCatalogView,
}

impl View for CatalogEntryExistsIssue {
    type V = CatalogEntryExistsView;

    open spec fn view(&self) -> CatalogEntryExistsView {
        CatalogEntryExistsView {
            dependency_name: self.dependency_name@,
            catalog_ref: self.catalog_ref@,
            kind: self.kind,
            missing: self.missing@,
        }
    }
}

/// A literal version used for a dependency that some catalog pins.
#[derive(Debug, PartialEq, Eq)]
pub struct NoDirectVersionIssue {
    pub dependency_name: String,
    pub version: String,
    pub kind: DependencyKind,
    /// Catalogs where this dependency is available (`None` = default).
    pub available_in: Vec<Option<String>>,
}

/// Spec-level shape of `NoDirectVersionIssue`.
pub struct NoDirectVersionView {
    pub dependency_name: Seq<char>,
    pub version: Seq<char>,
    pub kind: DependencyKind,
    pub available_in: Seq<Option<Seq<char>>>,
}

impl View for NoDirectVersionIssue {
    type V = NoDirectVersionView;

    open spec fn view(&self) -> NoDirectVersionView {
        NoDirectVersionView {
            dependency_name: self.dependency_name@,
            version: self.version@,
            kind: self.kind,
            available_in: opts_view(self.available_in@),
        }
    }
}

/// A catalog entry that no dependency references.
#[derive(Debug, PartialEq, Eq)]
pub struct UnusedCatalogEntryIssue {
    pub dependency_name: String,
    /// `None` = default catalog, `Some(name)` = named catalog.
    pub catalog_name: Option<String>,
    pub version: String,
}

/// Spec-level shape of `UnusedCatalogEntryIssue`.
pub struct UnusedCatalogEntryView {
    pub dependency_name: Seq<char>,
    pub catalog_name: Option<Seq<char>>,
    pub version: Seq<char>,
}

impl View for UnusedCatalogEntryIssue {
    type V = UnusedCatalogEntryView;

    open spec fn view(&self) -> UnusedCatalogEntryView {
        UnusedCatalogEntryView {
            dependency_name: self.dependency_name@,
            catalog_name: opt_view(self.catalog_name),
            version: self.version@,
        }
    }
}

/// The closed set of issue kinds the engine can emit.
#[derive(Debug, PartialEq, Eq)]
pub enum Issue {
    CatalogEntryExists(CatalogEntryExistsIssue),
    NoDirectVersion(NoDirectVersionIssue),
    UnusedCatalogEntry(UnusedCatalogEntryIssue),
}

/// Spec-level issue.
pub enum IssueView {
    CatalogEntryExists(CatalogEntryExistsView),
    NoDirectVersion(NoDirectVersionView),
    UnusedCatalogEntry(UnusedCatalogEntryView),
}

impl View for Issue {
    type V = IssueView;

    open spec fn view(&self) -> IssueView {
        match self {
            Issue::CatalogEntryExists(i) => IssueView::CatalogEntryExists(i@),
            Issue::NoDirectVersion(i) => IssueView::NoDirectVersion(i@),
            Issue::UnusedCatalogEntry(i) => IssueView::UnusedCatalogEntry(i@),
        }
    }
}

/// The rule name of an issue.
pub open spec fn spec_issue_name(i: IssueView) -> Seq<char> {
    match i {
        IssueView::CatalogEntryExists(_) => "catalog-entry-exists"@,
        IssueView::NoDirectVersion(_) => "no-direct-version"@,
        IssueView::UnusedCatalogEntry(_) => "unused-catalog-entry"@,
    }
}

/// The severity of an issue: the two rule violations are errors, an unused
/// entry is a warning.
pub open spec fn spec_issue_level(i: IssueView) -> IssueLevel {
    match i {
        IssueView::CatalogEntryExists(_) => IssueLevel::Error,
        IssueView::NoDirectVersion(_) => IssueLevel::Error,
        IssueView::UnusedCatalogEntry(_) => IssueLevel::Warning,
    }
}

/// Message of a failing catalog reference: names the dependency, the literal
/// reference string exactly as the manifest wrote it, the dependency kind,
/// and what is missing.
pub open spec fn spec_cee_message(i: CatalogEntryExistsView) -> Seq<char> {
    match i.missing {
        MissingCatalogView::DefaultEntry => "'"@ + i.dependency_name + "' references \""@
            + i.catalog_ref + "\" in "@ + spec_kind_label(i.kind)
            + " but is not defined in the default catalog"@,
        MissingCatalogView::NamedCatalog(name) => "'"@ + i.dependency_name + "' references \""@
            + i.catalog_ref + "\" in "@ + spec_kind_label(i.kind) + " but catalog \""@ + name
            + "\" does not exist"@,
        MissingCatalogView::NamedEntry(name) => "'"@ + i.dependency_name + "' references \""@
            + i.catalog_ref + "\" in "@ + spec_kind_label(i.kind)
            + " but is not defined in catalog \""@ + name + "\""@,
    }
}

/// How one catalog is named in a message: `default`, or the name quoted.
pub open spec fn spec_catalog_desc(o: Option<Seq<char>>) -> Seq<char> {
    match o {
        None => "default"@,
        Some(name) => "\""@ + name + "\""@,
    }
}

/// The catalogs of a `no-direct-version` message, comma-separated.
pub open spec fn spec_catalogs_desc(l: Seq<Option<Seq<char>>>) -> Seq<char>
    decreases l.len(),
{
    if l.len() == 0 {
        Seq::empty()
    } else if l.len() == 1 {
        spec_catalog_desc(l[0])
    } else {
        spec_catalogs_desc(l.drop_last()) + ", "@ + spec_catalog_desc(l.last())
    }
}

/// Message of a direct-version issue: names the dependency, the literal
/// version, the dependency kind, and every catalog that pins the dependency.
pub open spec fn spec_ndv_message(i: NoDirectVersionView) -> Seq<char> {
    "'"@ + i.dependency_name + "' uses \""@ + i.version + "\" in "@ + spec_kind_label(i.kind)
        + " but is available in catalog: "@ + spec_catalogs_desc(i.available_in)
        + ". Use \"catalog:\" instead."@
}

/// Message of an unused-entry issue: names the dependency, the pinned
/// version, and the catalog holding the entry.
pub open spec fn spec_uce_message(i: UnusedCatalogEntryView) -> Seq<char> {
    match i.catalog_name {
        None => "'"@ + i.dependency_name + "' (\""@ + i.version
            + "\") in the default catalog is never referenced"@,
        Some(name) => "'"@ + i.dependency_name + "' (\""@ + i.version + "\") in catalog \""@
            + name + "\" is never referenced"@,
    }
}

/// The human message of an issue.
pub open spec fn spec_issue_message(i: IssueView) -> Seq<char> {
    match i {
        IssueView::CatalogEntryExists(c) => spec_cee_message(c),
        IssueView::NoDirectVersion(n) => spec_ndv_message(n),
        IssueView::UnusedCatalogEntry(u) => spec_uce_message(u),
    }
}

fn catalogs_desc(l: &Vec<Option<String>>) -> (r: String)
    ensures
        r@ == spec_catalogs_desc(opts_view(l@)),
{
    let mut s = String::new();
    proof {
        assert(opts_view(l@).take(0) =~= Seq::<Option<Seq<char>>>::empty());
    }
    let mut i: usize = 0;
    while i < l.len()
        invariant
            i <= l.len(),
            s@ == spec_catalogs_desc(opts_view(l@).take(i as int)),
        decreases l.len() - i,
    {
        if i > 0 {
            s.append(", ");
        }
        match &l[i] {
            None => s.append("default"),
            Some(name) => {
                s.append("\"");
                s.append(name.as_str());
                s.append("\"");
            },
        }
        proof {
            let pre = opts_view(l@).take(i as int + 1);
            assert(pre.drop_last() =~= opts_view(l@).take(i as int));
            assert(pre.last() == opts_view(l@)[i as int]);
            assert(opts_view(l@)[i as int] == opt_view(l@[i as int]));
            assert(s@ =~= spec_catalogs_desc(pre));
        }
        i += 1;
    }
    proof {
        assert(opts_view(l@).take(l@.len() as int) =~= opts_view(l@));
    }
    s
}

impl Issue {
    /// The rule name, as the ignore-rule list spells it.
    pub fn name(&self) -> (r: &'static str)
        ensures
            r@ == spec_issue_name(self@),
    {
        match self {
            Issue::CatalogEntryExists(_) => "catalog-entry-exists",
            Issue::NoDirectVersion(_) => "no-direct-version",
            Issue::UnusedCatalogEntry(_) => "unused-catalog-entry",
        }
    }

    /// The severity.
    pub fn level(&self) -> (r: IssueLevel)
        ensures
            r == spec_issue_level(self@),
    {
        match self {
            Issue::CatalogEntryExists(_) => IssueLevel::Error,
            Issue::NoDirectVersion(_) => IssueLevel::Error,
            Issue::UnusedCatalogEntry(_) => IssueLevel::Warning,
        }
    }

    /// The human message, exactly as `spec_issue_message` renders it.
    pub fn message(&self) -> (r: String)
        ensures
            r@ == spec_issue_message(self@),
    {
        match self {
            Issue::CatalogEntryExists(i) => {
                let mut s = String::from_str("'");
                s.append(i.dependency_name.as_str());
                s.append("' references \"");
                s.append(i.catalog_ref.as_str());
                s.append("\" in ");
                s.append(i.kind.label());
                match &i.missing {
                    MissingCatalog::DefaultEntry => {
                        s.append(" but is not defined in the default catalog");
                    },
                    MissingCatalog::NamedCatalog(name) => {
                        s.append(" but catalog \"");
                        s.append(name.as_str());
                        s.append("\" does not exist");
                    },
                    MissingCatalog::NamedEntry(name) => {
                        s.append(" but is not defined in catalog \"");
                        s.append(name.as_str());
                        s.append("\"");
                    },
                }
                assert(s@ =~= spec_issue_message(self@));
                s
            },
            Issue::NoDirectVersion(i) => {
                let mut s = String::from_str("'");
                s.append(i.dependency_name.as_str());
                s.append("' uses \"");
                s.append(i.version.as_str());
                s.append("\" in ");
                s.append(i.kind.label());
                s.append(" but is available in catalog: ");
                let desc = catalogs_desc(&i.available_in);
                s.append(desc.as_str());
                s.append(". Use \"catalog:\" instead.");
                assert(s@ =~= spec_issue_message(self@));
                s
            },
            Issue::UnusedCatalogEntry(i) => {
                let mut s = String::from_str("'");
                s.append(i.dependency_name.as_str());
                s.append("' (\"");
                s.append(i.version.as_str());
                match &i.catalog_name {
                    None => {
                        s.append("\") in the default catalog is never referenced");
                    },
                    Some(name) => {
                        s.append("\") in catalog \"");
                        s.append(name.as_str());
                        s.append("\" is never referenced");
                    },
                }
                assert(s@ =~= spec_issue_message(self@));
                s
            },
        }
    }

    /// Why the rule exists, for explanatory output.
    pub fn why(&self) -> (r: &'static str)
        ensures
            (self@ is CatalogEntryExists) ==> r@
                == "A catalog: reference must point to an existing entry in pnpm-workspace.yaml. Missing entries will cause pnpm install to fail."@,
            (self@ is NoDirectVersion) ==> r@
                == "Dependencies available in the catalog should use the catalog: protocol to ensure version consistency across the monorepo."@,
            (self@ is UnusedCatalogEntry) ==> r@
                == "Unused catalog entries add noise to pnpm-workspace.yaml and may indicate stale dependencies that should be removed."@,
    {
        match self {
            Issue::CatalogEntryExists(
                _,
            ) => "A catalog: reference must point to an existing entry in pnpm-workspace.yaml. Missing entries will cause pnpm install to fail.",
            Issue::NoDirectVersion(
                _,
            ) => "Dependencies available in the catalog should use the catalog: protocol to ensure version consistency across the monorepo.",
            Issue::UnusedCatalogEntry(
                _,
            ) => "Unused catalog entries add noise to pnpm-workspace.yaml and may indicate stale dependencies that should be removed.",
        }
    }
}

/// View of a vector of attributed issues.
pub open spec fn issues_view(s: Seq<(PackageType, Issue)>) -> Seq<(PackageTypeView, IssueView)> {
    s.map_values(|p: (PackageType, Issue)| (p.0@, p.1@))
}

/// What adding one issue does to the ordered list: nothing when the rule is
/// ignored, else the issue is appended.
pub open spec fn spec_emit(
    issues: Seq<(PackageTypeView, IssueView)>,
    ignored_rules: Seq<Seq<char>>,
    package_type: PackageTypeView,
    issue: IssueView,
) -> Seq<(PackageTypeView, IssueView)> {
    if contains_seq(ignored_rules, spec_issue_name(issue)) {
        issues
    } else {
        issues.push((package_type, issue))
    }
}

/// Issues of a given severity in the list.
pub open spec fn spec_count_level(s: Seq<(PackageTypeView, IssueView)>, level: IssueLevel) -> int
    decreases s.len(),
{
    if s.len() == 0 {
        0
    } else {
        spec_count_level(s.drop_last(), level) + if spec_issue_level(s.last().1) == level {
            1int
        } else {
            0int
        }
    }
}

/// The ordered issue list: pairs of manifest identity and issue, in emission
/// order, with the ignore-rule filter applied at insertion.
#[derive(Debug)]
pub struct IssuesList {
    issues: Vec<(PackageType, Issue)>,
    ignored_rules: Vec<String>,
}

/// Spec-level issue list.
pub struct IssuesListView {
    pub issues: Seq<(PackageTypeView, IssueView)>,
    pub ignored_rules: Seq<Seq<char>>,
}

impl View for IssuesList {
    type V = IssuesListView;

    closed spec fn view(&self) -> IssuesListView {
        IssuesListView {
            issues: issues_view(self.issues@),
            ignored_rules: strings_view(self.ignored_rules@),
        }
    }
}

impl IssuesList {
    /// An empty list that will drop every issue whose rule name is ignored.
    pub fn new(ignored_rules: Vec<String>) -> (r: Self)
        ensures
            r@.issues == Seq::<(PackageTypeView, IssueView)>::empty(),
            r@.ignored_rules == strings_view(ignored_rules@),
    {
        let r = IssuesList { issues: Vec::new(), ignored_rules };
        proof {
            assert(r@.issues =~= Seq::<(PackageTypeView, IssueView)>::empty());
        }
        r
    }

    /// Append the issue unless its rule name is in the ignore list.
    pub fn add(&mut self, package_type: PackageType, issue: Issue)
        ensures
            final(self)@.ignored_rules == old(self)@.ignored_rules,
            final(self)@.issues == spec_emit(
                old(self)@.issues,
                old(self)@.ignored_rules,
                package_type@,
                issue@,
            ),
    {
        let name = issue.name();
        if !contains_string(&self.ignored_rules, name) {
            let ghost gp = package_type@;
            let ghost gi = issue@;
            self.issues.push((package_type, issue));
            proof {
                assert(issues_view(self.issues@) =~= issues_view(old(self).issues@).push(
                    (gp, gi),
                ));
            }
        }
    }

    /// How many errors the list holds.
    pub fn errors_count(&self) -> (r: usize)
        ensures
            r == spec_count_level(self@.issues, IssueLevel::Error),
    {
        self.count_level(IssueLevel::Error)
    }

    /// How many warnings the list holds.
    pub fn warnings_count(&self) -> (r: usize)
        ensures
            r == spec_count_level(self@.issues, IssueLevel::Warning),
    {
        self.count_level(IssueLevel::Warning)
    }

    fn count_level(&self, level: IssueLevel) -> (r: usize)
        ensures
            r == spec_count_level(self@.issues, level),
    {
        let ghost all = issues_view(self.issues@);
        proof {
            assert(all.take(0) =~= Seq::<(PackageTypeView, IssueView)>::empty());
        }
        let mut n: usize = 0;
        let mut i: usize = 0;
        while i < self.issues.len()
            invariant
                i <= self.issues.len(),
                all == issues_view(self.issues@),
                n <= i,
                n == spec_count_level(all.take(i as int), level),
            decreases self.issues.len() - i,
        {
            let p = &self.issues[i];
            proof {
                let pre = all.take(i as int + 1);
                assert(pre.drop_last() =~= all.take(i as int));
                assert(pre.last() == all[i as int]);
                assert(all[i as int] == (self.issues@[i as int].0@, self.issues@[i as int].1@));
            }
            if p.1.level() == level {
                n += 1;
            }
            i += 1;
        }
        proof {
            assert(all.take(self.issues@.len() as int) =~= all);
        }
        n
    }

    /// Whether the list holds no issue.
    pub fn is_empty(&self) -> (r: bool)
        ensures
            r == (self@.issues.len() == 0),
    {
        self.issues.is_empty()
    }

    /// The attributed issues, in emission order.
    pub fn iter(&self) -> (r: &Vec<(PackageType, Issue)>)
        ensures
            issues_view(r@) == self@.issues,
    {
        &self.issues
    }
}

} // verus!
