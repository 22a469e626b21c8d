//! Package manifests, their dependencies, and the classifier of version
//! strings into catalog references, special protocols and direct versions.

use vstd::prelude::*;

use crate::strutil::str_eq;
use crate::strutil::str_starts_with;

verus! {

/// Identity of a manifest: the workspace root or a named workspace member.
#[derive(Debug, PartialEq, Eq)]
pub enum PackageType {
    Root,
    Workspace(String),
}

/// Spec-level identity of a manifest.
pub enum PackageTypeView {
    Root,
    Workspace(Seq<char>),
}

impl View for PackageType {
    type V = PackageTypeView;

    open spec fn view(&self) -> PackageTypeView {
        match self {
            PackageType::Root => PackageTypeView::Root,
            PackageType::Workspace(name) => PackageTypeView::Workspace(name@),
        }
    }
}

/// The name under which a manifest is matched against the ignored-package
/// list: `(root)` for the root manifest, else the member's name.
pub open spec fn spec_package_label(p: PackageTypeView) -> Seq<char> {
    match p {
        PackageTypeView::Root => "(root)"@,
        PackageTypeView::Workspace(name) => name,
    }
}

impl PackageType {
    /// The label of this identity, as `spec_package_label` gives it.
    pub fn label(&self) -> (r: String)
        ensures
            r@ == spec_package_label(self@),
    {
        match self {
            PackageType::Root => String::from_str("(root)"),
            PackageType::Workspace(name) => name.clone(),
        }
    }
}

impl Clone for PackageType {
    fn clone(&self) -> (r: Self)
        ensures
            r@ == self@,
    {
        match self {
            PackageType::Root => PackageType::Root,
            PackageType::Workspace(name) => PackageType::Workspace(name.clone()),
        }
    }
}

/// The four dependency blocks a manifest may declare.
#[derive(Debug, Clone, Copy, PartialEq, Eq, Structural)]
pub enum DependencyKind {
    Dependencies,
    DevDependencies,
    PeerDependencies,
    OptionalDependencies,
}

/// The serialized name of a dependency block, as manifests spell it.
pub open spec fn spec_kind_label(k: DependencyKind) -> Seq<char> {
    match k {
        DependencyKind::Dependencies => "dependencies"@,
        DependencyKind::DevDependencies => "devDependencies"@,
        DependencyKind::PeerDependencies => "peerDependencies"@,
        DependencyKind::OptionalDependencies => "optionalDependencies"@,
    }
}

impl DependencyKind {
    /// The label of this block, as `spec_kind_label` gives it.
    pub fn label(&self) -> (r: &'static str)
        ensures
            r@ == spec_kind_label(*self),
    {
        match self {
            DependencyKind::Dependencies => "dependencies",
            DependencyKind::DevDependencies => "devDependencies",
            DependencyKind::PeerDependencies => "peerDependencies",
            DependencyKind::OptionalDependencies => "optionalDependencies",
        }
    }
}

/// One dependency drawn from a manifest block.
#[derive(Debug)]
pub struct Dependency {
    pub name: String,
    pub version: String,
    pub kind: DependencyKind,
}

/// Spec-level dependency.
pub struct DependencyView {
    pub name: Seq<char>,
    pub version: Seq<char>,
    pub kind: DependencyKind,
}

impl View for Dependency {
    type V = DependencyView;

    open spec fn view(&self) -> DependencyView {
        DependencyView { name: self.name@, version: self.version@, kind: self.kind }
    }
}

/// View of an ordered name-to-version list.
pub open spec fn pairs_view(v: Seq<(String, String)>) -> Seq<(Seq<char>, Seq<char>)> {
    v.map_values(|p: (String, String)| (p.0@, p.1@))
}

/// A manifest: its identity and its four dependency blocks, each an ordered
/// name-to-version list as the manifest declares it.
#[derive(Debug)]
pub struct Package {
    pub package_type: PackageType,
    pub dependencies: Vec<(String, String)>,
    pub dev_dependencies: Vec<(String, String)>,
    pub peer_dependencies: Vec<(String, String)>,
    pub optional_dependencies: Vec<(String, String)>,
}

/// Spec-level manifest.
pub struct PackageView {
    pub package_type: PackageTypeView,
    pub dependencies: Seq<(Seq<char>, Seq<char>)>,
    pub dev_dependencies: Seq<(Seq<char>, Seq<char>)>,
    pub peer_dependencies: Seq<(Seq<char>, Seq<char>)>,
    pub optional_dependencies: Seq<(Seq<char>, Seq<char>)>,
}

impl View for Package {
    type V = PackageView;

    open spec fn view(&self) -> PackageView {
        PackageView {
            package_type: self.package_type@,
            dependencies: pairs_view(self.dependencies@),
            dev_dependencies: pairs_view(self.dev_dependencies@),
            peer_dependencies: pairs_view(self.peer_dependencies@),
            optional_dependencies: pairs_view(self.optional_dependencies@),
        }
    }
}

/// The dependencies of one block, each tagged with the block's kind.
pub open spec fn spec_block_dependencies(
    m: Seq<(Seq<char>, Seq<char>)>,
    kind: DependencyKind,
) -> Seq<DependencyView> {
    m.map_values(|p: (Seq<char>, Seq<char>)| DependencyView { name: p.0, version: p.1, kind: kind })
}

/// Every dependency of a manifest: the four blocks in their fixed order,
/// each block in its declared order.
pub open spec fn spec_all_dependencies(p: PackageView) -> Seq<DependencyView> {
    spec_block_dependencies(p.dependencies, DependencyKind::Dependencies)
        + spec_block_dependencies(p.dev_dependencies, DependencyKind::DevDependencies)
        + spec_block_dependencies(p.peer_dependencies, DependencyKind::PeerDependencies)
        + spec_block_dependencies(p.optional_dependencies, DependencyKind::OptionalDependencies)
}

/// View of a vector of dependencies.
pub open spec fn deps_view(s: Seq<Dependency>) -> Seq<DependencyView> {
    s.map_values(|d: Dependency| d@)
}

fn block_dependencies(block: &Vec<(String, String)>, kind: DependencyKind) -> (r: Vec<Dependency>)
    ensures
        deps_view(r@) == spec_block_dependencies(pairs_view(block@), kind),
{
    let ghost full = spec_block_dependencies(pairs_view(block@), kind);
    let mut r: Vec<Dependency> = Vec::new();
    let mut i: usize = 0;
    while i < block.len()
        invariant
            i <= block.len(),
            full == spec_block_dependencies(pairs_view(block@), kind),
            r@.len() == i,
            forall|j: int| 0 <= j < i ==> #[trigger] r@[j]@ == full[j],
        decreases block.len() - i,
    {
        let p = &block[i];
        let name = p.0.clone();
        let version = p.1.clone();
        let ghost gname = name@;
        let ghost gversion = version@;
        r.push(Dependency { name: name, version: version, kind: kind });
        proof {
            assert(pairs_view(block@)[i as int] == (block@[i as int].0@, block@[i as int].1@));
            assert(full[i as int] == DependencyView {
                name: block@[i as int].0@,
                version: block@[i as int].1@,
                kind: kind,
            });
            assert(r@[i as int]@ == DependencyView { name: gname, version: gversion, kind: kind });
        }
        i += 1;
    }
    proof {
        assert forall|j: int| 0 <= j < full.len() implies deps_view(r@)[j] == full[j] by {
            assert(deps_view(r@)[j] == r@[j]@);
        }
        assert(deps_view(r@) =~= full);
    }
    r
}

impl Package {
    /// Every dependency of this manifest, derived on demand from the four
    /// blocks in their fixed order.
    pub fn all_dependencies(&self) -> (r: Vec<Dependency>)
        ensures
            deps_view(r@) == spec_all_dependencies(self@),
    {
        let mut r = block_dependencies(&self.dependencies, DependencyKind::Dependencies);
        let mut b = block_dependencies(&self.dev_dependencies, DependencyKind::DevDependencies);
        r.append(&mut b);
        let mut b = block_dependencies(&self.peer_dependencies, DependencyKind::PeerDependencies);
        r.append(&mut b);
        let mut b = block_dependencies(
            &self.optional_dependencies,
            DependencyKind::OptionalDependencies,
        );
        r.append(&mut b);
        assert(deps_view(r@) =~= spec_all_dependencies(self@));
        r
    }
}

/// True when the version string is a reference into the catalog.
pub open spec fn spec_is_catalog_ref(v: Seq<char>) -> bool {
    "catalog:"@.is_prefix_of(v)
}

/// Returns true if the version string uses the catalog: protocol.
pub fn is_catalog_ref(version: &str) -> (r: bool)
    ensures
        r == spec_is_catalog_ref(version@),
{
    str_starts_with(version, "catalog:")
}

/// True when the version string names a non-registry source, exempt from
/// the catalog rules.
pub open spec fn spec_is_special_protocol(v: Seq<char>) -> bool {
    ||| "workspace:"@.is_prefix_of(v)
    ||| "link:"@.is_prefix_of(v)
    ||| "file:"@.is_prefix_of(v)
    ||| "git:"@.is_prefix_of(v)
    ||| "git+"@.is_prefix_of(v)
    ||| "http:"@.is_prefix_of(v)
    ||| "https:"@.is_prefix_of(v)
}

/// Returns true if the version string uses a special protocol that should be skipped.
pub fn is_special_protocol(version: &str) -> (r: bool)
    ensures
        r == spec_is_special_protocol(version@),
{
    str_starts_with(version, "workspace:") || str_starts_with(version, "link:")
        || str_starts_with(version, "file:") || str_starts_with(version, "git:")
        || str_starts_with(version, "git+") || str_starts_with(version, "http:")
        || str_starts_with(version, "https:")
}

/// A direct version: neither a catalog reference nor a special protocol.
pub open spec fn spec_is_direct_version(v: Seq<char>) -> bool {
    !spec_is_catalog_ref(v) && !spec_is_special_protocol(v)
}

/// View of a parsed catalog reference.
pub open spec fn opt_ref_view(r: Option<Option<String>>) -> Option<Option<Seq<char>>> {
    match r {
        None => None,
        Some(None) => Some(None),
        Some(Some(s)) => Some(Some(s@)),
    }
}

/// `None` when the string is not a catalog reference; `Some(None)` for the
/// default catalog (empty suffix, or the suffix `default`); `Some(Some(name))`
/// for a named catalog.
pub open spec fn spec_parse_catalog_ref(v: Seq<char>) -> Option<Option<Seq<char>>> {
    if spec_is_catalog_ref(v) {
        let suffix = v.skip("catalog:"@.len() as int);
        if suffix.len() == 0 || suffix == "default"@ {
            Some(None)
        } else {
            Some(Some(suffix))
        }
    } else {
        None
    }
}

/// Parse a catalog: reference to extract the catalog name.
pub fn parse_catalog_ref(version: &str) -> (r: Option<Option<String>>)
    ensures
        opt_ref_view(r) == spec_parse_catalog_ref(version@),
{
    if !str_starts_with(version, "catalog:") {
        return None;
    }
    proof {
        reveal_strlit("catalog:");
    }
    let n = version.unicode_len();
    let suffix = version.substring_char(8, n);
    proof {
        assert(suffix@ =~= version@.skip("catalog:"@.len() as int));
    }
    if suffix.unicode_len() == 0 {
        return Some(None);
    }
    if str_eq(suffix, "default") {
        return Some(None);
    }
    Some(Some(String::from_str(suffix)))
}

/// Every version string falls in exactly one class — catalog reference,
/// special protocol, or direct version — and the classifier agrees with the
/// parser: a string is a catalog reference exactly when parsing it succeeds.
pub proof fn lemma_version_classes(v: Seq<char>)
    ensures
        spec_is_catalog_ref(v) == (spec_parse_catalog_ref(v) is Some),
        !(spec_is_catalog_ref(v) && spec_is_special_protocol(v)),
        spec_is_direct_version(v) == (!spec_is_catalog_ref(v) && !spec_is_special_protocol(v)),
{
    reveal_strlit("catalog:");
    reveal_strlit("workspace:");
    reveal_strlit("link:");
    reveal_strlit("file:");
    reveal_strlit("git:");
    reveal_strlit("git+");
    reveal_strlit("http:");
    reveal_strlit("https:");
    if spec_is_catalog_ref(v) && spec_is_special_protocol(v) {
        lemma_prefix_first_char("catalog:"@, v);
        if "workspace:"@.is_prefix_of(v) {
            lemma_prefix_first_char("workspace:"@, v);
        } else if "link:"@.is_prefix_of(v) {
            lemma_prefix_first_char("link:"@, v);
        } else if "file:"@.is_prefix_of(v) {
            lemma_prefix_first_char("file:"@, v);
        } else if "git:"@.is_prefix_of(v) {
            lemma_prefix_first_char("git:"@, v);
        } else if "git+"@.is_prefix_of(v) {
            lemma_prefix_first_char("git+"@, v);
        } else if "http:"@.is_prefix_of(v) {
            lemma_prefix_first_char("http:"@, v);
        } else {
            lemma_prefix_first_char("https:"@, v);
        }
        assert(false);
    }
}

/// A nonempty prefix fixes the first character of the longer string.
proof fn lemma_prefix_first_char(p: Seq<char>, v: Seq<char>)
    requires
        p.is_prefix_of(v),
        p.len() > 0,
    ensures
        v.len() >= p.len(),
        v[0] == p[0],
{
    assert(p =~= v.subrange(0, p.len() as int));
    assert(p[0] == v.subrange(0, p.len() as int)[0]);
}

} // verus!
