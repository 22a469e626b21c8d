//! The workspace catalog model: the default catalog and the named catalogs,
//! each an ordered name-to-version list, with pure lookups over them.

use vstd::prelude::*;

use crate::packages::pairs_view;
use crate::strutil::opt_view;
use crate::strutil::opts_view;
use crate::strutil::str_eq;

verus! {

/// One version pinned in the catalog: `None` names the default catalog,
/// `Some(name)` a named one.
#[derive(Debug, PartialEq, Eq)]
pub struct CatalogEntry {
    pub catalog_name: Option<String>,
    pub dependency_name: String,
}

/// Spec-level catalog entry.
pub struct CatalogEntryView {
    pub catalog_name: Option<Seq<char>>,
    pub dependency_name: Seq<char>,
}

impl View for CatalogEntry {
    type V = CatalogEntryView;

    open spec fn view(&self) -> CatalogEntryView {
        CatalogEntryView {
            catalog_name: opt_view(self.catalog_name),
            dependency_name: self.dependency_name@,
        }
    }
}

/// View of a vector of catalog entries.
pub open spec fn entries_view(s: Seq<CatalogEntry>) -> Seq<CatalogEntryView> {
    s.map_values(|e: CatalogEntry| e@)
}

/// The catalogs of a workspace: the default name-to-version list and the
/// named lists, in declared order.
#[derive(Debug)]
pub struct WorkspaceCatalogs {
    pub default: Vec<(String, String)>,
    pub named: Vec<(String, Vec<(String, String)>)>,
}

/// Spec-level catalogs.
pub struct CatalogsView {
    pub default: Seq<(Seq<char>, Seq<char>)>,
    pub named: Seq<(Seq<char>, Seq<(Seq<char>, Seq<char>)>)>,
}

impl View for WorkspaceCatalogs {
    type V = CatalogsView;

    open spec fn view(&self) -> CatalogsView {
        CatalogsView {
            default: pairs_view(self.default@),
            named: self.named@.map_values(
                |c: (String, Vec<(String, String)>)| (c.0@, pairs_view(c.1@)),
            ),
        }
    }
}

/// Whether the name-to-version list holds the key.
pub open spec fn spec_assoc_has(m: Seq<(Seq<char>, Seq<char>)>, key: Seq<char>) -> bool {
    exists|i: int| 0 <= i < m.len() && m[i].0 == key
}

/// The version pinned under the key: the first match. Under `spec_assoc_wf`
/// the first match is the only one (`lemma_assoc_get_unique`).
pub open spec fn spec_assoc_get(m: Seq<(Seq<char>, Seq<char>)>, key: Seq<char>) -> Option<
    Seq<char>,
>
    decreases m.len(),
{
    if m.len() == 0 {
        None
    } else if m[0].0 == key {
        Some(m[0].1)
    } else {
        spec_assoc_get(m.skip(1), key)
    }
}

/// The named catalog under the name: the first match. Under
/// `spec_catalogs_wf` the first match is the only one
/// (`lemma_named_get_unique`).
pub open spec fn spec_named_get(
    n: Seq<(Seq<char>, Seq<(Seq<char>, Seq<char>)>)>,
    name: Seq<char>,
) -> Option<Seq<(Seq<char>, Seq<char>)>>
    decreases n.len(),
{
    if n.len() == 0 {
        None
    } else if n[0].0 == name {
        Some(n[0].1)
    } else {
        spec_named_get(n.skip(1), name)
    }
}

/// The version a catalog entry pins, if the entry is present.
pub open spec fn spec_get_version(c: CatalogsView, e: CatalogEntryView) -> Option<Seq<char>> {
    match e.catalog_name {
        None => spec_assoc_get(c.default, e.dependency_name),
        Some(name) => match spec_named_get(c.named, name) {
            Some(m) => spec_assoc_get(m, e.dependency_name),
            None => None,
        },
    }
}

/// Every catalog that pins the dependency name: the default catalog first,
/// then the named catalogs in declared order.
pub open spec fn spec_find_named(
    n: Seq<(Seq<char>, Seq<(Seq<char>, Seq<char>)>)>,
    dep_name: Seq<char>,
) -> Seq<Option<Seq<char>>>
    decreases n.len(),
{
    if n.len() == 0 {
        Seq::empty()
    } else {
        spec_find_named(n.drop_last(), dep_name) + (if spec_assoc_has(n.last().1, dep_name) {
            seq![Some(n.last().0)]
        } else {
            Seq::empty()
        })
    }
}

/// See `spec_find_named`; the default catalog comes first.
pub open spec fn spec_find_dependency(c: CatalogsView, dep_name: Seq<char>) -> Seq<
    Option<Seq<char>>,
> {
    (if spec_assoc_has(c.default, dep_name) {
        seq![None]
    } else {
        Seq::empty()
    }) + spec_find_named(c.named, dep_name)
}

/// The entries of one catalog, in declared order.
pub open spec fn spec_catalog_entries(
    catalog_name: Option<Seq<char>>,
    m: Seq<(Seq<char>, Seq<char>)>,
) -> Seq<CatalogEntryView> {
    m.map_values(
        |p: (Seq<char>, Seq<char>)| CatalogEntryView {
            catalog_name: catalog_name,
            dependency_name: p.0,
        },
    )
}

/// The entries of the named catalogs, catalog by catalog in declared order.
pub open spec fn spec_named_entries(n: Seq<(Seq<char>, Seq<(Seq<char>, Seq<char>)>)>) -> Seq<
    CatalogEntryView,
>
    decreases n.len(),
{
    if n.len() == 0 {
        Seq::empty()
    } else {
        spec_named_entries(n.drop_last()) + spec_catalog_entries(
            Some(n.last().0),
            n.last().1,
        )
    }
}

/// Every (catalog, dependency) pair defined anywhere: the default catalog's
/// entries first, then each named catalog's, all in declared order.
pub open spec fn spec_all_entries(c: CatalogsView) -> Seq<CatalogEntryView> {
    spec_catalog_entries(None, c.default) + spec_named_entries(c.named)
}

/// A name-to-version list is well formed when it holds each key once, as a
/// mapping deserialized from a configuration document does.
pub open spec fn spec_assoc_wf(m: Seq<(Seq<char>, Seq<char>)>) -> bool {
    forall|i: int, j: int| 0 <= i < j < m.len() ==> m[i].0 != m[j].0
}

/// The catalogs are well formed when the default list, the list of catalog
/// names, and every named catalog's list each hold a key once. Catalogs
/// built from deserialized mappings satisfy this; the lemmas below rest the
/// first-match lookups and the entry universe on it.
pub open spec fn spec_catalogs_wf(c: CatalogsView) -> bool {
    &&& spec_assoc_wf(c.default)
    &&& (forall|i: int, j: int| 0 <= i < j < c.named.len() ==> c.named[i].0 != c.named[j].0)
    &&& (forall|i: int| 0 <= i < c.named.len() ==> spec_assoc_wf(#[trigger] c.named[i].1))
}

/// Under unique keys the first match is the only one: looking up any present
/// key returns exactly that key's version.
pub proof fn lemma_assoc_get_unique(m: Seq<(Seq<char>, Seq<char>)>, i: int)
    requires
        spec_assoc_wf(m),
        0 <= i < m.len(),
    ensures
        spec_assoc_get(m, m[i].0) == Some(m[i].1),
    decreases m.len(),
{
    if i > 0 {
        assert(m[0].0 != m[i].0);
        assert(spec_assoc_wf(m.skip(1))) by {
            assert forall|a: int, b: int| 0 <= a < b < m.skip(1).len() implies m.skip(1)[a].0
                != m.skip(1)[b].0 by {
                assert(m.skip(1)[a] == m[a + 1]);
                assert(m.skip(1)[b] == m[b + 1]);
            }
        }
        assert(m.skip(1)[i - 1] == m[i]);
        lemma_assoc_get_unique(m.skip(1), i - 1);
    }
}

/// Under unique catalog names, looking up any declared name returns exactly
/// that catalog.
pub proof fn lemma_named_get_unique(n: Seq<(Seq<char>, Seq<(Seq<char>, Seq<char>)>)>, i: int)
    requires
        forall|a: int, b: int| 0 <= a < b < n.len() ==> n[a].0 != n[b].0,
        0 <= i < n.len(),
    ensures
        spec_named_get(n, n[i].0) == Some(n[i].1),
    decreases n.len(),
{
    if i > 0 {
        assert(n[0].0 != n[i].0);
        assert forall|a: int, b: int| 0 <= a < b < n.skip(1).len() implies n.skip(1)[a].0
            != n.skip(1)[b].0 by {
            assert(n.skip(1)[a] == n[a + 1]);
            assert(n.skip(1)[b] == n[b + 1]);
        }
        assert(n.skip(1)[i - 1] == n[i]);
        lemma_named_get_unique(n.skip(1), i - 1);
    }
}

/// The entry at one position of a catalog's list.
spec fn entry_of(catalog_name: Option<Seq<char>>, dep_name: Seq<char>) -> CatalogEntryView {
    CatalogEntryView { catalog_name: catalog_name, dependency_name: dep_name }
}

proof fn lemma_named_entries_props(n: Seq<(Seq<char>, Seq<(Seq<char>, Seq<char>)>)>)
    requires
        forall|a: int, b: int| 0 <= a < b < n.len() ==> n[a].0 != n[b].0,
        forall|i: int| 0 <= i < n.len() ==> spec_assoc_wf(#[trigger] n[i].1),
    ensures
        spec_named_entries(n).no_duplicates(),
        forall|k: int|
            #![trigger spec_named_entries(n)[k]]
            0 <= k < spec_named_entries(n).len() ==> exists|i: int, j: int|
                #![trigger n[i].1[j]]
                0 <= i < n.len() && 0 <= j < n[i].1.len() && spec_named_entries(n)[k] == entry_of(
                    Some(n[i].0),
                    n[i].1[j].0,
                ),
    decreases n.len(),
{
    if n.len() > 0 {
        let m = n.drop_last();
        let last = n.last();
        assert(forall|a: int| 0 <= a < m.len() ==> m[a] == n[a]);
        lemma_named_entries_props(m);
        let em = spec_named_entries(m);
        let ce = spec_catalog_entries(Some(last.0), last.1);
        let whole = spec_named_entries(n);
        assert(whole == em + ce);
        assert(spec_assoc_wf(last.1));
        assert(forall|j: int| 0 <= j < ce.len() ==> ce[j] == entry_of(Some(last.0), last.1[j].0));
        // an entry of an earlier catalog never equals an entry of the last:
        // the catalog names differ
        assert forall|k: int, l: int| 0 <= k < em.len() && 0 <= l < ce.len() implies em[k]
            != ce[l] by {
            let (i, j) = choose|i: int, j: int|
                #![trigger m[i].1[j]]
                0 <= i < m.len() && 0 <= j < m[i].1.len() && em[k] == entry_of(
                    Some(m[i].0),
                    m[i].1[j].0,
                );
            assert(n[i].0 != last.0);
        }
        assert forall|p: int, q: int|
            0 <= p < whole.len() && 0 <= q < whole.len() && p != q implies whole[p]
            != whole[q] by {
            if p < em.len() && q < em.len() {
                assert(whole[p] == em[p]);
                assert(whole[q] == em[q]);
            } else if p >= em.len() && q >= em.len() {
                let a = p - em.len();
                let b = q - em.len();
                assert(whole[p] == ce[a]);
                assert(whole[q] == ce[b]);
                assert(last.1[a].0 != last.1[b].0);
            } else if p < em.len() {
                assert(whole[p] == em[p]);
                assert(whole[q] == ce[q - em.len()]);
            } else {
                assert(whole[p] == ce[p - em.len()]);
                assert(whole[q] == em[q]);
            }
        }
        assert forall|k: int| #![trigger whole[k]] 0 <= k < whole.len() implies exists|
            i: int,
            j: int,
        |
            #![trigger n[i].1[j]]
            0 <= i < n.len() && 0 <= j < n[i].1.len() && whole[k] == entry_of(
                Some(n[i].0),
                n[i].1[j].0,
            ) by {
            if k < em.len() {
                let (i, j) = choose|i: int, j: int|
                    #![trigger m[i].1[j]]
                    0 <= i < m.len() && 0 <= j < m[i].1.len() && em[k] == entry_of(
                        Some(m[i].0),
                        m[i].1[j].0,
                    );
                assert(whole[k] == em[k]);
                assert(0 <= i < n.len() && 0 <= j < n[i].1.len() && whole[k] == entry_of(
                    Some(n[i].0),
                    n[i].1[j].0,
                ));
            } else {
                let i = n.len() - 1;
                let j = k - em.len();
                assert(whole[k] == ce[j]);
                assert(0 <= i < n.len() && 0 <= j < n[i].1.len() && whole[k] == entry_of(
                    Some(n[i].0),
                    n[i].1[j].0,
                ));
            }
        }
    }
}

/// Under well-formed catalogs the entry universe holds each (catalog,
/// dependency) pair at most once, and every entry in it pins a version: the
/// unused-entry sweep warns at most once per pair, and each warning carries
/// the pinned version.
pub proof fn lemma_all_entries_wf(c: CatalogsView)
    requires
        spec_catalogs_wf(c),
    ensures
        spec_all_entries(c).no_duplicates(),
        forall|k: int|
            0 <= k < spec_all_entries(c).len() ==> (spec_get_version(
                c,
                #[trigger] spec_all_entries(c)[k],
            ) is Some),
{
    let e0 = spec_catalog_entries(None, c.default);
    let en = spec_named_entries(c.named);
    let whole = spec_all_entries(c);
    assert(whole == e0 + en);
    lemma_named_entries_props(c.named);
    assert(forall|a: int| 0 <= a < e0.len() ==> e0[a] == entry_of(None, c.default[a].0));
    assert forall|p: int, q: int|
        0 <= p < whole.len() && 0 <= q < whole.len() && p != q implies whole[p] != whole[q] by {
        if p < e0.len() && q < e0.len() {
            assert(whole[p] == e0[p]);
            assert(whole[q] == e0[q]);
            if p < q {
                assert(c.default[p].0 != c.default[q].0);
            } else {
                assert(c.default[q].0 != c.default[p].0);
            }
        } else if p >= e0.len() && q >= e0.len() {
            assert(whole[p] == en[p - e0.len()]);
            assert(whole[q] == en[q - e0.len()]);
        } else {
            // one entry lies in the default catalog, the other in a named
            // one: the catalog names differ in kind
            let (dk, nk) = if p < e0.len() {
                (p, q - e0.len())
            } else {
                (q, p - e0.len())
            };
            let (i, j) = choose|i: int, j: int|
                #![trigger c.named[i].1[j]]
                0 <= i < c.named.len() && 0 <= j < c.named[i].1.len() && en[nk] == entry_of(
                    Some(c.named[i].0),
                    c.named[i].1[j].0,
                );
            assert(e0[dk].catalog_name is None);
            assert(en[nk].catalog_name is Some);
        }
    }
    assert forall|k: int| 0 <= k < whole.len() implies (spec_get_version(c, whole[k]) is Some) by {
        if k < e0.len() {
            assert(whole[k] == e0[k]);
            lemma_assoc_get_unique(c.default, k);
        } else {
            assert(whole[k] == en[k - e0.len()]);
            let (i, j) = choose|i: int, j: int|
                #![trigger c.named[i].1[j]]
                0 <= i < c.named.len() && 0 <= j < c.named[i].1.len() && en[k - e0.len()]
                    == entry_of(Some(c.named[i].0), c.named[i].1[j].0);
            lemma_named_get_unique(c.named, i);
            lemma_assoc_get_unique(c.named[i].1, j);
        }
    }
}

/// Whether the exec name-to-version list holds the key.
fn assoc_has(m: &Vec<(String, String)>, key: &str) -> (r: bool)
    ensures
        r == spec_assoc_has(pairs_view(m@), key@),
{
    let mut i: usize = 0;
    while i < m.len()
        invariant
            i <= m.len(),
            forall|j: int| 0 <= j < i ==> pairs_view(m@)[j].0 != key@,
        decreases m.len() - i,
    {
        let p = &m[i];
        if str_eq(p.0.as_str(), key) {
            assert(pairs_view(m@)[i as int].0 == key@);
            return true;
        }
        assert(pairs_view(m@)[i as int].0 == m@[i as int].0@);
        i += 1;
    }
    false
}

/// The version under the key in the exec list, cloned.
fn assoc_get(m: &Vec<(String, String)>, key: &str) -> (r: Option<String>)
    ensures
        opt_view(r) == spec_assoc_get(pairs_view(m@), key@),
{
    assert(pairs_view(m@).skip(0) =~= pairs_view(m@));
    let mut i: usize = 0;
    while i < m.len()
        invariant
            i <= m.len(),
            spec_assoc_get(pairs_view(m@), key@) == spec_assoc_get(
                pairs_view(m@).skip(i as int),
                key@,
            ),
        decreases m.len() - i,
    {
        let p = &m[i];
        let ghost rest = pairs_view(m@).skip(i as int);
        proof {
            assert(rest[0] == pairs_view(m@)[i as int]);
            assert(rest.skip(1) =~= pairs_view(m@).skip(i as int + 1));
        }
        if str_eq(p.0.as_str(), key) {
            return Some(p.1.clone());
        }
        i += 1;
    }
    assert(pairs_view(m@).skip(i as int) =~= Seq::<(Seq<char>, Seq<char>)>::empty());
    None
}

fn push_opt(r: &mut Vec<Option<String>>, o: Option<String>)
    ensures
        opts_view(final(r)@) == opts_view(old(r)@).push(opt_view(o)),
{
    let ghost go = opt_view(o);
    r.push(o);
    assert(opts_view(r@) =~= opts_view(old(r)@).push(go));
}

pub(crate) fn push_entry(r: &mut Vec<CatalogEntry>, e: CatalogEntry)
    ensures
        entries_view(final(r)@) == entries_view(old(r)@).push(e@),
{
    let ghost ge = e@;
    r.push(e);
    assert(entries_view(r@) =~= entries_view(old(r)@).push(ge));
}

impl WorkspaceCatalogs {
    /// Whether the default catalog pins the dependency name.
    pub fn has_default_entry(&self, dep_name: &str) -> (r: bool)
        ensures
            r == spec_assoc_has(self@.default, dep_name@),
    {
        assoc_has(&self.default, dep_name)
    }

    /// The named catalog's position, if a catalog of that name is declared.
    fn named_index(&self, catalog_name: &str) -> (r: Option<usize>)
        ensures
            match r {
                Some(i) => i < self.named@.len() && spec_named_get(self@.named, catalog_name@)
                    == Some(self@.named[i as int].1) && self@.named[i as int].0 == catalog_name@,
                None => spec_named_get(self@.named, catalog_name@) is None,
            },
    {
        assert(self@.named.skip(0) =~= self@.named);
        let mut i: usize = 0;
        while i < self.named.len()
            invariant
                i <= self.named.len(),
                spec_named_get(self@.named, catalog_name@) == spec_named_get(
                    self@.named.skip(i as int),
                    catalog_name@,
                ),
            decreases self.named.len() - i,
        {
            let c = &self.named[i];
            let ghost rest = self@.named.skip(i as int);
            proof {
                assert(rest[0] == self@.named[i as int]);
                assert(rest.skip(1) =~= self@.named.skip(i as int + 1));
            }
            if str_eq(c.0.as_str(), catalog_name) {
                return Some(i);
            }
            i += 1;
        }
        assert(self@.named.skip(i as int) =~= Seq::<
            (Seq<char>, Seq<(Seq<char>, Seq<char>)>),
        >::empty());
        None
    }

    /// Whether a named catalog of this name is declared.
    pub fn has_catalog(&self, catalog_name: &str) -> (r: bool)
        ensures
            r == (spec_named_get(self@.named, catalog_name@) is Some),
    {
        self.named_index(catalog_name).is_some()
    }

    /// Whether the named catalog exists and pins the dependency name.
    pub fn has_named_entry(&self, catalog_name: &str, dep_name: &str) -> (r: bool)
        ensures
            r == match spec_named_get(self@.named, catalog_name@) {
                Some(m) => spec_assoc_has(m, dep_name@),
                None => false,
            },
    {
        match self.named_index(catalog_name) {
            Some(i) => assoc_has(&self.named[i].1, dep_name),
            None => false,
        }
    }

    /// The version the entry pins, or `None` if the entry is absent.
    pub fn get_version(&self, entry: &CatalogEntry) -> (r: Option<String>)
        ensures
            opt_view(r) == spec_get_version(self@, entry@),
    {
        match &entry.catalog_name {
            None => assoc_get(&self.default, entry.dependency_name.as_str()),
            Some(name) => match self.named_index(name.as_str()) {
                Some(i) => assoc_get(&self.named[i].1, entry.dependency_name.as_str()),
                None => None,
            },
        }
    }

    /// Every catalog that pins the dependency name, default first, named
    /// catalogs in declared order.
    pub fn find_dependency(&self, dep_name: &str) -> (r: Vec<Option<String>>)
        ensures
            opts_view(r@) == spec_find_dependency(self@, dep_name@),
    {
        let mut r: Vec<Option<String>> = Vec::new();
        let ghost head = if spec_assoc_has(self@.default, dep_name@) {
            seq![Option::<Seq<char>>::None]
        } else {
            Seq::<Option<Seq<char>>>::empty()
        };
        assert(opts_view(r@) =~= Seq::<Option<Seq<char>>>::empty());
        if self.has_default_entry(dep_name) {
            push_opt(&mut r, None);
        }
        proof {
            assert(opts_view(r@) =~= head);
            assert(self@.named.take(0) =~= Seq::<
                (Seq<char>, Seq<(Seq<char>, Seq<char>)>),
            >::empty());
            assert(opts_view(r@) =~= head + spec_find_named(self@.named.take(0), dep_name@));
        }
        let mut i: usize = 0;
        while i < self.named.len()
            invariant
                i <= self.named.len(),
                head == (if spec_assoc_has(self@.default, dep_name@) {
                    seq![Option::<Seq<char>>::None]
                } else {
                    Seq::<Option<Seq<char>>>::empty()
                }),
                opts_view(r@) == head + spec_find_named(self@.named.take(i as int), dep_name@),
            decreases self.named.len() - i,
        {
            let c = &self.named[i];
            if assoc_has(&c.1, dep_name) {
                push_opt(&mut r, Some(c.0.clone()));
            }
            proof {
                let pre = self@.named.take(i as int + 1);
                assert(pre.drop_last() =~= self@.named.take(i as int));
                assert(pre.last() == self@.named[i as int]);
                assert(opts_view(r@) =~= head + spec_find_named(pre, dep_name@));
            }
            i += 1;
        }
        proof {
            assert(self@.named.take(self.named@.len() as int) =~= self@.named);
        }
        r
    }

    /// Every (catalog, dependency) pair defined anywhere, default catalog
    /// first, then the named catalogs in declared order.
    pub fn all_entries(&self) -> (r: Vec<CatalogEntry>)
        ensures
            entries_view(r@) == spec_all_entries(self@),
    {
        let mut r: Vec<CatalogEntry> = Vec::new();
        assert(entries_view(r@) =~= spec_catalog_entries(None, self@.default.take(0)));
        let mut i: usize = 0;
        while i < self.default.len()
            invariant
                i <= self.default.len(),
                entries_view(r@) == spec_catalog_entries(None, self@.default.take(i as int)),
            decreases self.default.len() - i,
        {
            let p = &self.default[i];
            push_entry(&mut r, CatalogEntry { catalog_name: None, dependency_name: p.0.clone() });
            proof {
                let pre = self@.default.take(i as int + 1);
                assert(pre.drop_last() =~= self@.default.take(i as int));
                assert(pre.last() == self@.default[i as int]);
                assert(entries_view(r@) =~= spec_catalog_entries(None, pre));
            }
            i += 1;
        }
        proof {
            assert(self@.default.take(self.default@.len() as int) =~= self@.default);
            assert(self@.named.take(0) =~= Seq::<
                (Seq<char>, Seq<(Seq<char>, Seq<char>)>),
            >::empty());
            assert(entries_view(r@) =~= spec_catalog_entries(None, self@.default)
                + spec_named_entries(self@.named.take(0)));
        }
        let mut ci: usize = 0;
        while ci < self.named.len()
            invariant
                ci <= self.named.len(),
                entries_view(r@) == spec_catalog_entries(None, self@.default)
                    + spec_named_entries(self@.named.take(ci as int)),
            decreases self.named.len() - ci,
        {
            let ghost base = entries_view(r@);
            let c = &self.named[ci];
            assert(pairs_view(c.1@).take(0) =~= Seq::<(Seq<char>, Seq<char>)>::empty());
            assert(base + spec_catalog_entries(Some(c.0@), pairs_view(c.1@).take(0)) =~= base);
            let mut i: usize = 0;
            while i < c.1.len()
                invariant
                    i <= c.1.len(),
                    ci < self.named@.len(),
                    *c == self.named@[ci as int],
                    base == spec_catalog_entries(None, self@.default) + spec_named_entries(
                        self@.named.take(ci as int),
                    ),
                    entries_view(r@) == base + spec_catalog_entries(
                        Some(c.0@),
                        pairs_view(c.1@).take(i as int),
                    ),
                decreases c.1.len() - i,
            {
                let p = &c.1[i];
                push_entry(
                    &mut r,
                    CatalogEntry { catalog_name: Some(c.0.clone()), dependency_name: p.0.clone() },
                );
                proof {
                    let pre = pairs_view(c.1@).take(i as int + 1);
                    assert(pre.drop_last() =~= pairs_view(c.1@).take(i as int));
                    assert(pre.last() == pairs_view(c.1@)[i as int]);
                    assert(pairs_view(c.1@)[i as int].0 == c.1@[i as int].0@);
                    assert(entries_view(r@) =~= base + spec_catalog_entries(Some(c.0@), pre));
                }
                i += 1;
            }
            proof {
                let pre = self@.named.take(ci as int + 1);
                assert(pre.drop_last() =~= self@.named.take(ci as int));
                assert(pre.last() == self@.named[ci as int]);
                assert(self@.named[ci as int] == (c.0@, pairs_view(c.1@)));
                assert(pairs_view(c.1@).take(c.1@.len() as int) =~= pairs_view(c.1@));
                assert(entries_view(r@) =~= spec_catalog_entries(None, self@.default)
                    + spec_named_entries(pre));
            }
            ci += 1;
        }
        proof {
            assert(self@.named.take(self.named@.len() as int) =~= self@.named);
        }
        r
    }
}

} // verus!
