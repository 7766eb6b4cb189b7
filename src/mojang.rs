//! The version catalog: resolving requested identifiers to catalog entries,
//! and gathering the package descriptors fetched for those entries.

use vstd::prelude::*;

use crate::distinct::{
    dedup, lemma_dedup_contains, lemma_dedup_disjoint_concat, lemma_dedup_no_duplicates, unique_ids,
};
use crate::error::RunError;
use crate::text::text_views;

verus! {

/// One entry of the version catalog: an identifier and where its package
/// descriptor is fetched from.
#[derive(Debug, PartialEq, Eq)]
pub struct Manifest {
    pub id: String,
    pub url: String,
}

/// A catalog entry as characters.
pub ghost struct ManifestView {
    pub id: Seq<char>,
    pub url: Seq<char>,
}

impl View for Manifest {
    type V = ManifestView;

    open spec fn view(&self) -> ManifestView {
        ManifestView { id: self.id@, url: self.url@ }
    }
}

impl Manifest {
    /// A copy of the entry.
    pub fn clone_entry(&self) -> (r: Manifest)
        ensures
            r@ == self@,
    {
        Manifest { id: self.id.clone(), url: self.url.clone() }
    }
}

/// The whole version catalog.
#[derive(Debug, PartialEq, Eq)]
pub struct VersionManifest {
    pub versions: Vec<Manifest>,
}

/// The runtime requirement of a package.
#[derive(Clone, Copy, Debug, PartialEq, Eq)]
pub struct JavaVersion {
    pub major_version: u8,
}

/// The descriptor of one version: its identifier and the major version of
/// the runtime its build needs.
#[derive(Debug, PartialEq, Eq)]
pub struct Package {
    pub java_version: JavaVersion,
    pub id: String,
}

/// The entries of `s` as characters.
pub open spec fn entry_views(s: Seq<Manifest>) -> Seq<ManifestView> {
    s.map_values(|m: Manifest| m@)
}

/// The first entry of `catalog` whose identifier is `id`.
pub open spec fn lookup(catalog: Seq<ManifestView>, id: Seq<char>) -> Option<ManifestView>
    decreases catalog.len(),
{
    if catalog.len() == 0 {
        None
    } else {
        match lookup(catalog.drop_last(), id) {
            Some(m) => Some(m),
            None => if catalog.last().id == id {
                Some(catalog.last())
            } else {
                None
            },
        }
    }
}

/// The entries of `ids`, one per identifier in order, or the first
/// identifier that `catalog` lacks.
pub open spec fn resolve_each(ids: Seq<Seq<char>>, catalog: Seq<ManifestView>) -> Result<
    Seq<ManifestView>,
    Seq<char>,
>
    decreases ids.len(),
{
    if ids.len() == 0 {
        Ok(seq![])
    } else {
        match resolve_each(ids.drop_last(), catalog) {
            Err(id) => Err(id),
            Ok(prefix) => match lookup(catalog, ids.last()) {
                Some(m) => Ok(prefix.push(m)),
                None => Err(ids.last()),
            },
        }
    }
}

/// Resolution of requested identifiers: repeats are dropped, keeping first
/// occurrences in order, then each identifier is looked up.
pub open spec fn resolve(ids: Seq<Seq<char>>, catalog: Seq<ManifestView>) -> Result<
    Seq<ManifestView>,
    Seq<char>,
> {
    resolve_each(dedup(ids), catalog)
}

/// Whether every identifier of `ids` has an entry in `catalog`.
pub open spec fn all_listed(ids: Seq<Seq<char>>, catalog: Seq<ManifestView>) -> bool {
    forall|i: int| 0 <= i < ids.len() ==> (#[trigger] lookup(catalog, ids[i])) is Some
}

/// The identifiers of `entries`.
pub open spec fn entry_ids(entries: Seq<ManifestView>) -> Seq<Seq<char>> {
    entries.map_values(|m: ManifestView| m.id)
}

/// A found entry has the identifier looked for.
pub proof fn lemma_lookup_id(catalog: Seq<ManifestView>, id: Seq<char>)
    ensures
        lookup(catalog, id) matches Some(m) ==> m.id == id,
    decreases catalog.len(),
{
    if catalog.len() > 0 {
        lemma_lookup_id(catalog.drop_last(), id);
    }
}

/// Once a prefix of the catalog has an entry for `id`, so has the whole
/// catalog, and it is the same entry.
proof fn lemma_lookup_prefix(catalog: Seq<ManifestView>, n: int, id: Seq<char>)
    requires
        0 <= n <= catalog.len(),
        lookup(catalog.subrange(0, n), id) is Some,
    ensures
        lookup(catalog, id) == lookup(catalog.subrange(0, n), id),
    decreases catalog.len() - n,
{
    if n < catalog.len() {
        let next = catalog.subrange(0, n + 1);
        assert(next.drop_last() == catalog.subrange(0, n));
        lemma_lookup_prefix(catalog, n + 1, id);
    } else {
        assert(catalog.subrange(0, n) == catalog);
    }
}

/// Once a prefix of the identifiers fails, the whole sequence fails with
/// the same identifier.
proof fn lemma_resolve_each_prefix(ids: Seq<Seq<char>>, n: int, catalog: Seq<ManifestView>)
    requires
        0 <= n <= ids.len(),
        resolve_each(ids.subrange(0, n), catalog) is Err,
    ensures
        resolve_each(ids, catalog) == resolve_each(ids.subrange(0, n), catalog),
    decreases ids.len() - n,
{
    if n < ids.len() {
        let next = ids.subrange(0, n + 1);
        assert(next.drop_last() == ids.subrange(0, n));
        lemma_resolve_each_prefix(ids, n + 1, catalog);
    } else {
        assert(ids.subrange(0, n) == ids);
    }
}

/// The index of the first entry of `catalog` with identifier `id`.
fn find_entry(catalog: &Vec<Manifest>, id: &String) -> (r: Option<usize>)
    ensures
        r matches Some(i) ==> i < catalog.len() && lookup(entry_views(catalog@), id@) == Some(
            catalog@[i as int]@,
        ),
        r is None ==> lookup(entry_views(catalog@), id@) is None,
{
    let ghost all = entry_views(catalog@);
    let mut i: usize = 0;
    while i < catalog.len()
        invariant
            i <= catalog.len(),
            all == entry_views(catalog@),
            lookup(all.subrange(0, i as int), id@) is None,
        decreases catalog.len() - i,
    {
        let ghost next = all.subrange(0, i + 1);
        assert(next.drop_last() == all.subrange(0, i as int));
        assert(next.last() == catalog@[i as int]@);
        if catalog[i].id == *id {
            proof {
                lemma_lookup_prefix(all, i + 1, id@);
            }
            return Some(i);
        }
        i += 1;
    }
    assert(all.subrange(0, i as int) == all);
    None
}

/// Resolves the requested identifiers against the catalog: repeats are
/// dropped, keeping first occurrences in order, and each identifier gets
/// the first catalog entry with that identifier. The first identifier
/// without an entry fails the whole call with `UnknownVersion`.
pub fn map_version_manifests(versions: &Vec<String>, catalog: &VersionManifest) -> (r: Result<
    Vec<Manifest>,
    RunError,
>)
    ensures
        match resolve(text_views(versions@), entry_views(catalog.versions@)) {
            Ok(entries) => r matches Ok(found) && entry_views(found@) == entries,
            Err(id) => r matches Err(RunError::UnknownVersion(s)) && s@ == id,
        },
{
    let ghost cat = entry_views(catalog.versions@);
    let ids = unique_ids(versions);
    let ghost wanted = text_views(ids@);
    let mut found: Vec<Manifest> = Vec::new();
    let mut i: usize = 0;
    assert(wanted.subrange(0, 0) == Seq::<Seq<char>>::empty());
    assert(entry_views(found@) == Seq::<ManifestView>::empty());
    while i < ids.len()
        invariant
            i <= ids.len(),
            cat == entry_views(catalog.versions@),
            wanted == text_views(ids@),
            wanted == dedup(text_views(versions@)),
            resolve_each(wanted.subrange(0, i as int), cat) == Ok::<Seq<ManifestView>, Seq<char>>(
                entry_views(found@),
            ),
        decreases ids.len() - i,
    {
        let ghost next = wanted.subrange(0, i + 1);
        assert(next.drop_last() == wanted.subrange(0, i as int));
        assert(next.last() == ids@[i as int]@);
        match find_entry(&catalog.versions, &ids[i]) {
            Some(k) => {
                let ghost before = found@;
                found.push(catalog.versions[k].clone_entry());
                assert(entry_views(found@) == entry_views(before).push(catalog.versions@[k as int]@));
            },
            None => {
                proof {
                    lemma_resolve_each_prefix(wanted, i + 1, cat);
                }
                return Err(RunError::UnknownVersion(ids[i].clone()));
            },
        }
        i += 1;
    }
    assert(wanted.subrange(0, i as int) == wanted);
    Ok(found)
}

/// The entry looked up for each identifier of `ids`.
pub open spec fn lookups(ids: Seq<Seq<char>>, catalog: Seq<ManifestView>) -> Seq<ManifestView> {
    ids.map_values(|id: Seq<char>| lookup(catalog, id)->Some_0)
}

/// When every identifier is listed, each resolves to its entry.
proof fn lemma_resolve_each_listed(ids: Seq<Seq<char>>, catalog: Seq<ManifestView>)
    requires
        all_listed(ids, catalog),
    ensures
        resolve_each(ids, catalog) == Ok::<Seq<ManifestView>, Seq<char>>(lookups(ids, catalog)),
    decreases ids.len(),
{
    if ids.len() > 0 {
        let p = ids.drop_last();
        assert forall|i: int| 0 <= i < p.len() implies (#[trigger] lookup(catalog, p[i])) is Some by {
            assert(p[i] == ids[i]);
        }
        lemma_resolve_each_listed(p, catalog);
        assert(lookup(catalog, ids[ids.len() - 1]) is Some);
        assert(lookups(ids, catalog) =~= lookups(p, catalog).push(lookup(catalog, ids.last())->Some_0));
    } else {
        assert(lookups(ids, catalog) =~= Seq::<ManifestView>::empty());
    }
}

/// Whatever the deduplication of `ids` holds is listed when `ids` is.
proof fn lemma_dedup_listed(ids: Seq<Seq<char>>, catalog: Seq<ManifestView>)
    requires
        all_listed(ids, catalog),
    ensures
        all_listed(dedup(ids), catalog),
{
    assert forall|i: int| 0 <= i < dedup(ids).len() implies (#[trigger] lookup(
        catalog,
        dedup(ids)[i],
    )) is Some by {
        let x = dedup(ids)[i];
        assert(dedup(ids).contains(x));
        lemma_dedup_contains(ids, x);
        let j = choose|j: int| 0 <= j < ids.len() && ids[j] == x;
        assert(lookup(catalog, ids[j]) is Some);
    }
}

/// Resolving the identifiers of two groups that share no identifier, all of
/// them listed in the catalog, succeeds for each group and for the two
/// together; the entries of both together are those of the first group
/// followed by those of the second, none of them twice.
pub proof fn lemma_resolve_disjoint_union(
    a: Seq<Seq<char>>,
    b: Seq<Seq<char>>,
    catalog: Seq<ManifestView>,
)
    requires
        all_listed(a, catalog),
        all_listed(b, catalog),
        forall|i: int, j: int| 0 <= i < a.len() && 0 <= j < b.len() ==> a[i] != b[j],
    ensures
        resolve(a, catalog) is Ok,
        resolve(b, catalog) is Ok,
        resolve(a + b, catalog) == Ok::<Seq<ManifestView>, Seq<char>>(
            resolve(a, catalog)->Ok_0 + resolve(b, catalog)->Ok_0,
        ),
        (resolve(a + b, catalog)->Ok_0).no_duplicates(),
{
    let da = dedup(a);
    let db = dedup(b);
    lemma_dedup_listed(a, catalog);
    lemma_dedup_listed(b, catalog);
    lemma_resolve_each_listed(da, catalog);
    lemma_resolve_each_listed(db, catalog);
    lemma_dedup_disjoint_concat(a, b);
    assert forall|i: int| 0 <= i < (da + db).len() implies (#[trigger] lookup(
        catalog,
        (da + db)[i],
    )) is Some by {
        if i < da.len() {
            assert((da + db)[i] == da[i]);
        } else {
            assert((da + db)[i] == db[i - da.len()]);
        }
    }
    lemma_resolve_each_listed(da + db, catalog);
    assert(lookups(da + db, catalog) =~= lookups(da, catalog) + lookups(db, catalog));
    let all = dedup(a + b);
    let entries = lookups(all, catalog);
    lemma_dedup_no_duplicates(a + b);
    assert forall|i: int, j: int| 0 <= i < entries.len() && 0 <= j < entries.len() && i != j
        implies entries[i] != entries[j] by {
        lemma_lookup_id(catalog, all[i]);
        lemma_lookup_id(catalog, all[j]);
    }
}

/// The packages fetched, in order, or the first failure among the fetches.
pub open spec fn gathered(results: Seq<Result<Package, RunError>>) -> Result<Seq<Package>, RunError>
    decreases results.len(),
{
    if results.len() == 0 {
        Ok(seq![])
    } else {
        match results[0] {
            Err(e) => Err(e),
            Ok(p) => match gathered(results.drop_first()) {
                Ok(rest) => Ok(seq![p] + rest),
                Err(e) => Err(e),
            },
        }
    }
}

/// Gathers the outcomes of fetching one package per catalog entry: all
/// packages when every fetch succeeded, else the first failure.
pub fn collect_packages(results: Vec<Result<Package, RunError>>) -> (r: Result<
    Vec<Package>,
    RunError,
>)
    ensures
        match gathered(results@) {
            Ok(packages) => r matches Ok(v) && v@ == packages,
            Err(e) => r == Err::<Vec<Package>, RunError>(e),
        },
{
    let mut rest = results;
    let mut packages: Vec<Package> = Vec::new();
    while rest.len() > 0
        invariant
            gathered(results@) == match gathered(rest@) {
                Ok(tail) => Ok(packages@ + tail),
                Err(e) => Err::<Seq<Package>, RunError>(e),
            },
        decreases rest.len(),
    {
        let ghost before = rest@;
        let item = rest.remove(0);
        assert(rest@ == before.drop_first());
        match item {
            Ok(p) => {
                let ghost old_packages = packages@;
                packages.push(p);
                assert(old_packages + (seq![before[0]->Ok_0] + gathered(rest@)->Ok_0) == packages@
                    + gathered(rest@)->Ok_0);
            },
            Err(e) => {
                return Err(e);
            },
        }
    }
    assert(packages@ + Seq::<Package>::empty() == packages@);
    Ok(packages)
}

} // verus!
