//! Runtime provisioning decisions: which major versions the packages need,
//! which of them are missing on disk, where each is fetched from, how a
//! download is unpacked, and where the runtime's executable ends up.

use vstd::prelude::*;

use crate::distinct::{dedup, lemma_dedup_contains, lemma_dedup_no_duplicates, unique_majors};
use crate::error::RunError;
use crate::mojang::Package;
use crate::os::{ArchiveFormat, OS};
use crate::text::{copy_strings, decimal, decimal_string, text_views};

verus! {

/// The runtime major versions that the distribution service offers.
#[derive(Debug, PartialEq, Eq)]
pub struct Releases {
    pub available_releases: Vec<u8>,
}

/// A provisioned runtime: its major version and the path segments of its
/// executable.
#[derive(Debug, PartialEq, Eq)]
pub struct InstalledRuntime {
    pub major_version: u8,
    pub executable: Vec<String>,
}

/// The runtime major version each package needs, in package order.
pub open spec fn majors_of(packages: Seq<Package>) -> Seq<u8> {
    packages.map_values(|p: Package| p.java_version.major_version)
}

/// The versions of `majors` that `installed` lacks, in order.
pub open spec fn not_installed(majors: Seq<u8>, installed: Seq<u8>) -> Seq<u8>
    decreases majors.len(),
{
    if majors.len() == 0 {
        majors
    } else {
        let prefix = not_installed(majors.drop_last(), installed);
        if installed.contains(majors.last()) {
            prefix
        } else {
            prefix.push(majors.last())
        }
    }
}

/// Where the runtime of a major version is fetched from.
pub open spec fn spec_download_url(major: u8, os: OS, arch: Seq<char>) -> Seq<char> {
    "https://api.adoptium.net/v3/binary/latest/"@ + decimal(major as nat) + "/ga/"@
        + os.spec_adoptium_name() + "/"@ + arch + "/jdk/hotspot/normal/eclipse"@
}

/// Whether an HTTP status is a success (2xx).
pub open spec fn is_success_status(status: u16) -> bool {
    200 <= status <= 299
}

/// The distinct runtime major versions that `packages` need, in order of
/// first need.
pub fn distinct_majors(packages: &Vec<Package>) -> (r: Vec<u8>)
    ensures
        r@ == dedup(majors_of(packages@)),
{
    let mut majors: Vec<u8> = Vec::new();
    let mut i: usize = 0;
    while i < packages.len()
        invariant
            i <= packages.len(),
            majors@ == majors_of(packages@.subrange(0, i as int)),
        decreases packages.len() - i,
    {
        majors.push(packages[i].java_version.major_version);
        assert(majors_of(packages@.subrange(0, i + 1)) =~= majors_of(
            packages@.subrange(0, i as int),
        ).push(packages@[i as int].java_version.major_version));
        i += 1;
    }
    assert(packages@.subrange(0, i as int) == packages@);
    unique_majors(&majors)
}

/// Whether `v` holds `x`.
fn holds(v: &Vec<u8>, x: u8) -> (r: bool)
    ensures
        r == v@.contains(x),
{
    let mut i: usize = 0;
    while i < v.len()
        invariant
            i <= v.len(),
            forall|j: int| 0 <= j < i ==> v@[j] != x,
        decreases v.len() - i,
    {
        if v[i] == x {
            assert(v@[i as int] == x);
            return true;
        }
        i += 1;
    }
    false
}

/// The first of `majors` that the distribution service does not offer.
pub fn first_unavailable(majors: &Vec<u8>, releases: &Releases) -> (r: Option<u8>)
    ensures
        r is None <==> (forall|i: int|
            0 <= i < majors.len() ==> releases.available_releases@.contains(#[trigger] majors@[i])),
        r matches Some(v) ==> exists|i: int|
            0 <= i < majors.len() && majors@[i] == v && !releases.available_releases@.contains(v)
                && forall|j: int| 0 <= j < i ==> releases.available_releases@.contains(
                #[trigger] majors@[j],
            ),
{
    let mut i: usize = 0;
    while i < majors.len()
        invariant
            i <= majors.len(),
            forall|j: int|
                0 <= j < i ==> releases.available_releases@.contains(#[trigger] majors@[j]),
        decreases majors.len() - i,
    {
        if !holds(&releases.available_releases, majors[i]) {
            assert(majors@[i as int] == majors[i as int]);
            return Some(majors[i]);
        }
        i += 1;
    }
    None
}

/// The versions of `majors` that still have to be downloaded, each once, in
/// order of first occurrence, given the versions `installed` whose install
/// directories are present and non-empty.
pub fn missing_versions(majors: &Vec<u8>, installed: &Vec<u8>) -> (r: Vec<u8>)
    ensures
        r@ == dedup(not_installed(majors@, installed@)),
        r@.no_duplicates(),
{
    let mut r: Vec<u8> = Vec::new();
    let mut i: usize = 0;
    while i < majors.len()
        invariant
            i <= majors.len(),
            r@ == dedup(not_installed(majors@.subrange(0, i as int), installed@)),
        decreases majors.len() - i,
    {
        let ghost prefix = majors@.subrange(0, i as int);
        let ghost next = majors@.subrange(0, i + 1);
        assert(next.drop_last() == prefix);
        let m = majors[i];
        if !holds(installed, m) {
            let ghost np = not_installed(prefix, installed@);
            assert(not_installed(next, installed@) == np.push(m));
            assert(np.push(m).drop_last() == np);
            proof {
                lemma_dedup_contains(np, m);
            }
            if !holds(&r, m) {
                r.push(m);
            }
        }
        i += 1;
    }
    assert(majors@.subrange(0, i as int) == majors@);
    proof {
        lemma_dedup_no_duplicates(not_installed(majors@, installed@));
    }
    r
}

/// Each version is installed already or among those found missing.
proof fn lemma_installed_or_missing(majors: Seq<u8>, installed: Seq<u8>, i: int)
    requires
        0 <= i < majors.len(),
    ensures
        installed.contains(majors[i]) || not_installed(majors, installed).contains(majors[i]),
    decreases majors.len(),
{
    let p = majors.drop_last();
    let np = not_installed(p, installed);
    if i < majors.len() - 1 {
        assert(majors[i] == p[i]);
        lemma_installed_or_missing(p, installed, i);
        if np.contains(majors[i]) {
            let k = choose|k: int| 0 <= k < np.len() && np[k] == majors[i];
            if !installed.contains(majors.last()) {
                assert(np.push(majors.last())[k] == majors[i]);
            }
        }
    } else if !installed.contains(majors.last()) {
        assert(np.push(majors.last())[np.len() as int] == majors[i]);
    }
}

/// Nothing is missing when every version is installed.
proof fn lemma_nothing_missing(majors: Seq<u8>, installed: Seq<u8>)
    requires
        forall|i: int| 0 <= i < majors.len() ==> installed.contains(#[trigger] majors[i]),
    ensures
        not_installed(majors, installed).len() == 0,
    decreases majors.len(),
{
    if majors.len() > 0 {
        let p = majors.drop_last();
        assert forall|i: int| 0 <= i < p.len() implies installed.contains(#[trigger] p[i]) by {
            assert(p[i] == majors[i]);
        }
        lemma_nothing_missing(p, installed);
        assert(installed.contains(majors[majors.len() - 1]));
    }
}

/// A version found installed is never downloaded.
pub proof fn lemma_installed_not_downloaded(majors: Seq<u8>, installed: Seq<u8>, v: u8)
    requires
        installed.contains(v),
    ensures
        !not_installed(majors, installed).contains(v),
        !dedup(not_installed(majors, installed)).contains(v),
    decreases majors.len(),
{
    lemma_dedup_contains(not_installed(majors, installed), v);
    if majors.len() > 0 {
        let p = majors.drop_last();
        let np = not_installed(p, installed);
        lemma_installed_not_downloaded(p, installed, v);
        if !installed.contains(majors.last()) && np.push(majors.last()).contains(v) {
            let k = choose|k: int| 0 <= k < np.len() + 1 && np.push(majors.last())[k] == v;
            if k < np.len() {
                assert(np[k] == v);
            }
        }
    }
}

/// Provisioning twice against the same install root downloads each version
/// at most once: once the versions a first pass found missing are
/// installed, a second pass over the same versions finds none missing.
pub proof fn lemma_provisioning_idempotent(majors: Seq<u8>, installed: Seq<u8>)
    ensures
        dedup(not_installed(majors, installed + dedup(not_installed(majors, installed)))).len()
            == 0,
{
    let missing = dedup(not_installed(majors, installed));
    let after = installed + missing;
    assert forall|i: int| 0 <= i < majors.len() implies after.contains(#[trigger] majors[i]) by {
        lemma_installed_or_missing(majors, installed, i);
        lemma_dedup_contains(not_installed(majors, installed), majors[i]);
        if installed.contains(majors[i]) {
            let k = choose|k: int| 0 <= k < installed.len() && installed[k] == majors[i];
            assert(after[k] == majors[i]);
        } else {
            let k = choose|k: int| 0 <= k < missing.len() && missing[k] == majors[i];
            assert(after[installed.len() + k] == majors[i]);
        }
    }
    lemma_nothing_missing(majors, after);
    assert(dedup(not_installed(majors, after)) == not_installed(majors, after));
}

/// The address the runtime of `major` is downloaded from, for the platform
/// `os` and the CPU architecture `arch`.
pub fn download_url(major: u8, os: OS, arch: &str) -> (r: String)
    ensures
        r@ == spec_download_url(major, os, arch@),
{
    let mut url = String::from_str("https://api.adoptium.net/v3/binary/latest/");
    let digits = decimal_string(major as u64);
    url.append(digits.as_str());
    url.append("/ga/");
    url.append(os.adoptium_name());
    url.append("/");
    url.append(arch);
    url.append("/jdk/hotspot/normal/eclipse");
    url
}

/// What to do with the answer to a runtime download: a 2xx status is
/// unpacked in the platform's archive format; any other status fails with
/// `DownloadFailed` before an install directory is created.
pub fn check_download(major: u8, os: OS, status: u16) -> (r: Result<ArchiveFormat, RunError>)
    ensures
        is_success_status(status) ==> r == Ok::<ArchiveFormat, RunError>(os.spec_archive_format()),
        !is_success_status(status) ==> (r matches Err(RunError::DownloadFailed { major: m, status: s })
            && m == major && s == status),
{
    if 200 <= status && status <= 299 {
        Ok(os.archive_format())
    } else {
        Err(RunError::DownloadFailed { major, status })
    }
}

/// The install directory of `major` below the runtime root `java_root`.
pub fn install_dir(java_root: &Vec<String>, major: u8) -> (r: Vec<String>)
    ensures
        text_views(r@) == text_views(java_root@).push(decimal(major as nat)),
{
    let mut r = copy_strings(java_root);
    r.push(decimal_string(major as u64));
    assert(text_views(r@) =~= text_views(java_root@).push(decimal(major as nat)));
    r
}

/// The runtime installed for `major` below `java_root`, given the names of
/// the entries of its install directory: the archive must have produced a
/// single top-level directory, into which the platform's executable layout
/// leads; anything else is `MalformedArchive`.
pub fn get_java_install(os: OS, major: u8, java_root: &Vec<String>, entries: &Vec<String>) -> (r:
    Result<InstalledRuntime, RunError>)
    ensures
        entries.len() != 1 ==> (r matches Err(RunError::MalformedArchive(m)) && m == major),
        entries.len() == 1 ==> (r matches Ok(rt) && rt.major_version == major && text_views(
            rt.executable@,
        ) == text_views(java_root@).push(decimal(major as nat)).push(entries@[0]@)
            + os.executable_layout()),
{
    if entries.len() != 1 {
        return Err(RunError::MalformedArchive(major));
    }
    let mut top = install_dir(java_root, major);
    let ghost base = text_views(top@);
    top.push(entries[0].clone());
    assert(text_views(top@) =~= base.push(entries@[0]@));
    Ok(InstalledRuntime { major_version: major, executable: os.java_dir(&top) })
}

} // verus!
