//! Where things live on disk, as path segments: runtimes and the build tool
//! below the cache root, and one working directory per task below a
//! per-run temporary root.

use vstd::prelude::*;

use rand::Rng;

use crate::text::{copy_strings, text_views};

verus! {

/// The length of the random part of a run's temporary directory name.
pub const RUN_ID_LEN: usize = 12;

/// Whether `c` is an ASCII letter or digit.
pub open spec fn is_ascii_alphanumeric(c: char) -> bool {
    ('A' <= c && c <= 'Z') || ('a' <= c && c <= 'z') || ('0' <= c && c <= '9')
}

/// Relies on rand's `Alphanumeric` distribution, sampled `len` times from
/// the thread-local generator: each sample is one of the ASCII letters and
/// digits.
#[verifier::external_body]
fn random_alphanumeric(len: usize) -> (r: String)
    ensures
        r@.len() == len,
        forall|i: int| 0 <= i < r@.len() ==> is_ascii_alphanumeric(#[trigger] r@[i]),
{
    rand::thread_rng().sample_iter(&rand::distributions::Alphanumeric).take(len).map(char::from).collect()
}

/// The runtime root `<cache>/java`.
pub fn java_root(cache: &Vec<String>) -> (r: Vec<String>)
    ensures
        text_views(r@) == text_views(cache@).push("java"@),
{
    let mut r = copy_strings(cache);
    r.push(String::from_str("java"));
    assert(text_views(r@) =~= text_views(cache@).push("java"@));
    r
}

/// The cached build tool `<cache>/buildtools.jar`.
pub fn buildtools_jar(cache: &Vec<String>) -> (r: Vec<String>)
    ensures
        text_views(r@) == text_views(cache@).push("buildtools.jar"@),
{
    let mut r = copy_strings(cache);
    r.push(String::from_str("buildtools.jar"));
    assert(text_views(r@) =~= text_views(cache@).push("buildtools.jar"@));
    r
}

/// A fresh temporary root for one run, `<temp_dir>/<app_name>-<id>`, where
/// `id` is random, of ASCII letters and digits, so that runs do not collide.
pub fn new_run_root(temp_dir: &String, app_name: &str) -> (r: Vec<String>)
    ensures
        r@.len() == 2,
        r@[0]@ == temp_dir@,
        exists|id: Seq<char>|
            r@[1]@ == app_name@ + "-"@ + id && id.len() == RUN_ID_LEN && forall|i: int|
                0 <= i < id.len() ==> is_ascii_alphanumeric(#[trigger] id[i]),
{
    let id = random_alphanumeric(RUN_ID_LEN);
    let mut name = String::from_str(app_name);
    name.append("-");
    name.append(id.as_str());
    let mut r: Vec<String> = Vec::new();
    r.push(temp_dir.clone());
    r.push(name);
    assert(r@[1]@ == app_name@ + "-"@ + id@);
    r
}

/// The working directory of the task building `package_id`.
pub fn task_dir(run_root: &Vec<String>, package_id: &String) -> (r: Vec<String>)
    ensures
        text_views(r@) == text_views(run_root@).push(package_id@),
{
    let mut r = copy_strings(run_root);
    r.push(package_id.clone());
    assert(text_views(r@) =~= text_views(run_root@).push(package_id@));
    r
}

} // verus!
