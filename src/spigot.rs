//! The build tool's host: the user agent its requests carry, and the check
//! of requested versions against the list of versions it supports.

use vstd::prelude::*;

use crate::text::chars_of;

verus! {

/// `needle` occurs in `hay` as a run of consecutive characters.
pub open spec fn occurs_in(needle: Seq<char>, hay: Seq<char>) -> bool {
    exists|i: int|
        0 <= i && i + needle.len() <= hay.len() && #[trigger] hay.subrange(i, i + needle.len())
            == needle
}

/// Whether `needle` occurs in `hay` starting at position `i`.
fn occurs_at(hay: &Vec<char>, needle: &Vec<char>, i: usize) -> (r: bool)
    requires
        i + needle.len() <= hay.len(),
    ensures
        r == (hay@.subrange(i as int, i + needle.len()) == needle@),
{
    let mut j: usize = 0;
    while j < needle.len()
        invariant
            j <= needle.len(),
            i + needle.len() <= hay.len(),
            forall|k: int| 0 <= k < j ==> hay@[i + k] == needle@[k],
        decreases needle.len() - j,
    {
        if hay[i + j] != needle[j] {
            assert(hay@.subrange(i as int, i + needle.len())[j as int] != needle@[j as int]);
            return false;
        }
        j += 1;
    }
    assert(hay@.subrange(i as int, i + needle.len()) =~= needle@);
    true
}

/// Whether `needle` occurs in `hay` as a run of consecutive characters.
pub fn text_contains(hay: &str, needle: &str) -> (r: bool)
    ensures
        r == occurs_in(needle@, hay@),
{
    let h = chars_of(hay);
    let n = chars_of(needle);
    if n.len() > h.len() {
        return false;
    }
    let last = h.len() - n.len();
    let mut i: usize = 0;
    while i <= last
        invariant
            h@ == hay@,
            n@ == needle@,
            last == h.len() - n.len(),
            i <= last + 1,
            forall|k: int|
                0 <= k < i ==> #[trigger] hay@.subrange(k, k + needle@.len()) != needle@,
        decreases last + 1 - i,
    {
        if occurs_at(&h, &n, i) {
            return true;
        }
        if i == last {
            return false;
        }
        i += 1;
    }
    false
}

/// The user agent `<name>/<version>` of the requests to the build tool's
/// host.
pub fn user_agent(name: &str, version: &str) -> (r: String)
    ensures
        r@ == name@ + "/"@ + version@,
{
    let mut r = String::from_str(name);
    r.append("/");
    r.append(version);
    r
}

/// The first requested version that does not occur in `listing`, the
/// build tool host's list of supported versions; none when all occur.
pub fn versions_exist<'a>(versions: &'a Vec<String>, listing: &str) -> (r: Option<&'a String>)
    ensures
        r is None <==> forall|i: int|
            0 <= i < versions.len() ==> occurs_in((#[trigger] versions@[i])@, listing@),
        r matches Some(v) ==> exists|i: int|
            0 <= i < versions.len() && *v == versions@[i] && !occurs_in(v@, listing@) && forall|j: int|
                0 <= j < i ==> occurs_in((#[trigger] versions@[j])@, listing@),
{
    let mut i: usize = 0;
    while i < versions.len()
        invariant
            i <= versions.len(),
            forall|j: int| 0 <= j < i ==> occurs_in((#[trigger] versions@[j])@, listing@),
        decreases versions.len() - i,
    {
        if !text_contains(listing, versions[i].as_str()) {
            return Some(&versions[i]);
        }
        i += 1;
    }
    None
}

} // verus!
