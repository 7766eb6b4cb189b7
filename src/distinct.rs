//! Dropping repeated values while keeping first occurrences in order.

use vstd::prelude::*;

use itertools::Itertools;

use crate::text::text_views;

verus! {

/// `s` with every value after its first occurrence removed; the values that
/// stay keep their order.
pub open spec fn dedup<A>(s: Seq<A>) -> Seq<A>
    decreases s.len(),
{
    if s.len() == 0 {
        s
    } else {
        let prefix = dedup(s.drop_last());
        if s.drop_last().contains(s.last()) {
            prefix
        } else {
            prefix.push(s.last())
        }
    }
}

/// Relies on `itertools::Itertools::unique`, which yields each value the
/// first time it occurs and skips it afterwards (equality of strings is
/// equality of their characters).
#[verifier::external_body]
pub(crate) fn unique_ids(ids: &Vec<String>) -> (r: Vec<String>)
    ensures
        text_views(r@) == dedup(text_views(ids@)),
{
    ids.iter().unique().cloned().collect()
}

/// Relies on `itertools::Itertools::unique`, which yields each value the
/// first time it occurs and skips it afterwards.
#[verifier::external_body]
pub(crate) fn unique_majors(majors: &Vec<u8>) -> (r: Vec<u8>)
    ensures
        r@ == dedup(majors@),
{
    majors.iter().copied().unique().collect()
}

/// A value occurs in the deduplicated sequence exactly when it occurs in
/// the sequence deduplicated.
pub proof fn lemma_dedup_contains<A>(s: Seq<A>, x: A)
    ensures
        dedup(s).contains(x) <==> s.contains(x),
    decreases s.len(),
{
    if s.len() > 0 {
        let p = s.drop_last();
        let d = dedup(p);
        lemma_dedup_contains(p, x);
        assert(s == p.push(s.last()));
        if s.contains(x) && !p.contains(x) {
            let i = choose|i: int| 0 <= i < s.len() && s[i] == x;
            if i < p.len() {
                assert(p[i] == x);
            }
            assert(x == s.last());
        }
        if !p.contains(s.last()) {
            assert(d.push(s.last())[d.len() as int] == s.last());
            if d.push(s.last()).contains(x) && x != s.last() {
                let i = choose|i: int| 0 <= i < d.len() + 1 && d.push(s.last())[i] == x;
                assert(d[i] == x);
            }
            if d.contains(x) {
                let i = choose|i: int| 0 <= i < d.len() && d[i] == x;
                assert(d.push(s.last())[i] == x);
            }
        }
        if p.contains(x) {
            let i = choose|i: int| 0 <= i < p.len() && p[i] == x;
            assert(s[i] == x);
        }
        if x == s.last() {
            assert(s[s.len() - 1] == x);
        }
    }
}

/// The deduplicated sequence holds no value twice.
pub proof fn lemma_dedup_no_duplicates<A>(s: Seq<A>)
    ensures
        dedup(s).no_duplicates(),
    decreases s.len(),
{
    if s.len() > 0 {
        lemma_dedup_no_duplicates(s.drop_last());
        lemma_dedup_contains(s.drop_last(), s.last());
    }
}

/// Deduplicating a concatenation of two sequences with no value in common
/// deduplicates each part on its own.
pub proof fn lemma_dedup_disjoint_concat<A>(a: Seq<A>, b: Seq<A>)
    requires
        forall|i: int, j: int| 0 <= i < a.len() && 0 <= j < b.len() ==> a[i] != b[j],
    ensures
        dedup(a + b) == dedup(a) + dedup(b),
    decreases b.len(),
{
    if b.len() == 0 {
        assert(a + b == a);
        assert(dedup(a) + dedup(b) == dedup(a));
    } else {
        let b0 = b.drop_last();
        lemma_dedup_disjoint_concat(a, b0);
        assert((a + b).drop_last() == a + b0);
        assert((a + b).last() == b.last());
        let x = b.last();
        if (a + b0).contains(x) {
            let i = choose|i: int| 0 <= i < (a + b0).len() && (a + b0)[i] == x;
            if i < a.len() {
                assert(a[i] == b[b.len() - 1]);
            } else {
                assert(b0[i - a.len()] == x);
            }
            assert(b0.contains(x));
        } else {
            if b0.contains(x) {
                let j = choose|j: int| 0 <= j < b0.len() && b0[j] == x;
                assert((a + b0)[a.len() + j] == x);
            }
        }
        assert(dedup(a) + dedup(b0).push(x) == (dedup(a) + dedup(b0)).push(x));
    }
}

} // verus!
