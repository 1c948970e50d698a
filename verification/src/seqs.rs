//! Facts about sequences.

use vstd::prelude::*;

verus! {

/// A filter that every element passes changes nothing.
pub(crate) proof fn lemma_filter_all<A>(s: Seq<A>, p: spec_fn(A) -> bool)
    requires
        forall|k: int| 0 <= k < s.len() ==> p(#[trigger] s[k]),
    ensures
        s.filter(p) == s,
    decreases s.len(),
{
    reveal(Seq::filter);
    if s.len() > 0 {
        lemma_filter_all(s.drop_last(), p);
        assert(p(s[s.len() - 1]));
        assert(s =~= s.drop_last().push(s.last()));
    }
}

/// A filter keeps exactly the elements that pass, and makes no duplicates.
pub(crate) proof fn lemma_filter<A>(s: Seq<A>, p: spec_fn(A) -> bool)
    ensures
        forall|u: A| #[trigger] s.filter(p).contains(u) <==> s.contains(u) && p(u),
        s.no_duplicates() ==> s.filter(p).no_duplicates(),
    decreases s.len(),
{
    reveal(Seq::filter);
    if s.len() > 0 {
        let t = s.drop_last();
        let last = s.last();
        lemma_filter(t, p);
        assert forall|u: A| #[trigger] s.filter(p).contains(u) <==> s.contains(u) && p(u) by {
            lemma_push_contains(t, last, u);
            lemma_push_contains(t.filter(p), last, u);
            assert(s =~= t.push(last));
            assert(t.filter(p).contains(u) <==> t.contains(u) && p(u));
        }
        if s.no_duplicates() {
            assert(t.no_duplicates()) by {
                assert forall|i: int, j: int|
                    0 <= i < t.len() && 0 <= j < t.len() && i != j implies t[i] != t[j] by {
                    assert(s[i] != s[j]);
                }
            }
            assert(!t.contains(last)) by {
                if t.contains(last) {
                    let i = t.index_of(last);
                    assert(s[i] == s[s.len() - 1]);
                }
            }
            assert(!t.filter(p).contains(last));
            lemma_push_no_duplicates(t.filter(p), last);
        }
    }
}

pub(crate) proof fn lemma_push_contains<A>(s: Seq<A>, x: A, u: A)
    ensures
        s.push(x).contains(u) <==> s.contains(u) || u == x,
{
    if s.contains(u) {
        assert(s.push(x)[s.index_of(u)] == u);
    }
    assert(s.push(x)[s.len() as int] == x);
    if s.push(x).contains(u) && u != x {
        let i = s.push(x).index_of(u);
        assert(s[i] == u);
    }
}

pub(crate) proof fn lemma_push_no_duplicates<A>(s: Seq<A>, x: A)
    requires
        s.no_duplicates(),
        !s.contains(x),
    ensures
        s.push(x).no_duplicates(),
{
    let t = s.push(x);
    assert forall|i: int, j: int|
        0 <= i < t.len() && 0 <= j < t.len() && i != j implies t[i] != t[j] by {
        if i < s.len() && j < s.len() {
            assert(s[i] != s[j]);
        } else if i < s.len() {
            assert(s.contains(s[i]));
        } else {
            assert(s.contains(s[j]));
        }
    }
}

/// A filter keeps the order of the elements that pass: gives the positions to
/// which two of them go.
pub(crate) proof fn lemma_filter_keeps_order<A>(
    s: Seq<A>,
    p: spec_fn(A) -> bool,
    i: int,
    j: int,
) -> (r: (int, int))
    requires
        0 <= i < j < s.len(),
        p(s[i]),
        p(s[j]),
    ensures
        0 <= r.0 < r.1 < s.filter(p).len(),
        s.filter(p)[r.0] == s[i],
        s.filter(p)[r.1] == s[j],
    decreases s.len(),
{
    reveal(Seq::filter);
    let t = s.drop_last();
    if j < t.len() {
        lemma_filter_keeps_order(t, p, i, j)
    } else {
        lemma_filter(t, p);
        assert(t.contains(t[i]));
        assert(t.filter(p).contains(t[i]));
        (t.filter(p).index_of(t[i]), t.filter(p).len() as int)
    }
}

} // verus!
