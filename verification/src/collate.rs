//! The order of texts by code point, and sorting by it.

use std::collections::HashMap;

use vstd::prelude::*;

verus! {

/// Whether `a` comes before `b`: at the first position where they differ it
/// has the smaller character, or it ends there.
pub open spec fn before(a: Seq<char>, b: Seq<char>) -> bool
    decreases a.len(),
{
    if b.len() == 0 {
        false
    } else if a.len() == 0 {
        true
    } else if a[0] == b[0] {
        before(a.drop_first(), b.drop_first())
    } else {
        a[0] < b[0]
    }
}

/// Whether every element comes before the elements behind it.
pub open spec fn ascending(s: Seq<Seq<char>>) -> bool {
    forall|i: int, j: int| 0 <= i < j < s.len() ==> before(#[trigger] s[i], #[trigger] s[j])
}

pub fn is_before(a: &str, b: &str) -> (r: bool)
    ensures
        r == before(a@, b@),
{
    let mut x = a.chars();
    let mut y = b.chars();
    let ghost mut n: int = 0;
    assert(a@.skip(0) =~= a@ && b@.skip(0) =~= b@);
    loop
        invariant
            0 <= n <= a@.len(),
            n <= b@.len(),
            before(a@, b@) == before(a@.skip(n), b@.skip(n)),
            vstd::std_specs::iter::IteratorSpec::remaining(&x) == a@.skip(n),
            vstd::std_specs::iter::IteratorSpec::remaining(&y) == b@.skip(n),
        decreases a@.len() - n,
    {
        let c = x.next();
        let d = y.next();
        proof {
            if n < a@.len() && n < b@.len() {
                assert(a@.skip(n).drop_first() =~= a@.skip(n + 1));
                assert(b@.skip(n).drop_first() =~= b@.skip(n + 1));
            }
        }
        match (c, d) {
            (_, None) => {
                return false;
            },
            (None, Some(_)) => {
                return true;
            },
            (Some(c), Some(d)) => {
                if c != d {
                    return c < d;
                }
            },
        }
        proof {
            n = n + 1;
        }
    }
}

/// The order is transitive.
pub proof fn before_transitive(a: Seq<char>, b: Seq<char>, c: Seq<char>)
    requires
        before(a, b),
        before(b, c),
    ensures
        before(a, c),
    decreases a.len(),
{
    if a.len() > 0 && a[0] == b[0] && b[0] == c[0] {
        before_transitive(a.drop_first(), b.drop_first(), c.drop_first());
    }
}

/// Of two different texts one comes before the other, and only one.
pub proof fn before_total(a: Seq<char>, b: Seq<char>)
    ensures
        a == b ==> !before(a, b),
        a != b ==> before(a, b) != before(b, a),
    decreases a.len(),
{
    if a.len() > 0 && b.len() > 0 {
        before_total(a.drop_first(), b.drop_first());
        assert(a =~= seq![a[0]] + a.drop_first());
        assert(b =~= seq![b[0]] + b.drop_first());
    } else if a.len() == 0 && b.len() == 0 {
        assert(a =~= b);
    }
}

/// The first elements of pairs.
pub open spec fn keys(pairs: Seq<(String, String)>) -> Seq<Seq<char>> {
    pairs.map_values(|p: (String, String)| p.0@)
}

/// Calls `Vec::from_iter` on a hash map. It is taken to give every entry of
/// the map once, in no particular order.
#[verifier::external_body]
fn pairs_of(map: HashMap<String, String>) -> (pairs: Vec<(String, String)>)
    ensures
        keys(pairs@).no_duplicates(),
        forall|i: int|
            0 <= i < pairs@.len() ==> {
                &&& map.deep_view().contains_key((#[trigger] pairs@[i]).0@)
                &&& map.deep_view()[pairs@[i].0@] == pairs@[i].1@
            },
        forall|k: Seq<char>| #[trigger]
            map.deep_view().contains_key(k) ==> keys(pairs@).contains(k),
{
    Vec::from_iter(map)
}

/// The position at which a text belongs among ascending ones that it is
/// different from.
fn place(sorted: &Vec<(String, String)>, key: &str) -> (p: usize)
    requires
        ascending(keys(sorted@)),
        !keys(sorted@).contains(key@),
    ensures
        p <= sorted@.len(),
        forall|i: int| 0 <= i < p ==> before(#[trigger] keys(sorted@)[i], key@),
        forall|i: int| p <= i < sorted@.len() ==> before(key@, #[trigger] keys(sorted@)[i]),
{
    let mut low: usize = 0;
    let mut high: usize = sorted.len();
    let ghost ks = keys(sorted@);
    while low < high
        invariant
            ks == keys(sorted@),
            ascending(ks),
            !ks.contains(key@),
            low <= high <= sorted@.len(),
            forall|i: int| 0 <= i < low ==> before(#[trigger] ks[i], key@),
            forall|i: int| high <= i < sorted@.len() ==> before(key@, #[trigger] ks[i]),
        decreases high - low,
    {
        let mid: usize = low + (high - low) / 2;
        assert(ks[mid as int] == sorted@[mid as int].0@);
        assert(ks.contains(ks[mid as int]));
        if is_before(sorted[mid].0.as_str(), key) {
            assert forall|i: int| 0 <= i <= mid implies before(#[trigger] ks[i], key@) by {
                if i < mid {
                    before_transitive(ks[i], ks[mid as int], key@);
                }
            }
            low = mid + 1;
        } else {
            proof {
                before_total(ks[mid as int], key@);
            }
            assert forall|i: int| mid <= i < sorted@.len() implies before(
                key@,
                #[trigger] ks[i],
            ) by {
                if mid < i {
                    before_transitive(key@, ks[mid as int], ks[i]);
                }
            }
            high = mid;
        }
    }
    low
}

/// The pairs of a map, with their keys in ascending order.
pub fn sorted_pairs(map: HashMap<String, String>) -> (sorted: Vec<(String, String)>)
    ensures
        ascending(keys(sorted@)),
        forall|i: int|
            0 <= i < sorted@.len() ==> {
                &&& map.deep_view().contains_key((#[trigger] sorted@[i]).0@)
                &&& map.deep_view()[sorted@[i].0@] == sorted@[i].1@
            },
        forall|k: Seq<char>| #[trigger]
            map.deep_view().contains_key(k) ==> keys(sorted@).contains(k),
{
    let ghost m = map.deep_view();
    let pairs = pairs_of(map);
    let ghost all = pairs@;
    let mut sorted: Vec<(String, String)> = Vec::new();
    for pair in it: pairs
        invariant
            it.seq() == all,
            keys(all).no_duplicates(),
            forall|i: int|
                0 <= i < all.len() ==> {
                    &&& m.contains_key((#[trigger] all[i]).0@)
                    &&& m[all[i].0@] == all[i].1@
                },
            ascending(keys(sorted@)),
            forall|i: int|
                0 <= i < sorted@.len() ==> {
                    &&& m.contains_key((#[trigger] sorted@[i]).0@)
                    &&& m[sorted@[i].0@] == sorted@[i].1@
                },
            forall|k: Seq<char>| #[trigger]
                keys(sorted@).contains(k) <==> keys(all.take(it.index() as int)).contains(k),
    {
        let ghost ks = keys(sorted@);
        let ghost key = pair.0@;
        let ghost seen = keys(all.take(it.index() as int));
        proof {
            assert(keys(all)[it.index() as int] == key);
            if seen.contains(key) {
                let i = seen.index_of(key);
                assert(keys(all)[i] == key);
            }
            assert(keys(all.take(it.index() + 1)) =~= seen.push(key));
        }
        let p = place(&sorted, pair.0.as_str());
        sorted.insert(p, pair);
        proof {
            let now = keys(sorted@);
            assert(now =~= ks.insert(p as int, key));
            assert forall|i: int, j: int| 0 <= i < j < now.len() implies before(
                #[trigger] now[i],
                #[trigger] now[j],
            ) by {
                let i0 = if i < p { i } else { i - 1 };
                let j0 = if j < p { j } else { j - 1 };
                if i != p && j != p {
                    assert(before(ks[i0], ks[j0]));
                }
            }
            assert forall|k: Seq<char>| #[trigger]
                now.contains(k) <==> seen.push(key).contains(k) by {
                assert(ks.contains(k) <==> seen.contains(k));
                if now.contains(k) && k != key {
                    let i = now.index_of(k);
                    assert(ks[if i < p { i } else { i - 1 }] == k);
                }
                if ks.contains(k) {
                    let i = ks.index_of(k);
                    assert(now[if i < p { i } else { i + 1 }] == k);
                }
                assert(now[p as int] == key);
                if seen.contains(k) {
                    assert(seen.push(key)[seen.index_of(k)] == k);
                }
                assert(seen.push(key)[seen.len() as int] == key);
                if seen.push(key).contains(k) && k != key {
                    let i = seen.push(key).index_of(k);
                    assert(seen[i] == k);
                }
            }
        }
    }
    assert(all.take(all.len() as int) =~= all);
    sorted
}

} // verus!
