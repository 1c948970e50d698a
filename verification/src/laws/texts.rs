//! What holds of the text functions: each is told by what it does to the parts
//! of a text.

use vstd::prelude::*;

use crate::collate::{ascending, before, keys};
use crate::shortcuts::texts;
use crate::snippets::{contents, triggers, TriggerKind};
use crate::text::{
    ascii_lower, ascii_lowered, end_trimmed, occurs, occurs_at, spaces_removed, start_trimmed,
    trimmed, white_space, words,
};

verus! {

/// Trimming gives back what stands between white space: of a text in the
/// middle that neither begins nor ends with white space, all of it, and nothing
/// of the white space round it.
pub proof fn trimming_gives_what_stands_between(a: Seq<char>, t: Seq<char>, b: Seq<char>)
    requires
        forall|i: int| 0 <= i < a.len() ==> white_space(#[trigger] a[i]),
        forall|i: int| 0 <= i < b.len() ==> white_space(#[trigger] b[i]),
        t.len() > 0 ==> !white_space(t[0]) && !white_space(t.last()),
    ensures
        trimmed(a + t + b) == t,
{
    if t.len() > 0 {
        lemma_start_of(a, t + b);
        assert(a + t + b =~= a + (t + b));
        lemma_end_of(t, b);
    } else {
        let s = a + t + b;
        assert forall|i: int| 0 <= i < s.len() implies white_space(#[trigger] s[i]) by {
            if i < a.len() {
                assert(white_space(a[i]));
            } else {
                assert(white_space(b[i - a.len()]));
            }
        }
        lemma_start_of_white_space(s);
        assert(t =~= Seq::empty());
    }
}

proof fn lemma_start_of(a: Seq<char>, x: Seq<char>)
    requires
        forall|i: int| 0 <= i < a.len() ==> white_space(#[trigger] a[i]),
        x.len() > 0,
        !white_space(x[0]),
    ensures
        start_trimmed(a + x) == x,
    decreases a.len(),
{
    if a.len() > 0 {
        assert(white_space(a[0]));
        lemma_start_of(a.drop_first(), x);
        assert((a + x).drop_first() =~= a.drop_first() + x);
    } else {
        assert(a + x =~= x);
    }
}

proof fn lemma_end_of(x: Seq<char>, b: Seq<char>)
    requires
        forall|i: int| 0 <= i < b.len() ==> white_space(#[trigger] b[i]),
        x.len() > 0,
        !white_space(x.last()),
    ensures
        end_trimmed(x + b) == x,
    decreases b.len(),
{
    if b.len() > 0 {
        assert(white_space(b[b.len() - 1]));
        lemma_end_of(x, b.drop_last());
        assert((x + b).drop_last() =~= x + b.drop_last());
    } else {
        assert(x + b =~= x);
    }
}

proof fn lemma_start_of_white_space(s: Seq<char>)
    requires
        forall|i: int| 0 <= i < s.len() ==> white_space(#[trigger] s[i]),
    ensures
        trimmed(s) == Seq::<char>::empty(),
        start_trimmed(s) == Seq::<char>::empty(),
    decreases s.len(),
{
    if s.len() > 0 {
        assert(white_space(s[0]));
        lemma_start_of_white_space(s.drop_first());
    } else {
        assert(s =~= Seq::empty());
    }
}

/// A text that is nothing but one run of characters is one word; no text is
/// none.
pub proof fn a_run_is_one_word(s: Seq<char>)
    requires
        forall|i: int| 0 <= i < s.len() ==> !white_space(#[trigger] s[i]),
    ensures
        words(s) == if s.len() > 0 {
            1nat
        } else {
            0nat
        },
    decreases s.len(),
{
    if s.len() > 0 {
        assert(!white_space(s[s.len() - 1]));
        a_run_is_one_word(s.drop_last());
        if s.len() > 1 {
            assert(!white_space(s[s.len() - 2]));
        }
    }
}

/// White space divides words: a text holds the words before it and those
/// behind it.
pub proof fn white_space_divides_words(a: Seq<char>, c: char, b: Seq<char>)
    requires
        white_space(c),
    ensures
        words(a + seq![c] + b) == words(a) + words(b),
    decreases b.len(),
{
    let s = a + seq![c] + b;
    if b.len() == 0 {
        assert(s.drop_last() =~= a);
        assert(s.last() == c);
    } else {
        white_space_divides_words(a, c, b.drop_last());
        assert(s.drop_last() =~= a + seq![c] + b.drop_last());
        assert(s[s.len() - 1] == b[b.len() - 1]);
        if b.len() > 1 {
            assert(s[s.len() - 2] == b[b.len() - 2]);
        } else {
            assert(s[s.len() - 2] == c);
        }
    }
}

/// A text that stands anywhere in another is found in it.
pub proof fn every_part_is_found(a: Seq<char>, needle: Seq<char>, b: Seq<char>)
    ensures
        occurs(a + needle + b, needle),
{
    let hay = a + needle + b;
    assert(hay.subrange(a.len() as int, (a.len() + needle.len()) as int) =~= needle);
    assert(occurs_at(hay, needle, a.len() as int));
}

/// A text that is found in another stands in it, with something before and
/// something behind it.
pub proof fn only_parts_are_found(hay: Seq<char>, needle: Seq<char>) -> (r: (Seq<char>, Seq<char>))
    requires
        occurs(hay, needle),
    ensures
        hay == r.0 + needle + r.1,
{
    let i = choose|i: int| #[trigger] occurs_at(hay, needle, i);
    let a = hay.take(i);
    let b = hay.skip(i + needle.len());
    assert(hay =~= a + hay.subrange(i, i + needle.len()) + b);
    (a, b)
}

/// Removing spaces takes every space out and leaves every other character
/// where it stands among the rest.
pub proof fn spaces_are_removed_one_by_one(a: Seq<char>, c: char, b: Seq<char>)
    ensures
        spaces_removed(a + seq![c] + b) == spaces_removed(a) + (if c == ' ' {
            Seq::empty()
        } else {
            seq![c]
        }) + spaces_removed(b),
        spaces_removed(Seq::empty()) == Seq::<char>::empty(),
{
    let p = |c: char| c != ' ';
    Seq::filter_distributes_over_add(a + seq![c], b, p);
    Seq::filter_distributes_over_add(a, seq![c], p);
    reveal(Seq::filter);
    assert(Seq::<char>::empty().filter(p) =~= Seq::empty());
    assert(seq![c].drop_last() =~= Seq::empty());
    assert(seq![c].last() == c);
    assert(seq![c].filter(p) =~= if c == ' ' {
        Seq::empty()
    } else {
        seq![c]
    });
}

/// ASCII lower case moves the capitals A to Z to the letters a to z and leaves
/// every other character alone, each in its place.
pub proof fn lower_case_moves_capitals_only(s: Seq<char>, i: int)
    requires
        0 <= i < s.len(),
    ensures
        ascii_lowered(s).len() == s.len(),
        0x41 <= s[i] as u32 <= 0x5a ==> ascii_lowered(s)[i] as u32 == s[i] as u32 + 0x20,
        !(0x41 <= s[i] as u32 <= 0x5a) ==> ascii_lowered(s)[i] == s[i],
{
    let c = s[i];
    assert(ascii_lowered(s)[i] == ascii_lower(c));
}

/// At the first place where two texts differ, the smaller code point comes
/// first.
pub proof fn the_first_difference_decides(
    p: Seq<char>,
    c: char,
    x: Seq<char>,
    d: char,
    y: Seq<char>,
)
    requires
        c != d,
    ensures
        before(p + seq![c] + x, p + seq![d] + y) == ((c as u32) < (d as u32)),
    decreases p.len(),
{
    let s = p + seq![c] + x;
    let t = p + seq![d] + y;
    if p.len() > 0 {
        let q = p.drop_first();
        the_first_difference_decides(q, c, x, d, y);
        assert(s[0] == p[0] && t[0] == p[0]);
        assert(s.drop_first() =~= q + seq![c] + x);
        assert(t.drop_first() =~= q + seq![d] + y);
    } else {
        assert(s[0] == c && t[0] == d);
    }
}

/// The beginning of a text comes before the text.
pub proof fn a_beginning_comes_first(p: Seq<char>, x: Seq<char>)
    ensures
        before(p, p + x) == (x.len() > 0),
        !before(p + x, p),
    decreases p.len(),
{
    let s = p + x;
    if p.len() > 0 {
        a_beginning_comes_first(p.drop_first(), x);
        assert(s.drop_first() =~= p.drop_first() + x);
        assert(s[0] == p[0]);
    }
}

/// In a sorted list the smaller of two texts stands first, by the first place
/// where they differ.
pub proof fn a_sorted_list_goes_up(
    s: Seq<Seq<char>>,
    i: int,
    j: int,
    p: Seq<char>,
    c: char,
    x: Seq<char>,
    d: char,
    y: Seq<char>,
)
    requires
        ascending(s),
        0 <= i < s.len(),
        0 <= j < s.len(),
        s[i] == p + seq![c] + x,
        s[j] == p + seq![d] + y,
        c != d,
    ensures
        i < j <==> (c as u32) < (d as u32),
{
    the_first_difference_decides(p, c, x, d, y);
    the_first_difference_decides(p, d, y, c, x);
    if i == j {
        assert(s[i][p.len() as int] == c);
        assert(s[j][p.len() as int] == d);
    } else if i < j {
        assert(before(s[i], s[j]));
    } else {
        assert(before(s[j], s[i]));
    }
}

/// The lists that contracts speak of hold, place by place, what the strings
/// hold.
pub proof fn lists_hold_what_the_strings_hold(
    items: Seq<(String, String, TriggerKind)>,
    pairs: Seq<(String, String)>,
    list: Seq<String>,
    i: int,
)
    ensures
        contents(items).len() == items.len(),
        0 <= i < items.len() ==> contents(items)[i] == (items[i].0@, items[i].1@, items[i].2),
        triggers(contents(items)).len() == items.len(),
        0 <= i < items.len() ==> triggers(contents(items))[i] == items[i].0@,
        keys(pairs).len() == pairs.len(),
        0 <= i < pairs.len() ==> keys(pairs)[i] == pairs[i].0@,
        texts(list).len() == list.len(),
        0 <= i < list.len() ==> texts(list)[i] == list[i]@,
{
}

} // verus!
