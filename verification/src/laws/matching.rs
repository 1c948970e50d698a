//! What holds of the matcher and of the triggers that are accepted.

use vstd::prelude::*;

use crate::ipc::snippet_fault;
use crate::snippets::{ending, Book, TriggerKind};
use crate::text::{alphanumeric, end_trimmed, start_trimmed, trimmed, white_space};

verus! {

/// What fires: the characters behind a word boundary, or behind nothing, if
/// they are stored as a text trigger, and nothing else. How many characters
/// that are is how many are to be deleted.
pub proof fn a_trigger_fires_behind_a_word_boundary(b: Book, typed: Seq<char>, t: Seq<char>)
    ensures
        b.fires(typed + t, t.len() as int) <==> {
            &&& t.len() > 0
            &&& b.entries.contains_key(t)
            &&& b.entries[t].1 == TriggerKind::Text
            &&& typed.len() == 0 || !alphanumeric(typed.last())
        },
        ending(typed + t, t.len() as int) == t,
{
    assert(ending(typed + t, t.len() as int) =~= t);
    if typed.len() > 0 {
        assert((typed + t)[typed.len() - 1] == typed.last());
    }
}

/// The same, when it is given which characters belong to words.
pub proof fn a_trigger_fires_behind_a_given_boundary(
    b: Book,
    typed: Seq<char>,
    t: Seq<char>,
    in_word: Seq<bool>,
)
    requires
        in_word.len() == typed.len() + t.len(),
    ensures
        b.fires_given(typed + t, in_word, t.len() as int) <==> {
            &&& t.len() > 0
            &&& b.entries.contains_key(t)
            &&& b.entries[t].1 == TriggerKind::Text
            &&& typed.len() == 0 || !in_word[typed.len() - 1]
        },
{
    assert(ending(typed + t, t.len() as int) =~= t);
}

/// A match is never longer than what was typed, and never empty.
pub proof fn a_match_lies_within_the_buffer(
    b: Book,
    buffer: Seq<char>,
    in_word: Seq<bool>,
    n: int,
)
    ensures
        b.fires(buffer, n) ==> 1 <= n <= buffer.len(),
        b.fires_given(buffer, in_word, n) ==> 1 <= n <= buffer.len(),
        b.fires_longest(buffer, n) ==> 1 <= n <= buffer.len(),
{
}

/// The longest match wins: whatever else fires on the same buffer, wherever it
/// stands, is no longer than the match.
pub proof fn nothing_longer_than_the_match_fires(b: Book, buffer: Seq<char>, n: int, m: int)
    requires
        b.fires_longest(buffer, n),
    ensures
        b.fires(buffer, n),
        b.fires(buffer, m) ==> m <= n,
{
}

/// The match is as long as every stored text trigger that ends the buffer
/// behind a word boundary, and is one of them itself.
pub proof fn the_match_is_as_long_as_any_trigger(
    b: Book,
    typed: Seq<char>,
    t: Seq<char>,
    before_match: Seq<char>,
    matched: Seq<char>,
)
    requires
        typed + t == before_match + matched,
        b.fires_longest(before_match + matched, matched.len() as int),
        t.len() > 0,
        b.entries.contains_key(t),
        b.entries[t].1 == TriggerKind::Text,
        typed.len() > 0 ==> !alphanumeric(typed.last()),
    ensures
        t.len() <= matched.len(),
        b.entries.contains_key(matched),
        b.entries[matched].1 == TriggerKind::Text,
        before_match.len() > 0 ==> !alphanumeric(before_match.last()),
{
    a_trigger_fires_behind_a_word_boundary(b, typed, t);
    a_trigger_fires_behind_a_word_boundary(b, before_match, matched);
    nothing_longer_than_the_match_fires(
        b,
        typed + t,
        matched.len() as int,
        t.len() as int,
    );
}

/// Every text trigger can fire: typed on its own it does, whole, and it does
/// after anything that ends in a word boundary.
pub proof fn every_text_trigger_can_fire(b: Book, t: Seq<char>, typed: Seq<char>)
    requires
        b.has_text(t),
        t.len() > 0,
        typed.len() > 0 ==> !alphanumeric(typed.last()),
    ensures
        b.fires(typed + t, t.len() as int),
        b.fires_longest(t, t.len() as int),
{
    assert(ending(typed + t, t.len() as int) =~= t);
    assert(ending(t, t.len() as int) =~= t);
    if typed.len() > 0 {
        assert((typed + t)[typed.len() - 1] == typed.last());
    }
}

/// No trigger fires inside a word.
pub proof fn nothing_fires_inside_a_word(b: Book, typed: Seq<char>, t: Seq<char>)
    requires
        typed.len() > 0,
        alphanumeric(typed.last()),
    ensures
        !b.fires(typed + t, t.len() as int),
{
    assert((typed + t)[typed.len() - 1] == typed.last());
}

/// A shortcut never fires as typed text: storing one, in place of a text
/// trigger or not, keeps its trigger from firing and leaves the others alone.
pub proof fn shortcuts_never_fire_as_text(
    b: Book,
    t: Seq<char>,
    expansion: Seq<char>,
    buffer: Seq<char>,
    n: int,
)
    ensures
        b.upsert(t, expansion, TriggerKind::Shortcut).fires(buffer, n) == (b.fires(buffer, n)
            && ending(buffer, n) != t),
{
}

/// A removed trigger fires no more, and the others go on as before.
pub proof fn removed_triggers_do_not_fire(b: Book, t: Seq<char>, buffer: Seq<char>, n: int)
    ensures
        b.remove(t).fires(buffer, n) == (b.fires(buffer, n) && ending(buffer, n) != t),
{
}

/// At most one trigger is the longest that fires.
pub proof fn the_longest_match_is_unique(b: Book, buffer: Seq<char>, m: int, n: int)
    requires
        b.fires_longest(buffer, m),
        b.fires_longest(buffer, n),
    ensures
        m == n,
{
}

/// Reordering has no say in what fires.
pub proof fn reordering_leaves_matching_alone(
    b: Book,
    wanted: Seq<Seq<char>>,
    buffer: Seq<char>,
    n: int,
)
    ensures
        b.reorder(wanted).fires(buffer, n) == b.fires(buffer, n),
{
}

/// Every text trigger that is accepted fits the rolling buffer, and fires once
/// it is stored.
pub proof fn every_accepted_text_trigger_can_fire(b: Book, t: Seq<char>, expansion: Seq<char>)
    requires
        snippet_fault(t, expansion, TriggerKind::Text) is None,
    ensures
        1 <= t.len() <= 64,
        b.upsert(t, expansion, TriggerKind::Text).fires_longest(t, t.len() as int),
{
    every_text_trigger_can_fire(b.upsert(t, expansion, TriggerKind::Text), t, Seq::empty());
}

/// Dropping white space round a text leaves none, and doing it again changes
/// nothing.
pub proof fn trimming_twice_is_trimming_once(s: Seq<char>)
    ensures
        trimmed(s).len() > 0 ==> !white_space(trimmed(s)[0]) && !white_space(trimmed(s).last()),
        trimmed(trimmed(s)) == trimmed(s),
{
    lemma_start_trimmed(s);
    lemma_end_trimmed(start_trimmed(s));
}

proof fn lemma_start_trimmed(s: Seq<char>)
    ensures
        start_trimmed(s).len() > 0 ==> !white_space(start_trimmed(s)[0]),
    decreases s.len(),
{
    if s.len() > 0 && white_space(s[0]) {
        lemma_start_trimmed(s.drop_first());
    }
}

proof fn lemma_end_trimmed(s: Seq<char>)
    ensures
        end_trimmed(s).len() > 0 ==> !white_space(end_trimmed(s).last()) && end_trimmed(s)[0]
            == s[0],
    decreases s.len(),
{
    if s.len() > 0 && white_space(s.last()) {
        lemma_end_trimmed(s.drop_last());
    }
}

} // verus!
