//! What holds of an import: what it accepts is what it was given, and what it
//! accepts is read back.

use vstd::prelude::*;

use crate::import::{
    after_refused_chord, after_taking, follows, proceeds, registered, stored, verdict, was_shortcut,
    ImportAction, ImportState,
};
use crate::ipc::{order_of, snippet_fault, HotkeyOrder};
use crate::laws::store::{lemma_batch_leaves_alone, read_back_what_a_batch_wrote_last};
use crate::snippets::{triggers, Book, TriggerKind};
use crate::text::trimmed;

verus! {

/// Whether an import has accepted the items at the given positions, in their
/// order and as they were given but for the white space round their triggers,
/// and waits for nothing but the item that is next.
pub open spec fn accepted_from(s: ImportState, picks: Seq<int>) -> bool {
    &&& s.accepted.len() == picks.len()
    &&& forall|k: int| 0 <= k < picks.len() ==> 0 <= #[trigger] picks[k] < s.next
    &&& forall|k: int, m: int|
        0 <= k < m < picks.len() ==> #[trigger] picks[k] < #[trigger] picks[m]
    &&& forall|k: int|
        0 <= k < picks.len() ==> #[trigger] s.accepted[k] == (
            trimmed(s.items[picks[k]].0),
            s.items[picks[k]].1,
            s.items[picks[k]].2,
        )
    &&& s.waiting matches Some((t, expansion, _)) ==> {
        &&& t == trimmed(s.items[s.next].0)
        &&& expansion == s.items[s.next].1
        &&& s.items[s.next].2 == TriggerKind::Shortcut
    }
}

/// An import that has just begun has accepted nothing.
pub proof fn an_import_begins_with_nothing(s: ImportState)
    requires
        s.accepted.len() == 0,
        s.waiting is None,
    ensures
        accepted_from(s, Seq::empty()),
{
}

/// An import that proceeds accepts what it was given: it passes the next item
/// by, takes it as it is, or waits for its chord. Gives the positions of the
/// items that are accepted then.
pub proof fn proceeding_accepts_what_was_given(
    s: ImportState,
    b: Book,
    after: ImportState,
    action: ImportAction,
    picks: Seq<int>,
) -> (now: Seq<int>)
    requires
        s.wf(),
        s.waiting is None,
        accepted_from(s, picks),
        proceeds(s, b, after, action),
    ensures
        accepted_from(after, now),
        after.items == s.items,
        now == picks || (after.next == s.next + 1 && now == picks.push(s.next)),
{
    if s.next < s.items.len() && verdict(b, s.items[s.next], s.projected) is Take {
        let now = picks.push(s.next);
        assert(accepted_from(after, now));
        now
    } else {
        picks
    }
}

/// An import whose chord was registered or not accepts what it was given.
pub proof fn registering_accepts_what_was_given(
    s: ImportState,
    ok: bool,
    after: ImportState,
    action: ImportAction,
    picks: Seq<int>,
) -> (now: Seq<int>)
    requires
        s.wf(),
        s.waiting is Some,
        accepted_from(s, picks),
        registered(s, ok, after, action),
    ensures
        accepted_from(after, now),
        after.items == s.items,
        after.next == s.next + 1,
        now == if ok {
            picks.push(s.next)
        } else {
            picks
        },
{
    let now = if ok {
        picks.push(s.next)
    } else {
        picks
    };
    assert(accepted_from(after, now));
    now
}

/// What an import accepts last under a trigger is in the store afterwards, with
/// the text and the kind that it was given.
pub proof fn an_import_is_read_back(b: Book, s: ImportState, picks: Seq<int>, k: int)
    requires
        accepted_from(s, picks),
        0 <= k < picks.len(),
        forall|m: int|
            k < m < picks.len() ==> trimmed(s.items[#[trigger] picks[m]].0) != trimmed(
                s.items[picks[k]].0,
            ),
    ensures
        ({
            let item = s.items[picks[k]];
            let c = b.upsert_all(s.accepted);
            &&& c.entries.contains_key(trimmed(item.0))
            &&& c.entries[trimmed(item.0)] == (item.1, item.2)
        }),
{
    let t = trimmed(s.items[picks[k]].0);
    let rest = s.accepted.skip(k + 1);
    assert(s.accepted[k].0 == t);
    if triggers(rest).contains(t) {
        let m = triggers(rest).index_of(t);
        assert(rest[m] == s.accepted[k + 1 + m]);
        assert(picks[k + 1 + m] == picks[k + 1 + m]);
    }
    read_back_what_a_batch_wrote_last(b, s.accepted, k);
}

/// An import leaves every snippet alone whose trigger it has not accepted.
pub proof fn an_import_leaves_the_rest_alone(
    b: Book,
    s: ImportState,
    picks: Seq<int>,
    t: Seq<char>,
)
    requires
        accepted_from(s, picks),
        forall|k: int| 0 <= k < picks.len() ==> trimmed(s.items[#[trigger] picks[k]].0) != t,
    ensures
        b.upsert_all(s.accepted).entries.contains_key(t) == b.entries.contains_key(t),
        b.entries.contains_key(t) ==> b.upsert_all(s.accepted).entries[t] == b.entries[t],
{
    if triggers(s.accepted).contains(t) {
        let k = triggers(s.accepted).index_of(t);
        assert(s.accepted[k].0 == t);
        assert(picks[k] == picks[k]);
    }
    lemma_batch_leaves_alone(b, s.accepted, t);
}

/// The next item is passed by just if it is at fault, or would be new where
/// 10000 snippets are expected already. Else a text trigger is taken, the chord
/// of a stored shortcut being given up, and a shortcut is to be registered.
pub proof fn a_good_item_is_taken(
    s: ImportState,
    b: Book,
    after: ImportState,
    action: ImportAction,
)
    requires
        s.wf(),
        s.waiting is None,
        s.next < s.items.len(),
        proceeds(s, b, after, action),
    ensures
        ({
            let item = s.items[s.next];
            let t = trimmed(item.0);
            let is_new = !b.entries.contains_key(t);
            let had_chord = !is_new && b.entries[t].1 == TriggerKind::Shortcut;
            if snippet_fault(t, item.1, item.2) is Some || (is_new && s.projected >= 10_000) {
                &&& after.next == s.next + 1
                &&& after.skipped == s.skipped + 1
                &&& after.accepted == s.accepted
                &&& after.projected == s.projected
                &&& after.waiting is None
                &&& action matches ImportAction::Next { follow_up } && follow_up is None
            } else if item.2 == TriggerKind::Text {
                &&& after.next == s.next + 1
                &&& after.skipped == s.skipped
                &&& after.accepted == s.accepted.push((t, item.1, TriggerKind::Text))
                &&& after.projected == s.projected + if is_new {
                    1int
                } else {
                    0int
                }
                &&& after.waiting is None
                &&& action matches ImportAction::Next { follow_up } && {
                    &&& follow_up is Some <==> had_chord
                    &&& follow_up matches Some(order) ==> order_of(order)
                        == HotkeyOrder::Unregister(t)
                }
            } else {
                &&& after.next == s.next
                &&& after.skipped == s.skipped
                &&& after.accepted == s.accepted
                &&& after.projected == s.projected
                &&& after.waiting matches Some((u, expansion, previous)) && {
                    &&& u == t
                    &&& expansion == item.1
                    &&& previous is None <==> is_new
                    &&& previous is Some ==> previous->0 == b.entries[t]
                }
                &&& action matches ImportAction::Register { trigger, expansion } && trigger@ == t
                    && expansion@ == item.1
            }
        }),
{
}

/// A registered chord is accepted with its expansion; a refused one is passed
/// by, and the chord of a stored shortcut is registered again with its old
/// expansion.
pub proof fn a_registered_chord_is_taken(
    s: ImportState,
    ok: bool,
    after: ImportState,
    action: ImportAction,
    t: Seq<char>,
    expansion: Seq<char>,
    previous: Option<(Seq<char>, TriggerKind)>,
)
    requires
        s.waiting == Some((t, expansion, previous)),
        registered(s, ok, after, action),
    ensures
        after.next == s.next + 1,
        after.waiting is None,
        ok ==> {
            &&& after.accepted == s.accepted.push((t, expansion, TriggerKind::Shortcut))
            &&& after.skipped == s.skipped
            &&& after.projected == s.projected + if previous is None {
                1int
            } else {
                0int
            }
            &&& action matches ImportAction::Next { follow_up } && follow_up is None
        },
        !ok ==> {
            &&& after.accepted == s.accepted
            &&& after.skipped == s.skipped + 1
            &&& after.projected == s.projected
            &&& action matches ImportAction::Next { follow_up } && {
                &&& follow_up is Some <==> previous is Some && (previous->0).1
                    == TriggerKind::Shortcut
                &&& follow_up matches Some(order) ==> order_of(order) == HotkeyOrder::Register(
                    t,
                    (previous->0).0,
                )
            }
        },
{
}

/// An import is over when every item has been dealt with, and not before; then
/// nothing more happens.
pub proof fn an_import_ends_with_its_items(
    s: ImportState,
    b: Book,
    after: ImportState,
    action: ImportAction,
)
    requires
        s.wf(),
        s.waiting is None,
        proceeds(s, b, after, action),
    ensures
        action is Done <==> s.next == s.items.len(),
        action is Done ==> after == s && s.accepted.len() + s.skipped == s.items.len(),
        s.done() <==> s.next == s.items.len(),
{
}

/// What is stored under a trigger, and what becomes of it, goes by the entry
/// that is there.
pub proof fn what_is_stored_decides(
    b: Book,
    t: Seq<char>,
    action: ImportAction,
    order: Option<HotkeyOrder>,
)
    ensures
        stored(b, t) is Some <==> b.entries.contains_key(t),
        b.entries.contains_key(t) ==> stored(b, t) == Some(b.entries[t]),
        was_shortcut(stored(b, t)) <==> b.entries.contains_key(t) && b.entries[t].1
            == TriggerKind::Shortcut,
        after_taking(t, stored(b, t)) == if b.entries.contains_key(t) && b.entries[t].1
            == TriggerKind::Shortcut {
            Some(HotkeyOrder::Unregister(t))
        } else {
            None
        },
        after_refused_chord(t, stored(b, t)) == if b.entries.contains_key(t) && b.entries[t].1
            == TriggerKind::Shortcut {
            Some(HotkeyOrder::Register(t, b.entries[t].0))
        } else {
            None
        },
        follows(action, order) <==> match action {
            ImportAction::Next { follow_up: Some(action) } => order == Some(order_of(action)),
            ImportAction::Next { follow_up: None } => order is None,
            _ => false,
        },
{
}

} // verus!
