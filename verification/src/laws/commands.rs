//! What holds of the commands: the limits they respect, and how they keep the
//! registered chords in step with the store.

use vstd::prelude::*;

use crate::import::{after_refused_chord, after_taking, stored, was_shortcut};
use crate::ipc::{
    add_fault, after_failure, after_refusal, after_success, edit_fault, edit_made, order_of, orders,
    request_for, snippet_fault, EditAction, EditRequest, HotkeyOrder,
};
use crate::laws::store::{lemma_batch_leaves_alone, order_and_entries_have_one_length};
use crate::shortcuts::HotkeyAction;
use crate::snippets::{lemma_upsert_wf, replace_error, triggers, Book, TriggerKind};
use crate::text::control;

verus! {

/// A snippet is good just if it has a trigger and a text of at most a million
/// characters, and a text trigger has at most 64 characters and no control
/// characters.
pub proof fn a_good_snippet_has_no_fault(
    t: Seq<char>,
    expansion: Seq<char>,
    kind: TriggerKind,
)
    ensures
        snippet_fault(t, expansion, kind) is None <==> {
            &&& t.len() >= 1
            &&& 1 <= expansion.len() <= 1_000_000
            &&& kind == TriggerKind::Text ==> t.len() <= 64 && forall|i: int|
                0 <= i < t.len() ==> !control(#[trigger] t[i])
        },
{
}

/// The fault of a snippet says what is wrong with it, first of all that
/// something is missing, then that a text is too long, then that a text trigger
/// is, then that it holds a control character.
pub proof fn a_fault_says_what_is_wrong(
    t: Seq<char>,
    expansion: Seq<char>,
    kind: TriggerKind,
    i: int,
)
    ensures
        t.len() == 0 || expansion.len() == 0 ==> snippet_fault(t, expansion, kind) == Some(
            "Both trigger and expansion are required."@,
        ),
        t.len() > 0 && expansion.len() > 1_000_000 ==> snippet_fault(t, expansion, kind) == Some(
            "Expansion is too long (maximum 1000000 characters)."@,
        ),
        t.len() > 64 && 1 <= expansion.len() <= 1_000_000 ==> snippet_fault(
            t,
            expansion,
            TriggerKind::Text,
        ) == Some("Text trigger is too long (maximum 64 characters)."@),
        0 <= i < t.len() <= 64 && control(t[i]) && 1 <= expansion.len() <= 1_000_000
            ==> snippet_fault(t, expansion, TriggerKind::Text) == Some(
            "Text triggers cannot contain control characters."@,
        ),
{
}

/// A snippet can be added just if it is good, its trigger is new, and fewer than
/// 10000 are stored; the reason against it says which, in this order.
pub proof fn what_speaks_against_adding(
    b: Book,
    t: Seq<char>,
    expansion: Seq<char>,
    kind: TriggerKind,
)
    ensures
        add_fault(b, t, expansion, kind) is None <==> snippet_fault(t, expansion, kind) is None
            && !b.entries.contains_key(t) && b.entries.len() < 10_000,
        snippet_fault(t, expansion, kind) is Some ==> add_fault(b, t, expansion, kind)
            == snippet_fault(t, expansion, kind),
        snippet_fault(t, expansion, kind) is None && b.entries.contains_key(t) ==> add_fault(
            b,
            t,
            expansion,
            kind,
        ) == Some("A snippet with that trigger already exists."@),
        snippet_fault(t, expansion, kind) is None && !b.entries.contains_key(t) && b.entries.len()
            >= 10_000 ==> add_fault(b, t, expansion, kind) == Some(
            "Snippet limit reached (10000)."@,
        ),
{
}

/// A snippet can be changed just if it is named and stored, what it is to become
/// is good, and its new trigger belongs to no other; the reason against it says
/// which, in this order.
pub proof fn what_speaks_against_changing(
    b: Book,
    old_trigger: Seq<char>,
    t: Seq<char>,
    expansion: Seq<char>,
    kind: TriggerKind,
)
    ensures
        ({
            let fault = edit_fault(b, old_trigger, t, expansion, kind);
            let good = snippet_fault(t, expansion, kind) is None;
            let named = old_trigger.len() > 0;
            let there = b.entries.contains_key(old_trigger);
            let taken = old_trigger != t && b.entries.contains_key(t);
            &&& fault is None <==> named && good && there && !taken
            &&& !named ==> fault == Some("Trigger and expansion are required."@)
            &&& named && !good ==> fault == snippet_fault(t, expansion, kind)
            &&& named && good && !there ==> fault == Some("Snippet not found."@)
            &&& named && good && there && taken ==> fault == Some(
                "A snippet with that trigger already exists."@,
            )
        }),
{
}

/// A change that is made writes what was asked for under the trigger that was
/// asked for, and leaves every other snippet alone; one that is not leaves the
/// store as it was and says why.
pub proof fn a_made_change_is_read_back(
    b: Book,
    r: EditRequest,
    c: Book,
    action: EditAction,
    v: Seq<char>,
)
    requires
        edit_made(b, r, c, action),
    ensures
        ({
            let t = r.old_trigger@;
            let u = r.trigger@;
            let possible = b.entries.contains_key(t) && (t == u || !b.entries.contains_key(u));
            &&& action is Saved <==> possible
            &&& action is Refused <==> !possible
            &&& possible ==> {
                &&& c.entries.contains_key(u)
                &&& c.entries[u] == (r.expansion@, r.kind)
                &&& t != u ==> !c.entries.contains_key(t)
                &&& v != t && v != u ==> c.entries.contains_key(v) == b.entries.contains_key(v)
                &&& v != t && v != u && b.entries.contains_key(v) ==> c.entries[v] == b.entries[v]
                &&& b.wf() ==> c.order.len() == b.order.len()
            }
            &&& !possible ==> c == b
            &&& t != u && b.entries.contains_key(u) ==> action->Refused_message@
                == "A snippet with that trigger already exists."@
            &&& !b.entries.contains_key(t) && !b.entries.contains_key(u)
                ==> action->Refused_message@ == "Snippet not found."@
        }),
{
    if b.wf() && b.entries.contains_key(r.old_trigger@) {
        assert(b.order.contains(r.old_trigger@));
    }
}

/// What a change leaves to be done is handed to the host: after a change that
/// was made, and after one that was not, as the orders that belong to it.
pub proof fn a_change_hands_its_orders_on(b: Book, r: EditRequest, c: Book, action: EditAction)
    requires
        edit_made(b, r, c, action),
    ensures
        action matches EditAction::Saved { follow_up } ==> orders(follow_up@) == after_success(r),
        action matches EditAction::Refused { follow_up, .. } ==> orders(follow_up@)
            == after_failure(r),
{
}

/// The orders that follow a change: an old chord that is no longer meant is
/// given up; a chord that was refused, or registered for nothing, is set back to
/// what it was.
pub proof fn the_orders_that_follow_a_change(r: EditRequest)
    ensures
        ({
            let old_chord = r.old_kind == TriggerKind::Shortcut;
            let new_chord = r.kind == TriggerKind::Shortcut;
            let same = r.old_trigger@ == r.trigger@;
            let give_up_old = HotkeyOrder::Unregister(r.old_trigger@);
            let give_up_new = HotkeyOrder::Unregister(r.trigger@);
            let set_back = HotkeyOrder::Register(r.old_trigger@, r.old_expansion@);
            &&& old_chord && !(new_chord && same) ==> after_success(r) == seq![give_up_old]
            &&& !old_chord || (new_chord && same) ==> after_success(r) == Seq::<HotkeyOrder>::empty()
            &&& old_chord && same ==> after_refusal(r) == seq![set_back]
            &&& !(old_chord && same) ==> after_refusal(r) == Seq::<HotkeyOrder>::empty()
            &&& new_chord && old_chord ==> after_failure(r) == seq![give_up_new, set_back]
            &&& new_chord && !old_chord ==> after_failure(r) == seq![give_up_new]
            &&& !new_chord ==> after_failure(r) == Seq::<HotkeyOrder>::empty()
        }),
{
}

/// A request for a change holds what was asked for and what was there.
pub proof fn a_request_holds_what_was_asked_for(
    b: Book,
    r: EditRequest,
    old_trigger: Seq<char>,
    t: Seq<char>,
    expansion: Seq<char>,
    kind: TriggerKind,
)
    requires
        request_for(b, r, old_trigger, t, expansion, kind),
    ensures
        r.old_trigger@ == old_trigger,
        r.old_expansion@ == b.entries[old_trigger].0,
        r.old_kind == b.entries[old_trigger].1,
        r.trigger@ == t,
        r.expansion@ == expansion,
        r.kind == kind,
{
}

/// Orders say, one by one, what the actions of the host say.
pub proof fn orders_say_what_the_actions_say(
    trigger: String,
    expansion: String,
    actions: Seq<HotkeyAction>,
    i: int,
)
    ensures
        order_of(HotkeyAction::Register { trigger, expansion }) == HotkeyOrder::Register(
            trigger@,
            expansion@,
        ),
        order_of(HotkeyAction::Unregister { trigger }) == HotkeyOrder::Unregister(trigger@),
        orders(actions).len() == actions.len(),
        0 <= i < actions.len() ==> orders(actions)[i] == order_of(actions[i]),
{
}

/// Adding never takes the store past its limit.
pub proof fn adding_respects_the_limit(
    b: Book,
    t: Seq<char>,
    expansion: Seq<char>,
    kind: TriggerKind,
)
    requires
        b.wf(),
        add_fault(b, t, expansion, kind) is None,
    ensures
        b.upsert(t, expansion, kind).entries.len() == b.entries.len() + 1,
        b.upsert(t, expansion, kind).entries.len() <= 10_000,
{
    order_and_entries_have_one_length(b);
    lemma_upsert_wf(b, t, expansion, kind);
    order_and_entries_have_one_length(b.upsert(t, expansion, kind));
}

/// A change that was found good is not refused by the same store.
pub proof fn a_good_change_can_be_made(
    b: Book,
    old_trigger: Seq<char>,
    trigger: Seq<char>,
    expansion: Seq<char>,
    kind: TriggerKind,
)
    requires
        edit_fault(b, old_trigger, trigger, expansion, kind) is None,
    ensures
        replace_error(b, old_trigger, trigger) is None,
{
}

/// The chords that are registered, with their expansions, when orders are
/// carried out one after the other.
pub open spec fn carried_out(
    hot: Map<Seq<char>, Seq<char>>,
    orders: Seq<HotkeyOrder>,
) -> Map<Seq<char>, Seq<char>>
    decreases orders.len(),
{
    if orders.len() == 0 {
        hot
    } else {
        let before = carried_out(hot, orders.drop_last());
        match orders.last() {
            HotkeyOrder::Register(t, expansion) => before.insert(t, expansion),
            HotkeyOrder::Unregister(t) => before.remove(t),
        }
    }
}

/// The chords that are registered when an order, if there is one, is carried
/// out.
pub open spec fn carried_out_if_any(
    hot: Map<Seq<char>, Seq<char>>,
    order: Option<HotkeyOrder>,
) -> Map<Seq<char>, Seq<char>> {
    match order {
        Some(order) => carried_out(hot, seq![order]),
        None => hot,
    }
}

/// Whether the registered chords are the shortcuts of the store.
pub open spec fn in_step(hot: Map<Seq<char>, Seq<char>>, b: Book) -> bool {
    forall|t: Seq<char>| #![trigger hot.contains_key(t)] #![trigger b.entries.contains_key(t)]
        {
            &&& hot.contains_key(t) <==> b.entries.contains_key(t) && b.entries[t].1
                == TriggerKind::Shortcut
            &&& hot.contains_key(t) ==> hot[t] == b.entries[t].0
        }
}

/// Adding keeps the registered chords in step with the store: always when the
/// chord was registered and the shortcut saved; when the chord was refused and
/// nothing saved, and when a text trigger was saved, just if no shortcut was
/// stored under the trigger.
pub proof fn adding_keeps_chords_in_step(
    hot: Map<Seq<char>, Seq<char>>,
    b: Book,
    t: Seq<char>,
    expansion: Seq<char>,
)
    requires
        in_step(hot, b),
    ensures
        in_step(hot.insert(t, expansion), b.upsert(t, expansion, TriggerKind::Shortcut)),
        in_step(hot.remove(t), b) <==> !was_shortcut(stored(b, t)),
        in_step(hot, b.upsert(t, expansion, TriggerKind::Text)) <==> !was_shortcut(stored(b, t)),
{
    let c = b.upsert(t, expansion, TriggerKind::Text);
    assert(hot.contains_key(t) <==> was_shortcut(stored(b, t)));
    assert(c.entries.contains_key(t) && c.entries[t].1 == TriggerKind::Text);
    assert(!hot.remove(t).contains_key(t));
}

/// Removing keeps the registered chords in step with the store.
pub proof fn removing_keeps_chords_in_step(
    hot: Map<Seq<char>, Seq<char>>,
    b: Book,
    t: Seq<char>,
)
    requires
        in_step(hot, b),
    ensures
        b.entries.contains_key(t) && b.entries[t].1 == TriggerKind::Shortcut ==> in_step(
            hot.remove(t),
            b.remove(t),
        ),
        !(b.entries.contains_key(t) && b.entries[t].1 == TriggerKind::Shortcut) ==> in_step(
            hot,
            b.remove(t),
        ),
{
}

/// Changing a snippet keeps the registered chords in step with the store,
/// when what follows is carried out: after a change that was made, and after
/// a chord that was refused. After a change that the store refused, having
/// been changed meanwhile, they are what they were when the change was asked
/// for.
pub proof fn editing_keeps_chords_in_step(hot: Map<Seq<char>, Seq<char>>, b: Book, r: EditRequest)
    requires
        in_step(hot, b),
        replace_error(b, r.old_trigger@, r.trigger@) is None,
        b.entries[r.old_trigger@] == (r.old_expansion@, r.old_kind),
    ensures
        r.kind == TriggerKind::Shortcut ==> {
            &&& in_step(
                carried_out(hot.insert(r.trigger@, r.expansion@), after_success(r)),
                b.replace(r.old_trigger@, r.trigger@, r.expansion@, r.kind),
            )
            &&& in_step(carried_out(hot.remove(r.trigger@), after_refusal(r)), b)
            &&& in_step(carried_out(hot.insert(r.trigger@, r.expansion@), after_failure(r)), b)
        },
        r.kind == TriggerKind::Text ==> in_step(
            carried_out(hot, after_success(r)),
            b.replace(r.old_trigger@, r.trigger@, r.expansion@, r.kind),
        ),
{
    reveal_with_fuel(carried_out, 3);
}

/// Each step of an import keeps the registered chords in step with the store
/// that the import is going to give.
///
/// - A chord that was registered always does.
/// - A text trigger does, unless the import has accepted a shortcut under it
///   where none is stored.
/// - A refused chord does, if the import has left alone what is stored under
///   it or accepted the same again; where no shortcut is stored, it also does
///   if the import has accepted a text trigger.
///
/// What the import has not accepted yet, it has left alone.
pub proof fn importing_keeps_chords_in_step(
    hot: Map<Seq<char>, Seq<char>>,
    b: Book,
    accepted: Seq<(Seq<char>, Seq<char>, TriggerKind)>,
    t: Seq<char>,
    expansion: Seq<char>,
)
    requires
        in_step(hot, b.upsert_all(accepted)),
    ensures
        ({
            let previous = stored(b, t);
            let given = stored(b.upsert_all(accepted), t);
            let text = b.upsert_all(accepted.push((t, expansion, TriggerKind::Text)));
            let chord = b.upsert_all(accepted.push((t, expansion, TriggerKind::Shortcut)));
            &&& in_step(hot.insert(t, expansion), chord)
            &&& in_step(carried_out_if_any(hot, after_taking(t, previous)), text) <==> was_shortcut(
                previous,
            ) || !was_shortcut(given)
            &&& in_step(
                carried_out_if_any(hot.remove(t), after_refused_chord(t, previous)),
                b.upsert_all(accepted),
            ) <==> if was_shortcut(previous) {
                given == previous
            } else {
                !was_shortcut(given)
            }
            &&& !triggers(accepted).contains(t) ==> given == previous
        }),
{
    reveal_with_fuel(carried_out, 2);
    let previous = stored(b, t);
    let c = b.upsert_all(accepted);
    let given = stored(c, t);
    let text = b.upsert_all(accepted.push((t, expansion, TriggerKind::Text)));
    assert(accepted.push((t, expansion, TriggerKind::Text)).drop_last() =~= accepted);
    assert(accepted.push((t, expansion, TriggerKind::Shortcut)).drop_last() =~= accepted);
    if !triggers(accepted).contains(t) {
        lemma_batch_leaves_alone(b, accepted, t);
    }
    assert(hot.contains_key(t) <==> was_shortcut(given));
    let taken = carried_out_if_any(hot, after_taking(t, previous));
    assert(taken.contains_key(t) <==> !was_shortcut(previous) && was_shortcut(given));
    assert(text.entries.contains_key(t) && text.entries[t].1 == TriggerKind::Text);
    let refused = carried_out_if_any(hot.remove(t), after_refused_chord(t, previous));
    assert(refused.contains_key(t) <==> was_shortcut(previous));
    assert(was_shortcut(previous) ==> refused[t] == (previous->0).0);
}

} // verus!
