//! What holds of key events and of chords.

use vstd::prelude::*;

use crate::keyboard::{
    click_cancels, elapsed, heartbeat, heartbeat_lost, hook_after_key, is_foreign, is_heartbeat,
    key_action, watchdog_action, Hook, KeyAction, RawKey, Signatures, WatchdogAction,
    WatchdogEvent, HC_ACTION,
};
use crate::shortcuts::{
    chord_at, chord_given, chords, far_enough, first_chord_at, first_given, key_name, press_fires,
    spelling, spells,
};
use crate::snippets::{Book, TriggerKind};
use crate::text::{ascii_lower, ascii_lowered, lowercase, spaces_removed};

verus! {

/// Only a heartbeat is kept from the apps: the key F24, or what carries the
/// heartbeat's mark. It is noted, and counts as no typing.
pub proof fn only_heartbeats_are_consumed(
    hook: Hook,
    key: RawKey,
    signatures: Signatures,
    now_ms: u64,
)
    ensures
        key_action(hook, key, signatures) == KeyAction::Consume <==> key.code == 0 && (key.vk == 0x87
            || key.extra_info == signatures.heartbeat),
        key_action(hook, key, signatures) == KeyAction::Consume ==> hook_after_key(
            hook,
            key,
            signatures,
            now_ms,
        ) == (Hook { last_pong_ms: now_ms, ..hook }),
{
}

/// Every key that a user presses or releases, but F24, reaches the apps; it is
/// counted and timed, goes to the engine if that listens, and stops a type-out
/// if it goes down.
pub proof fn typing_is_passed_on_and_counted(
    hook: Hook,
    key: RawKey,
    signatures: Signatures,
    now_ms: u64,
)
    requires
        key.code == 0,
        key.vk != 0x87,
        key.extra_info != signatures.inject,
        key.extra_info != signatures.heartbeat,
    ensures
        ({
            let after = hook_after_key(hook, key, signatures, now_ms);
            &&& key_action(hook, key, signatures) matches KeyAction::Pass { cancel_typeout, forward }
            &&& cancel_typeout <==> key.message == 0x100 || key.message == 0x104
            &&& forward is Some <==> hook.connected
            &&& forward matches Some(event) ==> event.message == key.message && event.vk == key.vk
                && event.scan == key.scan
            &&& after.events as int == if hook.events == u64::MAX {
                0
            } else {
                hook.events + 1
            }
            &&& after.last_event_ms == now_ms
            &&& after == (Hook { events: after.events, last_event_ms: now_ms, ..hook })
        }),
{
}

/// What the app types itself, and what the hook is not to look at, reaches the
/// apps and leaves no trace.
pub proof fn other_events_leave_no_trace(
    hook: Hook,
    key: RawKey,
    signatures: Signatures,
    now_ms: u64,
)
    requires
        key.code != 0 || (key.extra_info == signatures.inject && key.vk != 0x87
            && signatures.inject != signatures.heartbeat),
    ensures
        key_action(hook, key, signatures) == (KeyAction::Pass {
            cancel_typeout: false,
            forward: None,
        }),
        hook_after_key(hook, key, signatures, now_ms) == hook,
{
}

/// A mouse event stops a type-out just if the user presses the left, the right,
/// the middle or an extra button.
pub proof fn a_press_of_a_button_stops_a_type_out(
    code: i32,
    message: u32,
    extra_info: usize,
    signatures: Signatures,
)
    ensures
        click_cancels(code, message, extra_info, signatures) <==> {
            &&& code == 0
            &&& extra_info != signatures.inject
            &&& extra_info != signatures.heartbeat
            &&& message == 0x201 || message == 0x204 || message == 0x207 || message == 0x20b
        },
{
}

/// The time that has gone by leads from then to now, and is none if now is not
/// later.
pub proof fn time_goes_by(now_ms: int, then_ms: int)
    ensures
        now_ms >= then_ms ==> then_ms + elapsed(now_ms, then_ms) == now_ms,
        now_ms <= then_ms ==> elapsed(now_ms, then_ms) == 0,
{
}

/// The watchdog has a hook reinstalled just if it is not installed, has no
/// thread, its thread is known to have ended, or a heartbeat has gone unanswered
/// for more than two seconds while nobody typed for five.
pub proof fn a_lost_hook_is_reinstalled(hook: Hook, exit_code: Option<u32>, now_ms: u64)
    ensures
        watchdog_action(hook, WatchdogEvent::Woke) == WatchdogAction::Reinstall <==> !hook.ready
            || hook.thread_id == 0,
        hook.ready && hook.thread_id != 0 ==> watchdog_action(hook, WatchdogEvent::Woke) == (
        WatchdogAction::Check { thread_id: hook.thread_id }),
        watchdog_action(hook, WatchdogEvent::Checked { exit_code, now_ms })
            == WatchdogAction::Reinstall <==> {
            ||| exit_code is Some && exit_code->0 != 259
            ||| {
                &&& hook.last_ping_ms > 0
                &&& hook.last_pong_ms < hook.last_ping_ms
                &&& now_ms - hook.last_ping_ms > 2_000
                &&& hook.last_event_ms == 0 || now_ms - hook.last_event_ms >= 5_000
            }
        },
        watchdog_action(hook, WatchdogEvent::Checked { exit_code, now_ms })
            != WatchdogAction::Reinstall ==> watchdog_action(
            hook,
            WatchdogEvent::Checked { exit_code, now_ms },
        ) == WatchdogAction::ReportHealthy,
{
}

/// A healthy hook gets a heartbeat just if nobody has typed yet or for more
/// than two seconds, and is left alone else.
pub proof fn an_idle_hook_gets_a_heartbeat(hook: Hook, now_ms: u64)
    ensures
        watchdog_action(hook, WatchdogEvent::Healthy { now_ms }) == if hook.last_event_ms == 0
            || now_ms - hook.last_event_ms > 2_000 {
            WatchdogAction::Ping
        } else {
            WatchdogAction::Pause
        },
{
}

/// The heartbeat is the release of F24, with the heartbeat's mark on it.
pub proof fn the_heartbeat_is_a_marked_release(signatures: Signatures)
    ensures
        heartbeat(signatures).vk == 0x87,
        heartbeat(signatures).scan == 0,
        heartbeat(signatures).key_up,
        heartbeat(signatures).time == 0,
        heartbeat(signatures).extra_info == signatures.heartbeat,
{
}

/// A press fires just if it comes more than 400 milliseconds after the last,
/// the app is enabled, and the focus is in no password field.
pub proof fn a_press_fires_when_it_may(
    last_ms: int,
    now_ms: int,
    enabled: bool,
    password_field: bool,
)
    ensures
        far_enough(last_ms, now_ms) <==> now_ms - last_ms > 400,
        press_fires(last_ms, now_ms, enabled, password_field) <==> now_ms - last_ms > 400 && enabled
            && !password_field,
{
}

/// The chords to register are the shortcuts, each with its expansion, in the
/// order in which they stand: those of the first part of a list, then those of
/// the rest.
pub proof fn every_shortcut_is_registered(
    before: Seq<(Seq<char>, Seq<char>, TriggerKind)>,
    item: (Seq<char>, Seq<char>, TriggerKind),
    behind: Seq<(Seq<char>, Seq<char>, TriggerKind)>,
)
    ensures
        chords(before + seq![item] + behind) == chords(before) + (if item.2
            == TriggerKind::Shortcut {
            seq![(item.0, item.1)]
        } else {
            Seq::empty()
        }) + chords(behind),
        chords(Seq::empty()) == Seq::<(Seq<char>, Seq<char>)>::empty(),
    decreases behind.len(),
{
    let all = before + seq![item] + behind;
    if behind.len() == 0 {
        assert(all.drop_last() =~= before);
        assert(all.last() == item);
        assert(chords(all) =~= chords(before) + (if item.2 == TriggerKind::Shortcut {
            seq![(item.0, item.1)]
        } else {
            Seq::empty()
        }) + chords(behind));
    } else {
        every_shortcut_is_registered(before, item, behind.drop_last());
        assert(all.drop_last() =~= before + seq![item] + behind.drop_last());
        assert(all.last() == behind.last());
        assert(chords(all) =~= chords(before) + (if item.2 == TriggerKind::Shortcut {
            seq![(item.0, item.1)]
        } else {
            Seq::empty()
        }) + chords(behind));
    }
}

/// The keys with a name: the letters and the digits, named by themselves, F1 to
/// F12, and the space bar.
pub proof fn keys_are_named_by_what_they_are(vk: u32, c: char)
    ensures
        0x41 <= vk <= 0x5a && c as u32 == vk ==> key_name(vk) == Some("Key"@ + seq![c]),
        0x30 <= vk <= 0x39 && c as u32 == vk ==> key_name(vk) == Some("Digit"@ + seq![c]),
        key_name(0x70) == Some("F1"@),
        key_name(0x71) == Some("F2"@),
        key_name(0x72) == Some("F3"@),
        key_name(0x73) == Some("F4"@),
        key_name(0x74) == Some("F5"@),
        key_name(0x75) == Some("F6"@),
        key_name(0x76) == Some("F7"@),
        key_name(0x77) == Some("F8"@),
        key_name(0x78) == Some("F9"@),
        key_name(0x79) == Some("F10"@),
        key_name(0x7a) == Some("F11"@),
        key_name(0x7b) == Some("F12"@),
        key_name(0x20) == Some("Space"@),
        key_name(vk) is None <==> !(0x41 <= vk <= 0x5a) && !(0x30 <= vk <= 0x39) && !(0x70 <= vk
            <= 0x7b) && vk != 0x20,
{
    reveal_strlit("F");
    reveal_strlit("F1");
    reveal_strlit("F2");
    reveal_strlit("F3");
    reveal_strlit("F4");
    reveal_strlit("F5");
    reveal_strlit("F6");
    reveal_strlit("F7");
    reveal_strlit("F8");
    reveal_strlit("F9");
    reveal_strlit("F10");
    reveal_strlit("F11");
    reveal_strlit("F12");
    assert("Key"@.push(c) =~= "Key"@ + seq![c]);
    assert("Digit"@.push(c) =~= "Digit"@ + seq![c]);
    assert(key_name(0x70)->0 =~= "F1"@);
    assert(key_name(0x71)->0 =~= "F2"@);
    assert(key_name(0x72)->0 =~= "F3"@);
    assert(key_name(0x73)->0 =~= "F4"@);
    assert(key_name(0x74)->0 =~= "F5"@);
    assert(key_name(0x75)->0 =~= "F6"@);
    assert(key_name(0x76)->0 =~= "F7"@);
    assert(key_name(0x77)->0 =~= "F8"@);
    assert(key_name(0x78)->0 =~= "F9"@);
    assert(key_name(0x79)->0 =~= "F10"@);
    assert(key_name(0x7a)->0 =~= "F11"@);
    assert(key_name(0x7b)->0 =~= "F12"@);
}

/// A text spells a chord just if it is its modifiers, Ctrl first in either
/// spelling, then Alt, Shift and the Windows key, each if it is held and with a
/// plus behind it, and then the key's name in lower case; Shift alone does not
/// do.
pub proof fn a_chord_is_its_modifiers_and_its_key(
    s: Seq<char>,
    vk: u32,
    ctrl: bool,
    alt: bool,
    shift: bool,
    win: bool,
    alt_part: Seq<char>,
    shift_part: Seq<char>,
    win_part: Seq<char>,
    key: Seq<char>,
)
    requires
        alt_part == if alt {
            "alt+"@
        } else {
            Seq::empty()
        },
        shift_part == if shift {
            "shift+"@
        } else {
            Seq::empty()
        },
        win_part == if win {
            "super+"@
        } else {
            Seq::empty()
        },
        key_name(vk) == Some(key),
    ensures
        spells(s, vk, ctrl, alt, shift, win) <==> (ctrl || alt || win) && if ctrl {
            ||| s == "ctrl+"@ + alt_part + shift_part + win_part + ascii_lowered(key)
            ||| s == "control+"@ + alt_part + shift_part + win_part + ascii_lowered(key)
        } else {
            s == alt_part + shift_part + win_part + ascii_lowered(key)
        },
{
    assert(Seq::empty() + alt_part =~= alt_part);
}

/// A key without a name makes no chord.
pub proof fn a_nameless_key_makes_no_chord(
    s: Seq<char>,
    vk: u32,
    ctrl: bool,
    alt: bool,
    shift: bool,
    win: bool,
)
    requires
        key_name(vk) is None,
    ensures
        !spells(s, vk, ctrl, alt, shift, win),
{
}

/// A snippet is found for a chord just if it is a shortcut whose trigger, in
/// lower case and without spaces, spells the chord.
pub proof fn a_chord_finds_its_shortcuts(
    b: Book,
    i: int,
    vk: u32,
    ctrl: bool,
    alt: bool,
    shift: bool,
    win: bool,
)
    ensures
        chord_at(b, i, vk, ctrl, alt, shift, win) <==> {
            &&& 0 <= i < b.order.len()
            &&& b.entries[b.order[i]].1 == TriggerKind::Shortcut
            &&& spells(spaces_removed(lowercase(b.order[i])), vk, ctrl, alt, shift, win)
        },
{
}

/// Of the snippets that are found for a chord, none stands before the one that
/// is taken.
pub proof fn the_first_shortcut_is_taken(
    b: Book,
    i: int,
    j: int,
    vk: u32,
    ctrl: bool,
    alt: bool,
    shift: bool,
    win: bool,
)
    requires
        first_chord_at(b, i, vk, ctrl, alt, shift, win),
    ensures
        chord_at(b, i, vk, ctrl, alt, shift, win),
        chord_at(b, j, vk, ctrl, alt, shift, win) ==> i <= j,
{
}

/// The same, over a list of snippets whose triggers are given in lower case and
/// without spaces.
pub proof fn a_chord_finds_its_shortcuts_in_a_list(
    items: Seq<(Seq<char>, Seq<char>, TriggerKind)>,
    lowered: Seq<Seq<char>>,
    i: int,
    j: int,
    vk: u32,
    ctrl: bool,
    alt: bool,
    shift: bool,
    win: bool,
)
    ensures
        chord_given(items, lowered, i, vk, ctrl, alt, shift, win) <==> {
            &&& 0 <= i < items.len()
            &&& items[i].2 == TriggerKind::Shortcut
            &&& spells(lowered[i], vk, ctrl, alt, shift, win)
        },
        first_given(items, lowered, i, vk, ctrl, alt, shift, win) ==> chord_given(
            items,
            lowered,
            i,
            vk,
            ctrl,
            alt,
            shift,
            win,
        ),
        first_given(items, lowered, i, vk, ctrl, alt, shift, win) && chord_given(
            items,
            lowered,
            j,
            vk,
            ctrl,
            alt,
            shift,
            win,
        ) ==> i <= j,
{
}

/// The app's own synthetic input is neither counted nor forwarded as typing.
pub proof fn own_input_is_no_typing(key: RawKey, signatures: Signatures)
    requires
        key.extra_info == signatures.inject || key.extra_info == signatures.heartbeat,
    ensures
        !is_foreign(key, signatures),
{
}

/// An event is never both a heartbeat and typing.
pub proof fn a_heartbeat_is_no_typing(key: RawKey, signatures: Signatures)
    ensures
        !(is_heartbeat(key, signatures) && is_foreign(key, signatures)),
{
}

/// The heartbeat that the app sends is recognised when it reaches the hook,
/// and is taken for nobody's typing.
pub proof fn a_heartbeat_is_recognised(key: RawKey, signatures: Signatures)
    requires
        key.code == HC_ACTION,
        key.vk == heartbeat(signatures).vk,
        key.extra_info == heartbeat(signatures).extra_info,
    ensures
        is_heartbeat(key, signatures),
        !is_foreign(key, signatures),
{
}

/// Recent typing and an answered heartbeat each prove the hook alive.
pub proof fn life_signs_keep_the_hook(hook: Hook, now_ms: int)
    requires
        hook.last_pong_ms >= hook.last_ping_ms || (hook.last_event_ms > 0 && elapsed(
            now_ms,
            hook.last_event_ms as int,
        ) < 5000),
    ensures
        !heartbeat_lost(hook, now_ms),
{
}

/// A hook whose heartbeat was forgotten, as it is before a reinstallation, is
/// not taken for lost again on account of the old heartbeat.
pub proof fn a_reinstalled_hook_starts_afresh(hook: Hook, now_ms: int)
    ensures
        !heartbeat_lost(Hook { last_ping_ms: 0, last_pong_ms: 0, ..hook }, now_ms),
{
}

/// What the clock of the last trigger shows before the `i`-th of several
/// triggers, which came at the given times: every trigger sets it, by hotkey or
/// by fallback, whether it fires or not.
pub open spec fn clock_before(start_ms: int, times: Seq<int>, i: int) -> int {
    if i == 0 {
        start_ms
    } else {
        times[i - 1]
    }
}

/// A trigger that fires comes more than 400 milliseconds after every trigger
/// before it, and so after every firing, as long as the clock is not set back
/// between them. After the trigger right before it, it does in any case.
pub proof fn firings_are_apart(
    start_ms: int,
    times: Seq<int>,
    i: int,
    j: int,
    enabled: bool,
    password_field: bool,
)
    requires
        0 <= i < j < times.len(),
        press_fires(clock_before(start_ms, times, j), times[j], enabled, password_field),
    ensures
        times[j] - times[j - 1] > 400,
        times[i] <= times[j - 1] ==> times[j] - times[i] > 400,
{
}

/// Shift alone makes no chord.
pub proof fn a_chord_needs_a_modifier(lowered: Seq<char>, vk: u32, shift: bool)
    ensures
        !spells(lowered, vk, false, false, shift, false),
{
}

/// Every chord of a named key with a modifier besides Shift has a spelling.
pub proof fn every_chord_has_a_spelling(vk: u32, ctrl: bool, alt: bool, shift: bool, win: bool)
    requires
        ctrl || alt || win,
        key_name(vk) is Some,
    ensures
        spells(
            spelling(
                if ctrl {
                    "ctrl+"@
                } else {
                    Seq::empty()
                },
                alt,
                shift,
                win,
                key_name(vk)->0,
            ),
            vk,
            ctrl,
            alt,
            shift,
            win,
        ),
{
}

/// A text spells at most one chord.
pub proof fn a_text_spells_at_most_one_chord(
    s: Seq<char>,
    vk: u32,
    ctrl: bool,
    alt: bool,
    shift: bool,
    win: bool,
    vk2: u32,
    ctrl2: bool,
    alt2: bool,
    shift2: bool,
    win2: bool,
)
    requires
        spells(s, vk, ctrl, alt, shift, win),
        spells(s, vk2, ctrl2, alt2, shift2, win2),
    ensures
        vk == vk2,
        ctrl == ctrl2,
        alt == alt2,
        shift == shift2,
        win == win2,
{
    let c = tail(vk, alt, shift, win);
    let c2 = tail(vk2, alt2, shift2, win2);
    lemma_spelling(vk, alt, shift, win);
    lemma_spelling(vk2, alt2, shift2, win2);
    lemma_tail_begins(vk, alt, shift, win);
    lemma_tail_begins(vk2, alt2, shift2, win2);
    lemma_ctrl(s, ctrl, c, ctrl2, c2);
    lemma_tails_differ(vk, alt, shift, win, vk2, alt2, shift2, win2);
}

/// A chord in lower case, from Alt on.
spec fn tail(vk: u32, alt: bool, shift: bool, win: bool) -> Seq<char> {
    modified(
        alt,
        "alt+"@,
        modified(
            shift,
            "shift+"@,
            modified(win, "super+"@, ascii_lowered(key_name(vk)->0)),
        ),
    )
}

/// A text with a modifier before it, or without.
spec fn modified(on: bool, modifier: Seq<char>, rest: Seq<char>) -> Seq<char> {
    if on {
        modifier + rest
    } else {
        rest
    }
}

proof fn lemma_spelling(vk: u32, alt: bool, shift: bool, win: bool)
    ensures
        forall|ctrl: Seq<char>| #[trigger]
            spelling(ctrl, alt, shift, win, key_name(vk)->0) == ctrl + tail(vk, alt, shift, win),
        Seq::empty() + tail(vk, alt, shift, win) == tail(vk, alt, shift, win),
{
    assert(Seq::empty() + tail(vk, alt, shift, win) =~= tail(vk, alt, shift, win));
    assert forall|ctrl: Seq<char>| #[trigger]
        spelling(ctrl, alt, shift, win, key_name(vk)->0) == ctrl + tail(vk, alt, shift, win) by {
        assert(spelling(ctrl, alt, shift, win, key_name(vk)->0) =~= ctrl + tail(
            vk,
            alt,
            shift,
            win,
        ));
    }
}

proof fn lemma_tail_begins(vk: u32, alt: bool, shift: bool, win: bool)
    requires
        key_name(vk) is Some,
    ensures
        tail(vk, alt, shift, win).len() >= 2,
        tail(vk, alt, shift, win)[0] != 'c',
{
    lemma_key(vk);
    reveal_strlit("alt+");
    reveal_strlit("shift+");
    reveal_strlit("super+");
}

/// Both spellings of Ctrl can be told from each other and from a chord without
/// it.
proof fn lemma_ctrl(s: Seq<char>, ctrl: bool, c: Seq<char>, ctrl2: bool, c2: Seq<char>)
    requires
        if ctrl {
            s == "ctrl+"@ + c || s == "control+"@ + c
        } else {
            s == c
        },
        if ctrl2 {
            s == "ctrl+"@ + c2 || s == "control+"@ + c2
        } else {
            s == c2
        },
        c.len() >= 2,
        c2.len() >= 2,
        c[0] != 'c',
        c2[0] != 'c',
    ensures
        ctrl == ctrl2,
        c == c2,
{
    reveal_strlit("ctrl+");
    reveal_strlit("control+");
    if ctrl {
        assert(s[0] == 'c');
        assert(s[1] == 't' ==> s.skip(5) =~= c);
        assert(s[1] == 'o' ==> s.skip(8) =~= c);
    }
    if ctrl2 {
        assert(s[0] == 'c');
        assert(s[1] == 't' ==> s.skip(5) =~= c2);
        assert(s[1] == 'o' ==> s.skip(8) =~= c2);
    }
}

proof fn lemma_tails_differ(
    vk: u32,
    alt: bool,
    shift: bool,
    win: bool,
    vk2: u32,
    alt2: bool,
    shift2: bool,
    win2: bool,
)
    requires
        key_name(vk) is Some,
        key_name(vk2) is Some,
        tail(vk, alt, shift, win) == tail(vk2, alt2, shift2, win2),
    ensures
        vk == vk2,
        alt == alt2,
        shift == shift2,
        win == win2,
{
    let k = ascii_lowered(key_name(vk)->0);
    let k2 = ascii_lowered(key_name(vk2)->0);
    let a = modified(win, "super+"@, k);
    let a2 = modified(win2, "super+"@, k2);
    let b = modified(shift, "shift+"@, a);
    let b2 = modified(shift2, "shift+"@, a2);
    lemma_key(vk);
    lemma_key(vk2);
    reveal_strlit("alt+");
    reveal_strlit("shift+");
    reveal_strlit("super+");
    lemma_modified(alt, alt2, "alt+"@, b, b2);
    lemma_modified(shift, shift2, "shift+"@, a, a2);
    lemma_modified(win, win2, "super+"@, k, k2);
    lemma_key_names_differ(vk, vk2);
}

/// A modifier can be told from what may follow it.
proof fn lemma_modified(on: bool, on2: bool, modifier: Seq<char>, rest: Seq<char>, rest2: Seq<char>)
    requires
        modified(on, modifier, rest) == modified(on2, modifier, rest2),
        modifier.len() >= 2,
        rest.len() >= 2,
        rest2.len() >= 2,
        modifier[0] != rest[0] || modifier[1] != rest[1],
        modifier[0] != rest2[0] || modifier[1] != rest2[1],
    ensures
        on == on2,
        rest == rest2,
{
    let s = modified(on, modifier, rest);
    if on && on2 {
        let n = modifier.len() as int;
        assert(s.skip(n) =~= rest);
        assert(s.skip(n) =~= rest2);
    } else if on {
        assert((modifier + rest)[0] == rest2[0] && (modifier + rest)[1] == rest2[1]);
    } else if on2 {
        assert((modifier + rest2)[0] == rest[0] && (modifier + rest2)[1] == rest[1]);
    }
}

/// How the name of a key begins in lower case.
proof fn lemma_key(vk: u32)
    requires
        key_name(vk) is Some,
    ensures
        ({
            let k = ascii_lowered(key_name(vk)->0);
            &&& k.len() >= 2
            &&& k[0] == 'k' || k[0] == 'd' || k[0] == 'f' || (k[0] == 's' && k[1] == 'p')
        }),
{
    reveal_strlit("Key");
    reveal_strlit("Digit");
    reveal_strlit("F");
    reveal_strlit("F1");
    reveal_strlit("Space");
}

/// Different keys have names that differ by more than letter case.
proof fn lemma_key_names_differ(vk: u32, vk2: u32)
    requires
        key_name(vk) is Some,
        key_name(vk2) is Some,
        ascii_lowered(key_name(vk)->0) == ascii_lowered(key_name(vk2)->0),
    ensures
        vk == vk2,
{
    reveal_strlit("Key");
    reveal_strlit("Digit");
    reveal_strlit("F");
    reveal_strlit("F1");
    reveal_strlit("Space");
    let a = key_name(vk)->0;
    let b = key_name(vk2)->0;
    let k = ascii_lowered(a);
    let k2 = ascii_lowered(b);
    assert(a.len() == k.len() && b.len() == k2.len());
    let n = a.len() - 1;
    assert(k[0] == ascii_lower(a[0]) && k2[0] == ascii_lower(b[0]));
    assert(k[n] == ascii_lower(a[n]) && k2[n] == ascii_lower(b[n]));
}

} // verus!
