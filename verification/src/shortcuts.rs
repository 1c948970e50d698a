//! Hotkey ("shortcut") triggers: which chords to register, when a chord fires,
//! and the fallback that finds a chord among the stored shortcuts.
//!
//! The host registers the chords with the system, reads the clock and knows
//! the focused control.

use vstd::prelude::*;
use vstd::string::*;

use crate::keyboard::elapsed;
use crate::snippets::{contents, Book, Snippets, TriggerKind};
use crate::text::{
    ascii_lowered, lowercase, remove_spaces, same_text, spaces_removed, to_ascii_lowercase,
    to_lowercase,
};

verus! {

/// What the host does to the registered hotkeys.
#[derive(Debug)]
pub enum HotkeyAction {
    /// Register a chord, taking the place of what is registered for it.
    Register { trigger: String, expansion: String },
    /// Unregister a chord, if it is registered.
    Unregister { trigger: String },
}

/// The length of time, in milliseconds, that has to pass between two firings.
pub const DEBOUNCE_MS: u64 = 400;

/// How many characters of a chord there are to delete before its expansion: it
/// types none.
pub const CHORD_CHARS: usize = 0;

/// Whether a chord that comes at `now_ms` is far enough from the last.
pub open spec fn far_enough(last_ms: int, now_ms: int) -> bool {
    elapsed(now_ms, last_ms) > 400
}

/// Debounces shortcut triggers across the hotkey and the hook fallback. Every
/// call counts as the last trigger, whether it may fire or not.
pub fn should_fire_shortcut(last_ms: &mut u64, now_ms: u64) -> (fire: bool)
    ensures
        *final(last_ms) == now_ms,
        fire == far_enough(*old(last_ms) as int, now_ms as int),
{
    let previous: u64 = *last_ms;
    *last_ms = now_ms;
    now_ms.saturating_sub(previous) > DEBOUNCE_MS
}

/// The shortcuts of a list of snippets, each with its expansion.
pub open spec fn chords(items: Seq<(Seq<char>, Seq<char>, TriggerKind)>) -> Seq<
    (Seq<char>, Seq<char>),
>
    decreases items.len(),
{
    if items.len() == 0 {
        Seq::empty()
    } else {
        let before = chords(items.drop_last());
        let last = items.last();
        if last.2 == TriggerKind::Shortcut {
            before.push((last.0, last.1))
        } else {
            before
        }
    }
}

/// The chords to register at startup, in user order, each with its expansion.
pub fn register_all(snippets: &Snippets) -> (found: Vec<(String, String)>)
    requires
        snippets.wf(),
    ensures
        found@.map_values(|p: (String, String)| (p.0@, p.1@)) == chords(snippets@.list()),
{
    let items = snippets.list();
    let ghost all = items@;
    let mut found: Vec<(String, String)> = Vec::new();
    assert(found@.map_values(|p: (String, String)| (p.0@, p.1@)) =~= chords(
        contents(all.take(0)),
    ));
    for item in it: items
        invariant
            it.seq() == all,
            found@.map_values(|p: (String, String)| (p.0@, p.1@)) == chords(
                contents(all.take(it.index() as int)),
            ),
    {
        let ghost before = found@.map_values(|p: (String, String)| (p.0@, p.1@));
        assert(contents(all.take(it.index() + 1)).drop_last() =~= contents(
            all.take(it.index() as int),
        ));
        let (trigger, expansion, kind) = item;
        if kind == TriggerKind::Shortcut {
            found.push((trigger, expansion));
            assert(found@.map_values(|p: (String, String)| (p.0@, p.1@)) =~= before.push(
                (trigger@, expansion@),
            ));
        }
    }
    assert(all.take(all.len() as int) =~= all);
    found
}

/// Whether a press of a chord fires it, unless it is a repeat.
pub open spec fn press_fires(last_ms: int, now_ms: int, enabled: bool, password_field: bool) -> bool {
    far_enough(last_ms, now_ms) && enabled && !password_field
}

/// Whether an event of a registered chord fires it. Holding a chord repeats
/// the press; only the first press counts until the release comes.
pub fn chord_event_fires(
    held_down: &mut bool,
    last_ms: &mut u64,
    pressed: bool,
    now_ms: u64,
    enabled: bool,
    password_field: bool,
) -> (fire: bool)
    ensures
        *final(held_down) == pressed,
        *final(last_ms) == if pressed && !*old(held_down) {
            now_ms
        } else {
            *old(last_ms)
        },
        fire == (pressed && !*old(held_down) && press_fires(
            *old(last_ms) as int,
            now_ms as int,
            enabled,
            password_field,
        )),
{
    if !pressed {
        *held_down = false;
        return false;
    }
    let repeat = *held_down;
    *held_down = true;
    if repeat {
        return false;
    }
    let far = should_fire_shortcut(last_ms, now_ms);
    far && enabled && !password_field
}

/// The name of a virtual key: letters, digits, F1 to F12 and the space bar.
pub open spec fn key_name(vk: u32) -> Option<Seq<char>> {
    if 'A' as u32 <= vk <= 'Z' as u32 {
        Some("Key"@.push(vk as char))
    } else if '0' as u32 <= vk <= '9' as u32 {
        Some("Digit"@.push(vk as char))
    } else if 0x70 <= vk <= 0x78 {
        Some("F"@.push(('1' as u32 + (vk - 0x70)) as char))
    } else if 0x79 <= vk <= 0x7B {
        Some("F1"@.push(('0' as u32 + (vk - 0x79)) as char))
    } else if vk == 0x20 {
        Some("Space"@)
    } else {
        None
    }
}

pub fn vk_to_key_name(vk: u32) -> (name: Option<String>)
    ensures
        match name {
            Some(s) => key_name(vk) == Some(s@),
            None => key_name(vk) is None,
        },
{
    if 0x41 <= vk && vk <= 0x5A {
        let mut s = "Key".to_string();
        s.push(vk as u8 as char);
        Some(s)
    } else if 0x30 <= vk && vk <= 0x39 {
        let mut s = "Digit".to_string();
        s.push(vk as u8 as char);
        Some(s)
    } else if 0x70 <= vk && vk <= 0x78 {
        let mut s = "F".to_string();
        s.push((0x31 + (vk as u8 - 0x70)) as char);
        Some(s)
    } else if 0x79 <= vk && vk <= 0x7B {
        let mut s = "F1".to_string();
        s.push((0x30 + (vk as u8 - 0x79)) as char);
        Some(s)
    } else if vk == 0x20 {
        Some("Space".to_string())
    } else {
        None
    }
}

/// A chord in lower case: its modifiers in a fixed order, then its key.
pub open spec fn spelling(
    ctrl: Seq<char>,
    alt: bool,
    shift: bool,
    win: bool,
    key: Seq<char>,
) -> Seq<char> {
    ctrl + (if alt {
        "alt+"@
    } else {
        Seq::empty()
    }) + (if shift {
        "shift+"@
    } else {
        Seq::empty()
    }) + (if win {
        "super+"@
    } else {
        Seq::empty()
    }) + ascii_lowered(key)
}

/// Whether a text in lower case and without spaces spells a chord. A chord
/// has a key with a name and a modifier besides Shift; Ctrl may be spelled
/// out.
pub open spec fn spells(
    lowered: Seq<char>,
    vk: u32,
    ctrl: bool,
    alt: bool,
    shift: bool,
    win: bool,
) -> bool {
    &&& ctrl || alt || win
    &&& key_name(vk) is Some
    &&& if ctrl {
        ||| lowered == spelling("ctrl+"@, alt, shift, win, key_name(vk)->0)
        ||| lowered == spelling("control+"@, alt, shift, win, key_name(vk)->0)
    } else {
        lowered == spelling(Seq::empty(), alt, shift, win, key_name(vk)->0)
    }
}

fn spell(ctrl: &str, alt: bool, shift: bool, win: bool, key: &str) -> (s: String)
    ensures
        s@ == spelling(ctrl@, alt, shift, win, key@),
{
    let mut s = ctrl.to_string();
    if alt {
        s.append("alt+");
    }
    if shift {
        s.append("shift+");
    }
    if win {
        s.append("super+");
    }
    s.append(to_ascii_lowercase(key).as_str());
    assert(s@ =~= spelling(ctrl@, alt, shift, win, key@));
    s
}

/// Whether a text in lower case and without spaces spells a chord.
pub fn chord_matches(
    lowered: &str,
    vk: u32,
    ctrl: bool,
    alt: bool,
    shift: bool,
    win: bool,
) -> (r: bool)
    ensures
        r == spells(lowered@, vk, ctrl, alt, shift, win),
{
    if !ctrl && !alt && !win {
        return false;
    }
    let key = match vk_to_key_name(vk) {
        Some(key) => key,
        None => {
            return false;
        },
    };
    if ctrl {
        same_text(lowered, spell("ctrl+", alt, shift, win, key.as_str()).as_str()) || same_text(
            lowered,
            spell("control+", alt, shift, win, key.as_str()).as_str(),
        )
    } else {
        let none = String::new();
        same_text(lowered, spell(none.as_str(), alt, shift, win, key.as_str()).as_str())
    }
}

/// Whether the snippet at position `i` is a shortcut for a chord.
pub open spec fn chord_at(
    b: Book,
    i: int,
    vk: u32,
    ctrl: bool,
    alt: bool,
    shift: bool,
    win: bool,
) -> bool {
    &&& 0 <= i < b.order.len()
    &&& b.list()[i].2 == TriggerKind::Shortcut
    &&& spells(spaces_removed(lowercase(b.list()[i].0)), vk, ctrl, alt, shift, win)
}

/// Whether the snippet at position `i` is the first shortcut for a chord.
pub open spec fn first_chord_at(
    b: Book,
    i: int,
    vk: u32,
    ctrl: bool,
    alt: bool,
    shift: bool,
    win: bool,
) -> bool {
    &&& chord_at(b, i, vk, ctrl, alt, shift, win)
    &&& forall|j: int| 0 <= j < i ==> !#[trigger] chord_at(b, j, vk, ctrl, alt, shift, win)
}

/// Whether the item at position `i` is a shortcut for a chord, when `lowered`
/// gives the triggers in lower case and without spaces.
pub open spec fn chord_given(
    items: Seq<(Seq<char>, Seq<char>, TriggerKind)>,
    lowered: Seq<Seq<char>>,
    i: int,
    vk: u32,
    ctrl: bool,
    alt: bool,
    shift: bool,
    win: bool,
) -> bool {
    &&& 0 <= i < items.len()
    &&& items[i].2 == TriggerKind::Shortcut
    &&& spells(lowered[i], vk, ctrl, alt, shift, win)
}

/// Whether the item at position `i` is the first shortcut for a chord.
pub open spec fn first_given(
    items: Seq<(Seq<char>, Seq<char>, TriggerKind)>,
    lowered: Seq<Seq<char>>,
    i: int,
    vk: u32,
    ctrl: bool,
    alt: bool,
    shift: bool,
    win: bool,
) -> bool {
    &&& chord_given(items, lowered, i, vk, ctrl, alt, shift, win)
    &&& forall|j: int|
        0 <= j < i ==> !#[trigger] chord_given(items, lowered, j, vk, ctrl, alt, shift, win)
}

/// The character contents of a list of texts.
pub open spec fn texts(list: Seq<String>) -> Seq<Seq<char>> {
    list.map_values(|s: String| s@)
}

/// What became of a chord that the hook saw.
#[derive(Debug)]
pub struct ChordOutcome {
    /// Whether it belongs to a shortcut.
    pub matched: bool,
    /// The text to expand now.
    pub expand: Option<String>,
}

/// Attempts to match a key chord against the stored shortcuts, for when the
/// system's hotkey cannot capture it.
pub fn try_match_chord_fallback(
    vk: u32,
    ctrl: bool,
    alt: bool,
    shift: bool,
    win: bool,
    snippets: &Snippets,
    last_ms: &mut u64,
    now_ms: u64,
    enabled: bool,
    password_field: bool,
) -> (outcome: ChordOutcome)
    requires
        snippets.wf(),
    ensures
        outcome.matched == exists|i: int| #[trigger]
            chord_at(snippets@, i, vk, ctrl, alt, shift, win),
        *final(last_ms) == if outcome.matched {
            now_ms
        } else {
            *old(last_ms)
        },
        outcome.expand is Some == (outcome.matched && press_fires(
            *old(last_ms) as int,
            now_ms as int,
            enabled,
            password_field,
        )),
        outcome.expand matches Some(text) ==> exists|i: int| #[trigger]
            first_chord_at(snippets@, i, vk, ctrl, alt, shift, win) && text@
                == snippets@.list()[i].1,
{
    let ghost b = snippets@;
    if !ctrl && !alt && !win {
        return ChordOutcome { matched: false, expand: None };
    }
    let items = snippets.list();
    let mut lowered: Vec<String> = Vec::new();
    assert(contents(items@).len() == b.list().len());
    while lowered.len() < items.len()
        invariant
            b == snippets@,
            contents(items@) == b.list(),
            items@.len() == b.order.len(),
            lowered@.len() <= items@.len(),
            forall|j: int|
                0 <= j < lowered@.len() && (#[trigger] items@[j]).2 == TriggerKind::Shortcut
                    ==> lowered@[j]@ == spaces_removed(lowercase(items@[j].0@)),
        decreases items@.len() - lowered@.len(),
    {
        let i: usize = lowered.len();
        lowered.push(
            if items[i].2 == TriggerKind::Shortcut {
                remove_spaces(to_lowercase(items[i].0.as_str()).as_str())
            } else {
                String::new()
            },
        );
    }
    let ghost all = contents(items@);
    let ghost low = texts(lowered@);
    assert forall|i: int|
        #![trigger chord_given(all, low, i, vk, ctrl, alt, shift, win)]
        #![trigger chord_at(b, i, vk, ctrl, alt, shift, win)]
        chord_given(all, low, i, vk, ctrl, alt, shift, win) == chord_at(
            b,
            i,
            vk,
            ctrl,
            alt,
            shift,
            win,
        ) by {
        if 0 <= i < items@.len() {
            assert(all[i] == (items@[i].0@, items@[i].1@, items@[i].2));
        }
    }
    let outcome = match_chord_given(
        vk,
        ctrl,
        alt,
        shift,
        win,
        &items,
        &lowered,
        last_ms,
        now_ms,
        enabled,
        password_field,
    );
    proof {
        if outcome.expand is Some {
            let i = choose|i: int| #[trigger]
                first_given(all, low, i, vk, ctrl, alt, shift, win) && outcome.expand->0@
                    == all[i].1;
            assert(first_chord_at(b, i, vk, ctrl, alt, shift, win));
        }
    }
    outcome
}

/// Attempts to match a key chord against a list of snippets, when `lowered`
/// gives their triggers in lower case and without spaces.
pub fn match_chord_given(
    vk: u32,
    ctrl: bool,
    alt: bool,
    shift: bool,
    win: bool,
    items: &Vec<(String, String, TriggerKind)>,
    lowered: &Vec<String>,
    last_ms: &mut u64,
    now_ms: u64,
    enabled: bool,
    password_field: bool,
) -> (outcome: ChordOutcome)
    requires
        lowered@.len() == items@.len(),
    ensures
        outcome.matched == exists|i: int| #[trigger]
            chord_given(contents(items@), texts(lowered@), i, vk, ctrl, alt, shift, win),
        *final(last_ms) == if outcome.matched {
            now_ms
        } else {
            *old(last_ms)
        },
        outcome.expand is Some == (outcome.matched && press_fires(
            *old(last_ms) as int,
            now_ms as int,
            enabled,
            password_field,
        )),
        outcome.expand matches Some(text) ==> exists|i: int| #[trigger]
            first_given(contents(items@), texts(lowered@), i, vk, ctrl, alt, shift, win) && text@
                == contents(items@)[i].1,
{
    let ghost all = contents(items@);
    let ghost low = texts(lowered@);
    let mut i: usize = 0;
    while i < items.len()
        invariant
            all == contents(items@),
            low == texts(lowered@),
            lowered@.len() == items@.len(),
            i <= items@.len(),
            *last_ms == *old(last_ms),
            forall|j: int|
                0 <= j < i ==> !#[trigger] chord_given(all, low, j, vk, ctrl, alt, shift, win),
        decreases items@.len() - i,
    {
        assert(all[i as int] == (items@[i as int].0@, items@[i as int].1@, items@[i as int].2));
        assert(low[i as int] == lowered@[i as int]@);
        if items[i].2 == TriggerKind::Shortcut && chord_matches(
            lowered[i].as_str(),
            vk,
            ctrl,
            alt,
            shift,
            win,
        ) {
            assert(chord_given(all, low, i as int, vk, ctrl, alt, shift, win));
            assert(first_given(all, low, i as int, vk, ctrl, alt, shift, win));
            let far = should_fire_shortcut(last_ms, now_ms);
            if far && enabled && !password_field {
                return ChordOutcome { matched: true, expand: Some(items[i].1.clone()) };
            }
            return ChordOutcome { matched: true, expand: None };
        }
        i += 1;
    }
    ChordOutcome { matched: false, expand: None }
}

} // verus!
