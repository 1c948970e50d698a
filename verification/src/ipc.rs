//! The command surface exposed to the UI. The UI reads and writes snippets
//! and settings and flips the enabled flag. Shortcut snippets are registered
//! as system hotkeys as part of the same command.
//!
//! The host does the registering, the reading and the writing. A command that
//! needs a hotkey registered says so, and is called again with the outcome.

use vstd::prelude::*;
use vstd::string::*;

use crate::expansion;
use crate::expansion::{clamped, InsertMode, PasteCombo, Settings};
use crate::shortcuts::HotkeyAction;
use crate::snippets::{
    contents, replace_error, Book, Snippets, TriggerKind, MAX_TEXT_TRIGGER_CHARS,
};
use crate::text::{chars_of, control, is_control, same_text, trim, trimmed};

verus! {

pub const MAX_EXPANSION_CHARS: usize = 1_000_000;

pub const MAX_SNIPPETS: usize = 10_000;

/// What is wrong with a snippet on its own, if anything.
pub open spec fn snippet_fault(
    trigger: Seq<char>,
    expansion: Seq<char>,
    kind: TriggerKind,
) -> Option<Seq<char>> {
    if trigger.len() == 0 || expansion.len() == 0 {
        Some("Both trigger and expansion are required."@)
    } else if expansion.len() > 1_000_000 {
        Some("Expansion is too long (maximum 1000000 characters)."@)
    } else if kind == TriggerKind::Text && trigger.len() > 64 {
        Some("Text trigger is too long (maximum 64 characters)."@)
    } else if kind == TriggerKind::Text && exists|i: int|
        0 <= i < trigger.len() && control(#[trigger] trigger[i]) {
        Some("Text triggers cannot contain control characters."@)
    } else {
        None
    }
}

fn has_control(s: &str) -> (r: bool)
    ensures
        r == exists|i: int| 0 <= i < s@.len() && control(#[trigger] s@[i]),
{
    let v = chars_of(s);
    let mut i: usize = 0;
    while i < v.len()
        invariant
            v@ == s@,
            i <= v@.len(),
            forall|k: int| 0 <= k < i ==> !control(#[trigger] s@[k]),
        decreases v@.len() - i,
    {
        if is_control(v[i]) {
            assert(control(s@[i as int]));
            return true;
        }
        i += 1;
    }
    false
}

pub fn validate_snippet(trigger: &str, expansion: &str, kind: TriggerKind) -> (r: Result<
    (),
    String,
>)
    ensures
        match r {
            Ok(()) => snippet_fault(trigger@, expansion@, kind) is None,
            Err(e) => snippet_fault(trigger@, expansion@, kind) == Some(e@),
        },
{
    if trigger.is_empty() || expansion.is_empty() {
        return Err("Both trigger and expansion are required.".to_string());
    }
    if expansion.unicode_len() > MAX_EXPANSION_CHARS {
        return Err("Expansion is too long (maximum 1000000 characters).".to_string());
    }
    if kind == TriggerKind::Text {
        if trigger.unicode_len() > MAX_TEXT_TRIGGER_CHARS {
            return Err("Text trigger is too long (maximum 64 characters).".to_string());
        }
        if has_control(trigger) {
            return Err("Text triggers cannot contain control characters.".to_string());
        }
    }
    Ok(())
}

/// One snippet, as the UI shows it.
#[derive(Debug)]
pub struct SnippetView {
    pub trigger: String,
    pub expansion: String,
    pub kind: TriggerKind,
}

/// What the UI shows of the app.
#[derive(Debug)]
pub struct Status {
    pub enabled: bool,
    pub count: usize,
    pub version: String,
    pub insert_mode: InsertMode,
    pub wpm: u32,
    pub paste_combo: PasteCombo,
    pub restore_delay_ms: u32,
    pub auto_paste_words: u32,
}

pub fn get_status(
    snippets: &Snippets,
    enabled: bool,
    version: String,
    settings: &Settings,
) -> (status: Status)
    ensures
        status.enabled == enabled,
        status.count == snippets@.entries.len(),
        status.version == version,
        status.insert_mode == settings.insert_mode,
        status.wpm == settings.wpm,
        status.paste_combo == settings.paste_combo,
        status.restore_delay_ms == settings.restore_delay_ms,
        status.auto_paste_words == settings.auto_paste_words,
{
    Status {
        enabled,
        count: snippets.len(),
        version,
        insert_mode: expansion::insert_mode(settings),
        wpm: expansion::wpm(settings),
        paste_combo: expansion::paste_combo(settings),
        restore_delay_ms: expansion::restore_delay_ms(settings),
        auto_paste_words: expansion::auto_paste_words(settings),
    }
}

/// Sets the insert mode and gives the settings to be stored.
pub fn set_insert_mode(settings: &mut Settings, mode: InsertMode) -> (stored: Settings)
    ensures
        *final(settings) == (Settings { insert_mode: mode, ..*old(settings) }),
        stored == *final(settings),
{
    expansion::set_insert_mode(settings, mode);
    *settings
}

/// Sets the typing speed and gives the settings to be stored.
pub fn set_wpm(settings: &mut Settings, wpm: u32) -> (stored: Settings)
    ensures
        *final(settings) == (Settings {
            wpm: clamped(wpm as int, 100, 1500) as u32,
            ..*old(settings)
        }),
        stored == *final(settings),
{
    expansion::set_wpm(settings, wpm);
    *settings
}

/// Sets the paste combo and gives the settings to be stored.
pub fn set_paste_combo(settings: &mut Settings, combo: PasteCombo) -> (stored: Settings)
    ensures
        *final(settings) == (Settings { paste_combo: combo, ..*old(settings) }),
        stored == *final(settings),
{
    expansion::set_paste_combo(settings, combo);
    *settings
}

/// Sets the restore delay and gives the settings to be stored.
pub fn set_restore_delay_ms(settings: &mut Settings, delay_ms: u32) -> (stored: Settings)
    ensures
        *final(settings) == (Settings {
            restore_delay_ms: clamped(delay_ms as int, 3_000, 15_000) as u32,
            ..*old(settings)
        }),
        stored == *final(settings),
{
    expansion::set_restore_delay_ms(settings, delay_ms);
    *settings
}

/// Sets the word count that the UI shows and gives the settings to be stored.
pub fn set_auto_paste_words(settings: &mut Settings, words: u32) -> (stored: Settings)
    ensures
        *final(settings) == (Settings { auto_paste_words: words, ..*old(settings) }),
        stored == *final(settings),
{
    expansion::set_auto_paste_words(settings, words);
    *settings
}

/// The snippets in user order.
pub fn get_snippets(snippets: &Snippets) -> (views: Vec<SnippetView>)
    requires
        snippets.wf(),
    ensures
        views@.map_values(|v: SnippetView| (v.trigger@, v.expansion@, v.kind))
            == snippets@.list(),
{
    let items = snippets.list();
    let ghost all = items@;
    let mut views: Vec<SnippetView> = Vec::new();
    for item in it: items
        invariant
            it.seq() == all,
            views@.map_values(|v: SnippetView| (v.trigger@, v.expansion@, v.kind)) == contents(
                all.take(it.index() as int),
            ),
    {
        let ghost before = contents(all.take(it.index() as int));
        let (trigger, expansion, kind) = item;
        views.push(SnippetView { trigger, expansion, kind });
        assert(contents(all.take(it.index() + 1)) =~= before.push((trigger@, expansion@, kind)));
        assert(views@.map_values(|v: SnippetView| (v.trigger@, v.expansion@, v.kind))
            =~= before.push((trigger@, expansion@, kind)));
    }
    assert(all.take(all.len() as int) =~= all);
    views
}

/// A snippet that is about to be added.
#[derive(Debug)]
pub struct NewSnippet {
    pub trigger: String,
    pub expansion: String,
    pub kind: TriggerKind,
}

/// What happens while a snippet is added.
#[derive(Debug)]
pub enum AddStep {
    /// The user asks for it.
    Submitted { trigger: String, expansion: String, kind: TriggerKind },
    /// The system answered the registration of its chord.
    Registered { snippet: NewSnippet, outcome: Result<(), String> },
}

/// What is to be done while a snippet is added.
#[derive(Debug)]
pub enum AddAction {
    /// Register its chord with the system, and come back with the outcome.
    Register(NewSnippet),
    /// Store the snippets; it is done.
    Saved,
    /// Tell the user why not.
    Refused(String),
}

/// What speaks against adding a snippet, if anything.
pub open spec fn add_fault(
    b: Book,
    trigger: Seq<char>,
    expansion: Seq<char>,
    kind: TriggerKind,
) -> Option<Seq<char>> {
    if snippet_fault(trigger, expansion, kind) is Some {
        snippet_fault(trigger, expansion, kind)
    } else if b.entries.contains_key(trigger) {
        Some("A snippet with that trigger already exists."@)
    } else if b.entries.len() >= 10_000 {
        Some("Snippet limit reached (10000)."@)
    } else {
        None
    }
}

/// One step of adding a snippet. White space round the trigger is dropped. A
/// chord is registered with the system first: if it is already taken, nothing
/// is saved.
pub fn add_snippet(snippets: &mut Snippets, step: AddStep) -> (action: AddAction)
    requires
        old(snippets).wf(),
    ensures
        final(snippets).wf(),
        match step {
            AddStep::Submitted { trigger, expansion, kind } => {
                let t = trimmed(trigger@);
                match add_fault(old(snippets)@, t, expansion@, kind) {
                    Some(fault) => {
                        &&& final(snippets)@ == old(snippets)@
                        &&& action matches AddAction::Refused(e) && e@ == fault
                    },
                    None => if kind == TriggerKind::Shortcut {
                        &&& final(snippets)@ == old(snippets)@
                        &&& action matches AddAction::Register(n) && n.trigger@ == t && n.expansion
                            == expansion && n.kind == kind
                    } else {
                        &&& final(snippets)@ == old(snippets)@.upsert(t, expansion@, kind)
                        &&& action is Saved
                    },
                }
            },
            AddStep::Registered { snippet, outcome } => match outcome {
                Ok(()) => {
                    &&& final(snippets)@ == old(snippets)@.upsert(
                        snippet.trigger@,
                        snippet.expansion@,
                        snippet.kind,
                    )
                    &&& action is Saved
                },
                Err(e) => {
                    &&& final(snippets)@ == old(snippets)@
                    &&& action == AddAction::Refused(e)
                },
            },
        },
{
    match step {
        AddStep::Submitted { trigger, expansion, kind } => {
            let trigger = trim(trigger.as_str());
            match validate_snippet(trigger.as_str(), expansion.as_str(), kind) {
                Ok(()) => {},
                Err(e) => {
                    return AddAction::Refused(e);
                },
            }
            match snippets.get_kind(trigger.as_str()) {
                Some(_) => {
                    return AddAction::Refused(
                        "A snippet with that trigger already exists.".to_string(),
                    );
                },
                None => {},
            }
            if snippets.len() >= MAX_SNIPPETS {
                return AddAction::Refused("Snippet limit reached (10000).".to_string());
            }
            if kind == TriggerKind::Shortcut {
                return AddAction::Register(NewSnippet { trigger, expansion, kind });
            }
            snippets.insert(trigger, expansion, kind);
            AddAction::Saved
        },
        AddStep::Registered { snippet, outcome } => match outcome {
            Ok(()) => {
                snippets.insert(snippet.trigger, snippet.expansion, snippet.kind);
                AddAction::Saved
            },
            Err(e) => AddAction::Refused(e),
        },
    }
}

/// A snippet that is about to be changed, with what it was.
#[derive(Debug)]
pub struct EditRequest {
    pub old_trigger: String,
    pub old_expansion: String,
    pub old_kind: TriggerKind,
    pub trigger: String,
    pub expansion: String,
    pub kind: TriggerKind,
}

/// What happens while a snippet is changed.
#[derive(Debug)]
pub enum EditStep {
    /// The user asks for it.
    Submitted { old_trigger: String, trigger: String, expansion: String, kind: TriggerKind },
    /// The system answered the registration of its new chord.
    Registered { request: EditRequest, outcome: Result<(), String> },
}

/// What is to be done while a snippet is changed.
#[derive(Debug)]
pub enum EditAction {
    /// Register its new chord with the system, and come back with the outcome.
    Register(EditRequest),
    /// Carry out what follows, and store the snippets; it is done.
    Saved { follow_up: Vec<HotkeyAction> },
    /// Carry out what follows, whatever comes of it, and tell the user why not.
    Refused { message: String, follow_up: Vec<HotkeyAction> },
}

/// What speaks against changing a snippet, if anything.
pub open spec fn edit_fault(
    b: Book,
    old_trigger: Seq<char>,
    trigger: Seq<char>,
    expansion: Seq<char>,
    kind: TriggerKind,
) -> Option<Seq<char>> {
    if old_trigger.len() == 0 {
        Some("Trigger and expansion are required."@)
    } else if snippet_fault(trigger, expansion, kind) is Some {
        snippet_fault(trigger, expansion, kind)
    } else if !b.entries.contains_key(old_trigger) {
        Some("Snippet not found."@)
    } else if old_trigger != trigger && b.entries.contains_key(trigger) {
        Some("A snippet with that trigger already exists."@)
    } else {
        None
    }
}

/// The character content of an order to the host.
pub enum HotkeyOrder {
    Register(Seq<char>, Seq<char>),
    Unregister(Seq<char>),
}

pub open spec fn order_of(action: HotkeyAction) -> HotkeyOrder {
    match action {
        HotkeyAction::Register { trigger, expansion } => HotkeyOrder::Register(
            trigger@,
            expansion@,
        ),
        HotkeyAction::Unregister { trigger } => HotkeyOrder::Unregister(trigger@),
    }
}

pub open spec fn orders(actions: Seq<HotkeyAction>) -> Seq<HotkeyOrder> {
    actions.map_values(|a: HotkeyAction| order_of(a))
}

/// What a refused registration leaves to be done: the system has forgotten
/// the old chord if the new one is the same.
pub open spec fn after_refusal(r: EditRequest) -> Seq<HotkeyOrder> {
    if r.old_kind == TriggerKind::Shortcut && r.old_trigger@ == r.trigger@ {
        seq![HotkeyOrder::Register(r.old_trigger@, r.old_expansion@)]
    } else {
        Seq::empty()
    }
}

/// What a change that the store refused leaves to be done.
pub open spec fn after_failure(r: EditRequest) -> Seq<HotkeyOrder> {
    if r.kind != TriggerKind::Shortcut {
        Seq::empty()
    } else if r.old_kind != TriggerKind::Shortcut {
        seq![HotkeyOrder::Unregister(r.trigger@)]
    } else {
        seq![
            HotkeyOrder::Unregister(r.trigger@),
            HotkeyOrder::Register(r.old_trigger@, r.old_expansion@),
        ]
    }
}

/// What a change that was made leaves to be done.
pub open spec fn after_success(r: EditRequest) -> Seq<HotkeyOrder> {
    if r.old_kind == TriggerKind::Shortcut && (r.kind != TriggerKind::Shortcut || r.old_trigger@
        != r.trigger@) {
        seq![HotkeyOrder::Unregister(r.old_trigger@)]
    } else {
        Seq::empty()
    }
}

/// What making a change comes to.
pub open spec fn edit_made(b: Book, r: EditRequest, c: Book, action: EditAction) -> bool {
    match replace_error(b, r.old_trigger@, r.trigger@) {
        Some(fault) => {
            &&& c == b
            &&& action matches EditAction::Refused { message, follow_up } && message@ == fault
                && orders(follow_up@) == after_failure(r)
        },
        None => {
            &&& c == b.replace(r.old_trigger@, r.trigger@, r.expansion@, r.kind)
            &&& action matches EditAction::Saved { follow_up } && orders(follow_up@)
                == after_success(r)
        },
    }
}

/// Whether a request says what the user asked for, and what was there.
pub open spec fn request_for(
    b: Book,
    r: EditRequest,
    old_trigger: Seq<char>,
    trigger: Seq<char>,
    expansion: Seq<char>,
    kind: TriggerKind,
) -> bool {
    &&& r.old_trigger@ == old_trigger
    &&& b.entries[old_trigger] == (r.old_expansion@, r.old_kind)
    &&& r.trigger@ == trigger
    &&& r.expansion@ == expansion
    &&& r.kind == kind
}

fn make_edit(snippets: &mut Snippets, request: EditRequest) -> (action: EditAction)
    requires
        old(snippets).wf(),
    ensures
        final(snippets).wf(),
        edit_made(old(snippets)@, request, final(snippets)@, action),
{
    let EditRequest { old_trigger, old_expansion, old_kind, trigger, expansion, kind } = request;
    let same = same_text(old_trigger.as_str(), trigger.as_str());
    let mut follow_up: Vec<HotkeyAction> = Vec::new();
    match snippets.update(old_trigger.as_str(), trigger.clone(), expansion, kind) {
        Ok(_) => {
            if old_kind == TriggerKind::Shortcut && (kind != TriggerKind::Shortcut || !same) {
                follow_up.push(HotkeyAction::Unregister { trigger: old_trigger });
            }
            assert(orders(follow_up@) =~= after_success(request));
            EditAction::Saved { follow_up }
        },
        Err(message) => {
            if kind == TriggerKind::Shortcut {
                follow_up.push(HotkeyAction::Unregister { trigger });
                if old_kind == TriggerKind::Shortcut {
                    follow_up.push(
                        HotkeyAction::Register { trigger: old_trigger, expansion: old_expansion },
                    );
                }
            }
            assert(orders(follow_up@) =~= after_failure(request));
            EditAction::Refused { message, follow_up }
        },
    }
}

/// One step of changing a snippet. White space round the triggers is dropped.
/// A new chord is registered with the system first; a change that fails leaves
/// the store as it was and has the old chord registered again.
pub fn edit_snippet(snippets: &mut Snippets, step: EditStep) -> (action: EditAction)
    requires
        old(snippets).wf(),
    ensures
        final(snippets).wf(),
        match step {
            EditStep::Submitted { old_trigger, trigger, expansion, kind } => {
                let o = trimmed(old_trigger@);
                let t = trimmed(trigger@);
                match edit_fault(old(snippets)@, o, t, expansion@, kind) {
                    Some(fault) => {
                        &&& final(snippets)@ == old(snippets)@
                        &&& action matches EditAction::Refused { message, follow_up } && message@
                            == fault && follow_up@.len() == 0
                    },
                    None => if kind == TriggerKind::Shortcut {
                        &&& final(snippets)@ == old(snippets)@
                        &&& action matches EditAction::Register(r) && request_for(
                            old(snippets)@,
                            r,
                            o,
                            t,
                            expansion@,
                            kind,
                        )
                    } else {
                        &&& final(snippets)@ == old(snippets)@.replace(o, t, expansion@, kind)
                        &&& action matches EditAction::Saved { follow_up } && orders(follow_up@)
                            == if old(snippets)@.entries[o].1 == TriggerKind::Shortcut {
                            seq![HotkeyOrder::Unregister(o)]
                        } else {
                            Seq::empty()
                        }
                    },
                }
            },
            EditStep::Registered { request, outcome } => match outcome {
                Ok(()) => edit_made(old(snippets)@, request, final(snippets)@, action),
                Err(e) => {
                    &&& final(snippets)@ == old(snippets)@
                    &&& action matches EditAction::Refused { message, follow_up } && message == e
                        && orders(follow_up@) == after_refusal(request)
                },
            },
        },
{
    match step {
        EditStep::Submitted { old_trigger, trigger, expansion, kind } => {
            let old_trigger = trim(old_trigger.as_str());
            let trigger = trim(trigger.as_str());
            if old_trigger.as_str().is_empty() {
                return EditAction::Refused {
                    message: "Trigger and expansion are required.".to_string(),
                    follow_up: Vec::new(),
                };
            }
            match validate_snippet(trigger.as_str(), expansion.as_str(), kind) {
                Ok(()) => {},
                Err(message) => {
                    return EditAction::Refused { message, follow_up: Vec::new() };
                },
            }
            let (old_expansion, old_kind) = match snippets.get(old_trigger.as_str()) {
                Some(current) => current,
                None => {
                    return EditAction::Refused {
                        message: "Snippet not found.".to_string(),
                        follow_up: Vec::new(),
                    };
                },
            };
            if !same_text(old_trigger.as_str(), trigger.as_str()) {
                match snippets.get_kind(trigger.as_str()) {
                    Some(_) => {
                        return EditAction::Refused {
                            message: "A snippet with that trigger already exists.".to_string(),
                            follow_up: Vec::new(),
                        };
                    },
                    None => {},
                }
            }
            let request = EditRequest {
                old_trigger,
                old_expansion,
                old_kind,
                trigger,
                expansion,
                kind,
            };
            if kind == TriggerKind::Shortcut {
                return EditAction::Register(request);
            }
            make_edit(snippets, request)
        },
        EditStep::Registered { request, outcome } => match outcome {
            Ok(()) => make_edit(snippets, request),
            Err(message) => {
                let mut follow_up: Vec<HotkeyAction> = Vec::new();
                if request.old_kind == TriggerKind::Shortcut && same_text(
                    request.old_trigger.as_str(),
                    request.trigger.as_str(),
                ) {
                    follow_up.push(
                        HotkeyAction::Register {
                            trigger: request.old_trigger,
                            expansion: request.old_expansion,
                        },
                    );
                }
                assert(orders(follow_up@) =~= after_refusal(request));
                EditAction::Refused { message, follow_up }
            },
        },
    }
}

/// Takes a snippet out. The snippets are to be stored, and a shortcut's chord
/// unregistered.
pub fn remove_snippet(snippets: &mut Snippets, trigger: &str) -> (follow_up: Option<HotkeyAction>)
    requires
        old(snippets).wf(),
    ensures
        final(snippets).wf(),
        final(snippets)@ == old(snippets)@.remove(trigger@),
        match follow_up {
            Some(action) => {
                &&& order_of(action) == HotkeyOrder::Unregister(trigger@)
                &&& old(snippets)@.entries.contains_key(trigger@)
                &&& old(snippets)@.entries[trigger@].1 == TriggerKind::Shortcut
            },
            None => !old(snippets)@.entries.contains_key(trigger@)
                || old(snippets)@.entries[trigger@].1 == TriggerKind::Text,
        },
{
    match snippets.remove(trigger) {
        Some(TriggerKind::Shortcut) => Some(
            HotkeyAction::Unregister { trigger: trigger.to_string() },
        ),
        _ => None,
    }
}

/// Applies a user-chosen order. The snippets are to be stored.
pub fn reorder_snippets(snippets: &mut Snippets, order: Vec<String>)
    requires
        old(snippets).wf(),
    ensures
        final(snippets).wf(),
        final(snippets)@ == old(snippets)@.reorder(order@.map_values(|s: String| s@)),
{
    snippets.set_order(order);
}

/// Flips the enabled flag and tells what it is now.
pub fn toggle_enabled(enabled: &mut bool) -> (now: bool)
    ensures
        *final(enabled) == !*old(enabled),
        now == *final(enabled),
{
    *enabled = !*enabled;
    *enabled
}

} // verus!
