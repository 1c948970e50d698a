use std::collections::{BTreeMap, HashMap};

use hypertype::clipboard::{
    paste_via_clipboard, restore_clipboard, ClipboardSession, PasteAction, PasteEvent,
};
use hypertype::expansion::{
    cancel_active_typeout, cancel_epoch, char_delay, restore_delay_from, set_restore_delay_ms,
    set_wpm, Settings, TargetKind,
};
use hypertype::import::{
    begin_import, finish_import, import_snippets, ImportAction, ImportEvent, ImportSummary,
};
use hypertype::ipc::{
    add_snippet, edit_snippet, remove_snippet, AddAction, AddStep, EditAction, EditStep,
};
use hypertype::keyboard::{start_watchdog, Hook, WatchdogAction, WatchdogEvent};
use hypertype::shortcuts::{
    chord_event_fires, chord_matches, match_chord_given, register_all, try_match_chord_fallback,
    vk_to_key_name, HotkeyAction,
};
use hypertype::snippets::{Snippets, TriggerKind};
use hypertype::target::classify_target_parts;
use hypertype::text::trim;

fn item(trigger: &str, expansion: &str, kind: TriggerKind) -> (String, String, TriggerKind) {
    (trigger.to_string(), expansion.to_string(), kind)
}

fn text(trigger: &str, expansion: &str) -> (String, String, TriggerKind) {
    item(trigger, expansion, TriggerKind::Text)
}

fn buf(s: &str) -> Vec<char> {
    s.chars().collect()
}

#[test]
fn a_sorted_order_depends_on_the_contents_only() {
    let names = ["b", "a", "\u{5d0}", "", "ab", "B"];
    let forward: HashMap<String, String> = names
        .iter()
        .map(|t| (t.to_string(), "x".to_string()))
        .collect();
    let backward: HashMap<String, String> = names
        .iter()
        .rev()
        .map(|t| (t.to_string(), "x".to_string()))
        .collect();
    let listed = Snippets::from_map(forward).list();
    assert_eq!(listed, Snippets::from_map(backward).list());
    let order: Vec<String> = listed.into_iter().map(|e| e.0).collect();
    assert_eq!(order, vec!["", "B", "a", "ab", "b", "\u{5d0}"]);
}

#[test]
fn left_out_snippets_keep_their_relative_positions() {
    let mut s = Snippets::from_entries(vec![
        text("d", "1"),
        text("a", "2"),
        text("c", "3"),
        text("b", "4"),
    ]);
    s.set_order(vec!["c".to_string(), "c".to_string()]);
    let order: Vec<String> = s.list().into_iter().map(|e| e.0).collect();
    assert_eq!(order, vec!["c", "d", "a", "b"]);
}

#[test]
fn asking_for_the_same_order_again_changes_nothing() {
    let wanted = || vec!["c".to_string(), "ghost".to_string(), "a".to_string(), "c".to_string()];
    let mut s = Snippets::from_entries(vec![
        text("d", "1"),
        text("a", "2"),
        text("c", "3"),
        text("b", "4"),
    ]);
    s.set_order(wanted());
    let once = s.list();
    let order: Vec<String> = once.iter().map(|e| e.0.clone()).collect();
    assert_eq!(order, vec!["c", "a", "d", "b"]);
    s.set_order(wanted());
    assert_eq!(s.list(), once);
}

#[test]
fn a_batch_is_its_halves_and_its_last_word_counts() {
    let first = vec![text("a", "1"), text("b", "2")];
    let second = vec![text("a", "3"), text("c", "4")];
    let mut whole = Snippets::default();
    whole.insert_many(first.iter().chain(second.iter()).cloned().collect());
    let mut halves = Snippets::default();
    halves.insert_many(first);
    halves.insert_many(second);
    assert_eq!(whole.list(), halves.list());
    assert_eq!(whole.get("a"), Some(("3".to_string(), TriggerKind::Text)));
    assert_eq!(whole.len(), 3);
}

#[test]
fn writing_the_same_changes_nothing() {
    let mut s = Snippets::from_entries(vec![text("a", "1"), text("b", "2")]);
    let before = s.list();
    s.insert("a".to_string(), "1".to_string(), TriggerKind::Text);
    assert_eq!(s.list(), before);
}

#[test]
fn removed_triggers_do_not_fire() {
    let mut s = Snippets::from_entries(vec![text("ab", "1"), text("b", "2"), text("-b", "3")]);
    assert_eq!(s.match_suffix(&buf("ab")), Some((2, "1".to_string())));
    s.remove("ab");
    assert_eq!(s.match_suffix(&buf("ab")), None);
    assert_eq!(s.match_suffix(&buf("-b")), Some((2, "3".to_string())));
    s.remove("-b");
    assert_eq!(s.match_suffix(&buf("-b")), Some((1, "2".to_string())));
}

#[test]
fn a_match_follows_what_belongs_to_words() {
    let s = Snippets::from_entries(vec![text("gm", "1"), text("m", "2")]);
    let typed = buf("xgm");
    assert_eq!(
        s.match_suffix_given(&typed, &[false, true, true]),
        Some((2, "1".to_string()))
    );
    assert_eq!(
        s.match_suffix_given(&typed, &[true, false, true]),
        Some((1, "2".to_string()))
    );
    assert_eq!(s.match_suffix_given(&typed, &[true, true, true]), None);
    assert_eq!(s.match_suffix(&typed), None);
}

/// Every chord that some text can spell.
fn all_chords() -> Vec<(u32, bool, bool, bool, bool)> {
    let mut chords = Vec::new();
    for vk in 0..0x100 {
        for bits in 0..16 {
            chords.push((vk, bits & 1 > 0, bits & 2 > 0, bits & 4 > 0, bits & 8 > 0));
        }
    }
    chords
}

#[test]
fn every_chord_has_one_spelling_of_its_own() {
    for (vk, ctrl, alt, shift, win) in all_chords() {
        let mut spelled = String::new();
        for (on, name) in [(ctrl, "ctrl+"), (alt, "alt+"), (shift, "shift+"), (win, "super+")] {
            if on {
                spelled.push_str(name);
            }
        }
        let name = vk_to_key_name(vk);
        spelled.push_str(&name.clone().unwrap_or_default().to_lowercase());
        assert_eq!(
            chord_matches(&spelled, vk, ctrl, alt, shift, win),
            name.is_some() && (ctrl || alt || win)
        );
    }
    for spelled in ["control+shift+f1", "ctrl+shift+f11", "alt+super+space", "ctrl+digit0"] {
        let found = all_chords()
            .into_iter()
            .filter(|(vk, ctrl, alt, shift, win)| {
                chord_matches(spelled, *vk, *ctrl, *alt, *shift, *win)
            })
            .count();
        assert_eq!(found, 1);
    }
}

#[test]
fn the_first_of_the_lowered_triggers_counts() {
    let items = vec![
        text("1", "text"),
        item("2", "other", TriggerKind::Shortcut),
        item("3", "first", TriggerKind::Shortcut),
        item("4", "second", TriggerKind::Shortcut),
    ];
    let lowered: Vec<String> = ["alt+keyq", "alt+keyr", "alt+keyq", "alt+keyq"]
        .iter()
        .map(|s| s.to_string())
        .collect();
    let mut last_ms = 0;
    let found = match_chord_given(
        0x51, false, true, false, false, &items, &lowered, &mut last_ms, 500, true, false,
    );
    assert!(found.matched);
    assert_eq!(found.expand, Some("first".to_string()));
    assert_eq!(last_ms, 500);
    let soon = match_chord_given(
        0x51, false, true, false, false, &items, &lowered, &mut last_ms, 900, true, false,
    );
    assert!(soon.matched);
    assert_eq!(soon.expand, None);
    let none = match_chord_given(
        0x53, false, true, false, false, &items, &lowered, &mut last_ms, 9_000, true, false,
    );
    assert!(!none.matched);
    assert_eq!(last_ms, 900);
}

/// The chords that a system has registered, of which it refuses some.
struct Registry {
    hot: BTreeMap<String, String>,
    taken: Vec<&'static str>,
}

impl Registry {
    fn register(&mut self, trigger: &str, expansion: &str) -> Result<(), String> {
        self.hot.remove(trigger);
        if self.taken.contains(&expansion) {
            return Err("taken".to_string());
        }
        self.hot.insert(trigger.to_string(), expansion.to_string());
        Ok(())
    }

    fn carry_out(&mut self, actions: Vec<HotkeyAction>) {
        for action in actions {
            match action {
                HotkeyAction::Register { trigger, expansion } => {
                    self.register(&trigger, &expansion).unwrap();
                }
                HotkeyAction::Unregister { trigger } => {
                    self.hot.remove(&trigger);
                }
            }
        }
    }

    fn add(&mut self, s: &mut Snippets, trigger: &str, expansion: &str, kind: TriggerKind) -> bool {
        let mut step = AddStep::Submitted {
            trigger: trigger.to_string(),
            expansion: expansion.to_string(),
            kind,
        };
        loop {
            match add_snippet(s, step) {
                AddAction::Register(snippet) => {
                    let outcome = self.register(&snippet.trigger, &snippet.expansion);
                    step = AddStep::Registered { snippet, outcome };
                }
                AddAction::Saved => return true,
                AddAction::Refused(_) => return false,
            }
        }
    }

    fn edit(&mut self, s: &mut Snippets, old: &str, new: &str, expansion: &str, kind: TriggerKind) -> bool {
        let mut step = EditStep::Submitted {
            old_trigger: old.to_string(),
            trigger: new.to_string(),
            expansion: expansion.to_string(),
            kind,
        };
        loop {
            match edit_snippet(s, step) {
                EditAction::Register(request) => {
                    let outcome = self.register(&request.trigger, &request.expansion);
                    step = EditStep::Registered { request, outcome };
                }
                EditAction::Saved { follow_up } => {
                    self.carry_out(follow_up);
                    return true;
                }
                EditAction::Refused { follow_up, .. } => {
                    self.carry_out(follow_up);
                    return false;
                }
            }
        }
    }

    fn import(&mut self, s: &mut Snippets, items: Vec<(String, String, TriggerKind)>) -> ImportSummary {
        let imported = Snippets::from_entries(items);
        let mut session = begin_import(s, &imported).ok().unwrap();
        let mut event = ImportEvent::Proceed;
        loop {
            match import_snippets(s, &mut session, event) {
                ImportAction::Register { trigger, expansion } => {
                    let outcome = self.register(&trigger, &expansion);
                    event = ImportEvent::Registered { outcome };
                }
                ImportAction::Next { follow_up } => {
                    self.carry_out(follow_up.into_iter().collect());
                    event = ImportEvent::Proceed;
                }
                ImportAction::Done => return finish_import(s, session),
            }
        }
    }

    fn in_step(&self, s: &Snippets) -> bool {
        self.hot == register_all(s).into_iter().collect::<BTreeMap<_, _>>()
    }
}

#[test]
fn chords_stay_in_step_with_the_store() {
    let mut s = Snippets::default();
    let mut system = Registry {
        hot: BTreeMap::new(),
        taken: vec!["refused"],
    };
    assert!(system.add(&mut s, "Ctrl+KeyA", "1", TriggerKind::Shortcut));
    assert!(system.add(&mut s, "gm", "2", TriggerKind::Text));
    assert!(!system.add(&mut s, "Ctrl+KeyB", "refused", TriggerKind::Shortcut));
    assert!(system.in_step(&s));
    assert_eq!(s.len(), 2);
    // The same chord with a new text, which the system takes and then refuses.
    assert!(system.edit(&mut s, "Ctrl+KeyA", "Ctrl+KeyA", "3", TriggerKind::Shortcut));
    assert!(system.in_step(&s));
    assert!(!system.edit(&mut s, "Ctrl+KeyA", "Ctrl+KeyA", "refused", TriggerKind::Shortcut));
    assert!(system.in_step(&s));
    // Another chord, taken and refused.
    assert!(system.edit(&mut s, "Ctrl+KeyA", "Ctrl+KeyC", "4", TriggerKind::Shortcut));
    assert!(system.in_step(&s));
    assert!(!system.edit(&mut s, "Ctrl+KeyC", "Ctrl+KeyD", "refused", TriggerKind::Shortcut));
    assert!(system.in_step(&s));
    // From a text trigger to a chord and back.
    assert!(system.edit(&mut s, "gm", "Ctrl+KeyG", "5", TriggerKind::Shortcut));
    assert!(system.in_step(&s));
    assert_eq!(system.hot.len(), 2);
    assert!(system.edit(&mut s, "Ctrl+KeyG", "gm", "6", TriggerKind::Text));
    assert!(system.in_step(&s));
    let follow_up = remove_snippet(&mut s, "Ctrl+KeyC");
    system.carry_out(follow_up.into_iter().collect());
    assert!(system.in_step(&s));
    assert!(system.hot.is_empty());
    assert!(remove_snippet(&mut s, "gm").is_none());
}

#[test]
fn imports_keep_chords_in_step_though_triggers_come_out_the_same() {
    let shortcut = |t, e| item(t, e, TriggerKind::Shortcut);
    for (items, in_step) in [
        // Two texts, two chords, a text and then a chord.
        (vec![text("a", "1"), text(" a", "2")], true),
        (vec![shortcut("a", "1"), shortcut(" a", "2")], true),
        (vec![text("a", "1"), shortcut(" a", "2")], true),
        // A chord that is refused after a text.
        (vec![text("a", "1"), shortcut(" a", "refused")], true),
        // A stored shortcut that gets another text and then is a text trigger.
        (vec![shortcut("k", "1"), text(" k", "2")], true),
        // A chord and then a text, where no shortcut is stored.
        (vec![shortcut("a", "1"), text(" a", "2")], false),
        // A chord and then a refused one, where no shortcut is stored.
        (vec![shortcut("a", "1"), shortcut(" a", "refused")], false),
    ] {
        let mut s = Snippets::default();
        let mut system = Registry {
            hot: BTreeMap::new(),
            taken: vec!["refused"],
        };
        assert!(system.add(&mut s, "k", "0", TriggerKind::Shortcut));
        let summary = system.import(&mut s, items);
        assert_eq!(summary.imported + summary.skipped, 2);
        assert_eq!(system.in_step(&s), in_step);
    }
}

#[test]
fn firings_are_apart_over_both_paths() {
    let store = Snippets::from_entries(vec![item("Alt+KeyQ", "x", TriggerKind::Shortcut)]);
    let mut last_ms = 0;
    let mut fired = Vec::new();
    for now in [1_000u64, 1_300, 1_701, 2_000, 2_400, 2_801] {
        let by_hotkey = now % 2 == 0;
        let fires = if by_hotkey {
            let mut held = false;
            chord_event_fires(&mut held, &mut last_ms, true, now, true, false)
        } else {
            try_match_chord_fallback(
                0x51, false, true, false, false, &store, &mut last_ms, now, true, false,
            )
            .expand
            .is_some()
        };
        if fires {
            fired.push(now);
        }
    }
    assert_eq!(fired, vec![1_000, 1_701, 2_801]);
}

#[test]
fn an_overtaken_request_restores_nothing() {
    let settings = Settings::default();
    let mut session: ClipboardSession<&str> = ClipboardSession {
        active: None,
        generation: u64::MAX,
    };
    let mut requests = Vec::new();
    for sequence in [11, 12] {
        let event = PasteEvent::TextSet {
            saved: "user",
            sequence,
            saved_contains_non_plain_text: false,
        };
        match paste_via_clipboard(&mut session, event, "text", TargetKind::Standard, &settings) {
            PasteAction::SendPaste { restore, .. } => requests.push(restore),
            _ => panic!("no paste"),
        }
    }
    assert_eq!((requests[0].generation, requests[1].generation), (0, 1));
    assert_eq!(restore_clipboard(&mut session, requests[0], 12), None);
    assert_eq!(restore_clipboard(&mut session, requests[1], 12), Some("user"));
    assert_eq!(restore_clipboard(&mut session, requests[1], 12), None);
}

#[test]
fn limits_hold_whatever_is_asked_for() {
    let mut settings = Settings::default();
    for x in [0, 1, 99, 100, 600, 1_500, 1_501, 3_000, 15_000, u32::MAX] {
        set_wpm(&mut settings, x);
        set_restore_delay_ms(&mut settings, x);
        let pause = char_delay(&settings);
        assert!((8_000..=120_000).contains(&pause));
        for (rich, sensitive) in [(false, false), (true, false), (false, true), (true, true)] {
            let mut previous = 0;
            for chars in [0, 110, 111, 610, 611, 1_110, 1_111, 1_000_000] {
                let delay =
                    restore_delay_from(settings.restore_delay_ms, rich, chars, sensitive);
                assert!(settings.restore_delay_ms <= delay && delay <= 15_000);
                assert!(previous <= delay);
                previous = delay;
            }
        }
    }
}

#[test]
fn any_configured_delay_is_bounded() {
    assert_eq!(restore_delay_from(0, false, 0, false), 0);
    assert_eq!(restore_delay_from(0, true, 0, false), 5_000);
    assert_eq!(restore_delay_from(0, false, 0, true), 12_000);
    assert_eq!(restore_delay_from(14_999, false, 111, false), 15_000);
    assert_eq!(restore_delay_from(u32::MAX, true, 2_000, true), 15_000);
}

#[test]
fn cancelling_is_seen_by_a_type_out() {
    let mut epoch = u64::MAX;
    let begun = cancel_epoch(&epoch);
    assert_eq!(begun, u64::MAX);
    cancel_active_typeout(&mut epoch);
    assert_ne!(cancel_epoch(&epoch), begun);
    assert_eq!(cancel_epoch(&epoch), 0);
}

#[test]
fn letter_case_has_no_say_in_the_target() {
    for (title, class, process) in [
        ("Notes", "Notepad", "NOTEPAD.EXE"),
        ("CODEX", "x", "y"),
        ("", "MinTTY", ""),
        ("", "", "Kitty.exe"),
    ] {
        assert_eq!(
            classify_target_parts(title, class, process),
            classify_target_parts(
                &title.to_ascii_lowercase(),
                &class.to_ascii_lowercase(),
                &process.to_ascii_lowercase(),
            )
        );
    }
}

#[test]
fn trimming_leaves_nothing_to_trim() {
    for s in ["", " ", " a b\t", "\u{3000}x\u{a0}", "x"] {
        let once = trim(s);
        assert_eq!(trim(&once), once);
        assert_eq!(once, s.trim());
    }
}

#[test]
fn a_reinstalled_hook_is_not_lost_on_the_old_heartbeat() {
    let mut hook = Hook::new();
    hook.ready = true;
    hook.thread_id = 5;
    hook.last_ping_ms = 1_000;
    let late = WatchdogEvent::Checked {
        exit_code: None,
        now_ms: 9_000,
    };
    assert_eq!(start_watchdog(&mut hook, late), WatchdogAction::Reinstall);
    assert_eq!(start_watchdog(&mut hook, late), WatchdogAction::ReportHealthy);
}
