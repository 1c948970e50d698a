use hypertype::expansion::{InsertMode, PasteCombo, Settings};
use hypertype::import::{
    begin_import, check_import_size, finish_import, import_snippets, is_to_be_stored, ImportAction,
    ImportEvent, ImportSummary, MAX_IMPORT_BYTES,
};
use hypertype::ipc::{
    add_snippet, edit_snippet, get_snippets, get_status, remove_snippet, reorder_snippets,
    set_auto_paste_words, set_insert_mode, set_paste_combo, set_restore_delay_ms, set_wpm,
    toggle_enabled, validate_snippet, AddAction, AddStep, EditAction, EditStep,
    MAX_EXPANSION_CHARS, MAX_SNIPPETS,
};
use hypertype::shortcuts::HotkeyAction;
use hypertype::snippets::{Snippets, TriggerKind, MAX_TEXT_TRIGGER_CHARS};

#[test]
fn rejects_unreachable_or_control_character_text_triggers() {
    let too_long = "x".repeat(MAX_TEXT_TRIGGER_CHARS + 1);
    assert!(validate_snippet(&too_long, "value", TriggerKind::Text).is_err());
    assert!(validate_snippet("line\nbreak", "value", TriggerKind::Text).is_err());
}

#[test]
fn allows_unicode_text_trigger_at_character_limit() {
    let trigger = "\u{05d0}".repeat(MAX_TEXT_TRIGGER_CHARS);
    assert!(validate_snippet(&trigger, "value", TriggerKind::Text).is_ok());
}

#[test]
fn caps_expansion_size() {
    let expansion = "x".repeat(MAX_EXPANSION_CHARS + 1);
    assert!(validate_snippet("ok", &expansion, TriggerKind::Text).is_err());
}

#[test]
fn validation_messages() {
    let err = |t: &str, e: &str, k| validate_snippet(t, e, k).unwrap_err();
    assert_eq!(
        err("", "x", TriggerKind::Text),
        "Both trigger and expansion are required."
    );
    assert_eq!(
        err("x", "", TriggerKind::Shortcut),
        "Both trigger and expansion are required."
    );
    assert_eq!(
        err("x", &"y".repeat(MAX_EXPANSION_CHARS + 1), TriggerKind::Shortcut),
        format!("Expansion is too long (maximum {MAX_EXPANSION_CHARS} characters).")
    );
    assert_eq!(
        err(&"x".repeat(65), "y", TriggerKind::Text),
        format!("Text trigger is too long (maximum {MAX_TEXT_TRIGGER_CHARS} characters).")
    );
    assert_eq!(
        err("a\u{7f}b", "y", TriggerKind::Text),
        "Text triggers cannot contain control characters."
    );
    assert!(validate_snippet(&"x".repeat(65), "y", TriggerKind::Shortcut).is_ok());
    assert!(validate_snippet("a\nb", "y", TriggerKind::Shortcut).is_ok());
    assert!(validate_snippet("x", &"y".repeat(MAX_EXPANSION_CHARS), TriggerKind::Text).is_ok());
}

fn submit(s: &mut Snippets, trigger: &str, expansion: &str, kind: TriggerKind) -> AddAction {
    add_snippet(
        s,
        AddStep::Submitted {
            trigger: trigger.to_string(),
            expansion: expansion.to_string(),
            kind,
        },
    )
}

fn refusal(action: AddAction) -> String {
    match action {
        AddAction::Refused(e) => e,
        _ => panic!("expected a refusal"),
    }
}

#[test]
fn text_snippets_are_added_trimmed() {
    let mut s = Snippets::default();
    assert!(matches!(
        submit(&mut s, " \u{3000}gm\n", " Good ", TriggerKind::Text),
        AddAction::Saved
    ));
    assert_eq!(
        s.get("gm"),
        Some((" Good ".to_string(), TriggerKind::Text))
    );
    assert_eq!(
        refusal(submit(&mut s, "gm ", "x", TriggerKind::Shortcut)),
        "A snippet with that trigger already exists."
    );
    assert_eq!(
        refusal(submit(&mut s, " \t", "x", TriggerKind::Text)),
        "Both trigger and expansion are required."
    );
    assert_eq!(s.len(), 1);
}

#[test]
fn a_refused_chord_saves_nothing() {
    let mut s = Snippets::default();
    let action = submit(&mut s, " Ctrl+KeyB ", "bold", TriggerKind::Shortcut);
    let snippet = match action {
        AddAction::Register(n) => n,
        _ => panic!("expected to register"),
    };
    assert_eq!(snippet.trigger, "Ctrl+KeyB");
    assert_eq!(snippet.expansion, "bold");
    assert_eq!(s.len(), 0);
    let refused = add_snippet(
        &mut s,
        AddStep::Registered {
            snippet,
            outcome: Err("taken".to_string()),
        },
    );
    assert_eq!(refusal(refused), "taken");
    assert_eq!(s.len(), 0);
    let snippet = match submit(&mut s, "Ctrl+KeyB", "bold", TriggerKind::Shortcut) {
        AddAction::Register(n) => n,
        _ => panic!("expected to register"),
    };
    assert!(matches!(
        add_snippet(
            &mut s,
            AddStep::Registered {
                snippet,
                outcome: Ok(()),
            }
        ),
        AddAction::Saved
    ));
    assert_eq!(s.get_kind("Ctrl+KeyB"), Some(TriggerKind::Shortcut));
}

fn full() -> Snippets {
    let mut entries = Vec::new();
    for i in 0..MAX_SNIPPETS {
        entries.push((format!("t{i}"), "x".to_string(), TriggerKind::Text));
    }
    Snippets::from_entries(entries)
}

#[test]
fn the_number_of_snippets_is_limited() {
    let mut s = full();
    assert_eq!(
        refusal(submit(&mut s, "new", "x", TriggerKind::Text)),
        format!("Snippet limit reached ({MAX_SNIPPETS}).")
    );
    s.remove("t0");
    assert!(matches!(
        submit(&mut s, "new", "x", TriggerKind::Text),
        AddAction::Saved
    ));
    assert_eq!(s.len(), MAX_SNIPPETS);
}

fn store() -> Snippets {
    Snippets::from_entries(vec![
        ("a".to_string(), "1".to_string(), TriggerKind::Text),
        ("Ctrl+KeyB".to_string(), "2".to_string(), TriggerKind::Shortcut),
        ("c".to_string(), "3".to_string(), TriggerKind::Text),
    ])
}

fn edit(s: &mut Snippets, old: &str, new: &str, expansion: &str, kind: TriggerKind) -> EditAction {
    edit_snippet(
        s,
        EditStep::Submitted {
            old_trigger: old.to_string(),
            trigger: new.to_string(),
            expansion: expansion.to_string(),
            kind,
        },
    )
}

fn spelled(actions: Vec<HotkeyAction>) -> Vec<String> {
    actions
        .into_iter()
        .map(|a| match a {
            HotkeyAction::Register { trigger, expansion } => format!("+{trigger}={expansion}"),
            HotkeyAction::Unregister { trigger } => format!("-{trigger}"),
        })
        .collect()
}

fn edit_refusal(action: EditAction) -> (String, Vec<String>) {
    match action {
        EditAction::Refused { message, follow_up } => (message, spelled(follow_up)),
        _ => panic!("expected a refusal"),
    }
}

fn edit_saved(action: EditAction) -> Vec<String> {
    match action {
        EditAction::Saved { follow_up } => spelled(follow_up),
        _ => panic!("expected it to be saved"),
    }
}

#[test]
fn edits_are_refused_with_a_reason() {
    let mut s = store();
    let before = s.list();
    let none: Vec<String> = Vec::new();
    for (old, new, expansion, message) in [
        (" ", "x", "y", "Trigger and expansion are required."),
        ("a", " ", "y", "Both trigger and expansion are required."),
        ("ghost", "x", "y", "Snippet not found."),
        ("ghost", "c", "y", "Snippet not found."),
        ("a", "c", "y", "A snippet with that trigger already exists."),
    ] {
        assert_eq!(
            edit_refusal(edit(&mut s, old, new, expansion, TriggerKind::Text)),
            (message.to_string(), none.clone())
        );
    }
    assert_eq!(s.list(), before);
}

#[test]
fn editing_text_happens_at_once() {
    let mut s = store();
    let none: Vec<String> = Vec::new();
    assert_eq!(
        edit_saved(edit(&mut s, " a ", " aa ", "new", TriggerKind::Text)),
        none
    );
    assert_eq!(s.get("aa"), Some(("new".to_string(), TriggerKind::Text)));
    assert_eq!(s.list()[0].0, "aa");
    // A shortcut that becomes text gives its chord up.
    assert_eq!(
        edit_saved(edit(&mut s, "Ctrl+KeyB", "bb", "2", TriggerKind::Text)),
        vec!["-Ctrl+KeyB".to_string()]
    );
    assert_eq!(s.list()[1].0, "bb");
}

fn registered(s: &mut Snippets, action: EditAction, outcome: Result<(), String>) -> EditAction {
    match action {
        EditAction::Register(request) => edit_snippet(s, EditStep::Registered { request, outcome }),
        _ => panic!("expected to register"),
    }
}

#[test]
fn editing_a_shortcut_registers_first() {
    let mut s = store();
    let none: Vec<String> = Vec::new();
    let action = edit(&mut s, "Ctrl+KeyB", "Ctrl+KeyX", "2", TriggerKind::Shortcut);
    assert_eq!(
        edit_refusal(registered(&mut s, action, Err("taken".to_string()))),
        ("taken".to_string(), none.clone())
    );
    let action = edit(&mut s, "Ctrl+KeyB", "Ctrl+KeyB", "new", TriggerKind::Shortcut);
    assert_eq!(
        edit_refusal(registered(&mut s, action, Err("taken".to_string()))),
        ("taken".to_string(), vec!["+Ctrl+KeyB=2".to_string()])
    );
    assert_eq!(s.list(), store().list());
    let action = edit(&mut s, "Ctrl+KeyB", "Ctrl+KeyB", "new", TriggerKind::Shortcut);
    assert_eq!(edit_saved(registered(&mut s, action, Ok(()))), none);
    let action = edit(&mut s, "Ctrl+KeyB", "Ctrl+KeyX", "new", TriggerKind::Shortcut);
    assert_eq!(
        edit_saved(registered(&mut s, action, Ok(()))),
        vec!["-Ctrl+KeyB".to_string()]
    );
    let action = edit(&mut s, "a", "Alt+KeyA", "1", TriggerKind::Shortcut);
    assert_eq!(edit_saved(registered(&mut s, action, Ok(()))), none);
    assert_eq!(s.get_kind("Alt+KeyA"), Some(TriggerKind::Shortcut));
}

#[test]
fn an_edit_that_was_overtaken_rolls_the_chords_back() {
    let mut s = store();
    let action = edit(&mut s, "Ctrl+KeyB", "Ctrl+KeyX", "new", TriggerKind::Shortcut);
    s.remove("Ctrl+KeyB");
    assert_eq!(
        edit_refusal(registered(&mut s, action, Ok(()))),
        (
            "Snippet not found.".to_string(),
            vec!["-Ctrl+KeyX".to_string(), "+Ctrl+KeyB=2".to_string()]
        )
    );
    let action = edit(&mut s, "a", "Ctrl+KeyX", "new", TriggerKind::Shortcut);
    s.insert("Ctrl+KeyX".to_string(), "x".to_string(), TriggerKind::Text);
    assert_eq!(
        edit_refusal(registered(&mut s, action, Ok(()))),
        (
            "A snippet with that trigger already exists.".to_string(),
            vec!["-Ctrl+KeyX".to_string()]
        )
    );
}

#[test]
fn removing_a_shortcut_gives_its_chord_up() {
    let mut s = store();
    assert!(remove_snippet(&mut s, "a").is_none());
    assert!(remove_snippet(&mut s, "ghost").is_none());
    assert_eq!(
        spelled(vec![remove_snippet(&mut s, "Ctrl+KeyB").unwrap()]),
        vec!["-Ctrl+KeyB".to_string()]
    );
    assert_eq!(s.len(), 1);
}

#[test]
fn the_ui_sees_the_store_and_the_settings() {
    let mut s = store();
    reorder_snippets(&mut s, vec!["c".to_string(), "a".to_string()]);
    let seen: Vec<(String, String, TriggerKind)> = get_snippets(&s)
        .into_iter()
        .map(|v| (v.trigger, v.expansion, v.kind))
        .collect();
    assert_eq!(seen, s.list());
    assert_eq!(seen[0].0, "c");
    let mut settings = Settings::default();
    set_insert_mode(&mut settings, InsertMode::Paste);
    set_paste_combo(&mut settings, PasteCombo::CtrlShiftV);
    set_wpm(&mut settings, 5_000);
    set_restore_delay_ms(&mut settings, 4_000);
    let stored = set_auto_paste_words(&mut settings, 20);
    assert_eq!(stored, settings);
    let status = get_status(&s, true, "1.2.3".to_string(), &settings);
    assert!(status.enabled);
    assert_eq!(status.count, 3);
    assert_eq!(status.version, "1.2.3");
    assert_eq!(status.insert_mode, InsertMode::Paste);
    assert_eq!(status.wpm, 1_500);
    assert_eq!(status.paste_combo, PasteCombo::CtrlShiftV);
    assert_eq!(status.restore_delay_ms, 4_000);
    assert_eq!(status.auto_paste_words, 20);
    let mut enabled = true;
    assert!(!toggle_enabled(&mut enabled));
    assert!(!enabled);
    assert!(toggle_enabled(&mut enabled));
}

/// Runs an import, with an answer for each chord, and gives the summary and
/// the orders to the host.
fn import(s: &mut Snippets, items: Vec<(&str, &str, TriggerKind)>, taken: &[&str]) -> (ImportSummary, Vec<String>) {
    let imported = Snippets::from_entries(
        items
            .into_iter()
            .map(|(t, e, k)| (t.to_string(), e.to_string(), k))
            .collect(),
    );
    let mut session = begin_import(s, &imported).map_err(|e| e.to_string()).ok().unwrap();
    let mut orders = Vec::new();
    let mut event = ImportEvent::Proceed;
    loop {
        match import_snippets(s, &mut session, event) {
            ImportAction::Register { trigger, expansion } => {
                orders.push(format!("?{trigger}={expansion}"));
                let outcome = if taken.contains(&trigger.as_str()) {
                    Err("taken".to_string())
                } else {
                    Ok(())
                };
                event = ImportEvent::Registered { outcome };
            }
            ImportAction::Next { follow_up } => {
                if let Some(action) = follow_up {
                    orders.extend(spelled(vec![action]));
                }
                event = ImportEvent::Proceed;
            }
            ImportAction::Done => {
                break;
            }
        }
    }
    (finish_import(s, session), orders)
}

#[test]
fn imports_take_what_is_good() {
    let mut s = store();
    let (summary, orders) = import(
        &mut s,
        vec![
            (" n ", "new", TriggerKind::Text),
            ("bad\u{1}", "x", TriggerKind::Text),
            ("a", "changed", TriggerKind::Text),
            ("Ctrl+KeyN", "n", TriggerKind::Shortcut),
            ("Ctrl+KeyT", "t", TriggerKind::Shortcut),
            ("e", "", TriggerKind::Text),
        ],
        &["Ctrl+KeyT"],
    );
    assert_eq!(
        summary,
        ImportSummary {
            imported: 3,
            skipped: 3,
        }
    );
    assert_eq!(orders, vec!["?Ctrl+KeyN=n", "?Ctrl+KeyT=t"]);
    let names: Vec<String> = s.list().into_iter().map(|e| e.0).collect();
    assert_eq!(names, vec!["a", "Ctrl+KeyB", "c", "n", "Ctrl+KeyN"]);
    assert_eq!(s.get("a"), Some(("changed".to_string(), TriggerKind::Text)));
}

#[test]
fn imports_mind_the_stored_chords() {
    let mut s = store();
    let (summary, orders) = import(
        &mut s,
        vec![("Ctrl+KeyB", "new", TriggerKind::Shortcut)],
        &["Ctrl+KeyB"],
    );
    assert_eq!(summary.skipped, 1);
    assert!(!is_to_be_stored(&summary));
    assert_eq!(orders, vec!["?Ctrl+KeyB=new", "+Ctrl+KeyB=2"]);
    assert_eq!(s.list(), store().list());
    let (summary, orders) = import(
        &mut s,
        vec![("Ctrl+KeyB", "text now", TriggerKind::Text)],
        &[],
    );
    assert_eq!(summary.imported, 1);
    assert!(is_to_be_stored(&summary));
    assert_eq!(orders, vec!["-Ctrl+KeyB"]);
    assert_eq!(
        s.get("Ctrl+KeyB"),
        Some(("text now".to_string(), TriggerKind::Text))
    );
}

#[test]
fn imports_respect_the_limit() {
    let mut s = full();
    s.remove("t9");
    let (summary, _) = import(
        &mut s,
        vec![
            ("t1", "changed", TriggerKind::Text),
            ("new1", "x", TriggerKind::Text),
            ("new2", "x", TriggerKind::Text),
            ("t2", "changed", TriggerKind::Text),
        ],
        &[],
    );
    assert_eq!(
        summary,
        ImportSummary {
            imported: 3,
            skipped: 1,
        }
    );
    assert_eq!(s.len(), MAX_SNIPPETS);
    assert!(s.get("new1").is_some());
    assert!(s.get("new2").is_none());
}

#[test]
fn imports_that_are_too_large_are_refused() {
    assert!(check_import_size(MAX_IMPORT_BYTES).is_ok());
    assert_eq!(
        check_import_size(MAX_IMPORT_BYTES + 1),
        Err("Import file is too large (maximum 16 MB).".to_string())
    );
    let mut many = full();
    many.insert("one more".to_string(), "x".to_string(), TriggerKind::Text);
    assert_eq!(
        begin_import(&Snippets::default(), &many).err(),
        Some("Import contains too many snippets (maximum 10000).".to_string())
    );
}
