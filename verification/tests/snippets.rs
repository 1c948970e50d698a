use std::collections::HashMap;

use hypertype::snippets::{Snippets, TriggerKind, MAX_TEXT_TRIGGER_CHARS};

fn fixture() -> Snippets {
    let mut m = HashMap::new();
    m.insert("gm".to_string(), "Good morning".to_string());
    m.insert("addr".to_string(), "123 Main Street".to_string());
    Snippets::from_map(m)
}

fn buf(s: &str) -> Vec<char> {
    s.chars().collect()
}

fn triggers(s: &Snippets) -> Vec<String> {
    s.list().into_iter().map(|(t, _, _)| t).collect()
}

fn abc() -> Snippets {
    let mut s = Snippets::default();
    for t in ["a", "b", "c"] {
        s.insert(t.to_string(), "x".to_string(), TriggerKind::Text);
    }
    s
}

#[test]
fn matches_at_start() {
    let s = fixture();
    assert_eq!(s.match_suffix(&buf("gm")).unwrap().0, 2);
}

#[test]
fn matches_after_space() {
    let s = fixture();
    let m = s.match_suffix(&buf("hello gm")).unwrap();
    assert_eq!(m.0, 2);
    assert_eq!(m.1, "Good morning");
}

#[test]
fn does_not_match_inside_word() {
    let s = fixture();
    assert!(s.match_suffix(&buf("xgm")).is_none());
}

#[test]
fn longest_trigger_wins() {
    let mut m = HashMap::new();
    m.insert("ad".to_string(), "short".to_string());
    m.insert("addr".to_string(), "long".to_string());
    let s = Snippets::from_map(m);
    assert_eq!(s.match_suffix(&buf("addr")).unwrap().1, "long");
}

#[test]
fn unicode_triggers_match_by_character_count() {
    let mut s = Snippets::default();
    s.insert(
        "\u{05e9}\u{05dc}".to_string(),
        "\u{05e9}\u{05dc}\u{05d5}\u{05dd}".to_string(),
        TriggerKind::Text,
    );
    assert_eq!(
        s.match_suffix(&buf(" \u{05e9}\u{05dc}")),
        Some((2, "\u{05e9}\u{05dc}\u{05d5}\u{05dd}".to_string()))
    );
}

#[test]
fn batch_insert_updates_existing_entries_and_preserves_order() {
    let mut s = Snippets::default();
    s.insert("a".to_string(), "old".to_string(), TriggerKind::Text);
    s.insert_many(vec![
        ("b".to_string(), "second".to_string(), TriggerKind::Text),
        ("a".to_string(), "new".to_string(), TriggerKind::Text),
    ]);
    assert_eq!(triggers(&s), vec!["a", "b"]);
    assert_eq!(s.match_suffix(&buf("a")).unwrap().1, "new");
}

#[test]
fn shortcut_kind_never_matches_as_text() {
    let mut s = Snippets::default();
    s.insert(
        "Ctrl+KeyG".to_string(),
        "secret".to_string(),
        TriggerKind::Shortcut,
    );
    let typed: Vec<char> = "Ctrl+KeyG".chars().collect();
    assert!(s.match_suffix(&typed).is_none());
}

#[test]
fn list_reports_kind_per_entry() {
    let mut s = Snippets::default();
    s.insert(
        "gm".to_string(),
        "Good morning".to_string(),
        TriggerKind::Text,
    );
    s.insert(
        "Ctrl+KeyB".to_string(),
        "bold-snippet".to_string(),
        TriggerKind::Shortcut,
    );
    let mut entries = s.list();
    entries.sort_by(|a, b| a.0.cmp(&b.0));
    assert_eq!(
        entries,
        vec![
            (
                "Ctrl+KeyB".to_string(),
                "bold-snippet".to_string(),
                TriggerKind::Shortcut
            ),
            (
                "gm".to_string(),
                "Good morning".to_string(),
                TriggerKind::Text
            ),
        ]
    );
}

#[test]
fn remove_reports_the_removed_kind() {
    let mut s = Snippets::default();
    s.insert(
        "gm".to_string(),
        "Good morning".to_string(),
        TriggerKind::Text,
    );
    assert_eq!(s.remove("gm"), Some(TriggerKind::Text));
    assert_eq!(s.remove("gm"), None);
}

#[test]
fn list_preserves_insertion_order() {
    let mut s = Snippets::default();
    for t in ["zz", "aa", "mm"] {
        s.insert(t.to_string(), "x".to_string(), TriggerKind::Text);
    }
    assert_eq!(triggers(&s), vec!["zz", "aa", "mm"]);
}

#[test]
fn editing_keeps_position_and_removal_drops_it() {
    let mut s = Snippets::default();
    for t in ["a", "b", "c"] {
        s.insert(t.to_string(), "x".to_string(), TriggerKind::Text);
    }
    s.insert("a".to_string(), "edited".to_string(), TriggerKind::Text);
    assert_eq!(triggers(&s), vec!["a", "b", "c"]);
    s.remove("b");
    assert_eq!(triggers(&s), vec!["a", "c"]);
}

#[test]
fn renaming_keeps_position() {
    let mut s = Snippets::default();
    for t in ["a", "b", "c"] {
        s.insert(t.to_string(), "x".to_string(), TriggerKind::Text);
    }
    s.update(
        "b",
        "bb".to_string(),
        "edited".to_string(),
        TriggerKind::Shortcut,
    )
    .unwrap();
    assert_eq!(triggers(&s), vec!["a", "bb", "c"]);
    assert_eq!(
        s.get("bb"),
        Some(("edited".to_string(), TriggerKind::Shortcut))
    );
    assert!(s.get("b").is_none());
}

#[test]
fn update_rejects_duplicate_trigger() {
    let mut s = Snippets::default();
    for t in ["a", "b"] {
        s.insert(t.to_string(), "x".to_string(), TriggerKind::Text);
    }
    assert!(s
        .update(
            "a",
            "b".to_string(),
            "edited".to_string(),
            TriggerKind::Text,
        )
        .is_err());
    assert_eq!(triggers(&s), vec!["a", "b"]);
    assert_eq!(s.get("a"), Some(("x".to_string(), TriggerKind::Text)));
}

#[test]
fn set_order_applies_and_survives_bad_input() {
    let mut s = Snippets::default();
    for t in ["a", "b", "c"] {
        s.insert(t.to_string(), "x".to_string(), TriggerKind::Text);
    }
    // Unknown trigger dropped, duplicate collapsed, missing "b" appended.
    s.set_order(vec![
        "c".to_string(),
        "ghost".to_string(),
        "a".to_string(),
        "c".to_string(),
    ]);
    assert_eq!(triggers(&s), vec!["c", "a", "b"]);
}

#[test]
fn update_names_its_errors() {
    let mut s = abc();
    assert_eq!(
        s.update("a", "b".to_string(), "e".to_string(), TriggerKind::Text),
        Err("A snippet with that trigger already exists.".to_string())
    );
    assert_eq!(
        s.update("ghost", "g".to_string(), "e".to_string(), TriggerKind::Text),
        Err("Snippet not found.".to_string())
    );
    assert_eq!(
        s.update("ghost", "b".to_string(), "e".to_string(), TriggerKind::Text),
        Err("A snippet with that trigger already exists.".to_string())
    );
    assert_eq!(triggers(&s), vec!["a", "b", "c"]);
    assert_eq!(
        s.update("b", "b".to_string(), "e".to_string(), TriggerKind::Shortcut),
        Ok(TriggerKind::Text)
    );
    assert_eq!(s.get_kind("b"), Some(TriggerKind::Shortcut));
    assert!(s.match_suffix(&buf("b")).is_none());
}

#[test]
fn from_map_sorts_by_code_point() {
    let mut m = HashMap::new();
    for t in ["b", "a", "\u{e9}", "B", "ab", "\u{1f600}", ""] {
        m.insert(t.to_string(), format!("<{t}>"));
    }
    let s = Snippets::from_map(m);
    assert_eq!(
        triggers(&s),
        vec!["", "B", "a", "ab", "b", "\u{e9}", "\u{1f600}"]
    );
    assert_eq!(s.len(), 7);
    assert_eq!(s.get("ab"), Some(("<ab>".to_string(), TriggerKind::Text)));
    let mut sorted = triggers(&s);
    sorted.sort();
    assert_eq!(sorted, triggers(&s));
}

#[test]
fn from_entries_keeps_the_first_position_and_the_last_content() {
    let s = Snippets::from_entries(vec![
        ("a".to_string(), "1".to_string(), TriggerKind::Text),
        ("b".to_string(), "2".to_string(), TriggerKind::Text),
        ("a".to_string(), "3".to_string(), TriggerKind::Shortcut),
    ]);
    assert_eq!(triggers(&s), vec!["a", "b"]);
    assert_eq!(s.get("a"), Some(("3".to_string(), TriggerKind::Shortcut)));
}

#[test]
fn listing_and_reading_back_loses_nothing() {
    let mut s = abc();
    s.set_order(vec!["c".to_string()]);
    s.insert("d".to_string(), "y".to_string(), TriggerKind::Shortcut);
    let again = Snippets::from_entries(s.list());
    assert_eq!(again.list(), s.list());
    assert_eq!(triggers(&again), vec!["c", "a", "b", "d"]);
}

#[test]
fn removing_undoes_adding() {
    let mut s = abc();
    let before = s.list();
    s.insert("new".to_string(), "n".to_string(), TriggerKind::Text);
    assert_eq!(s.match_suffix(&buf("new")).unwrap().0, 3);
    s.remove("new");
    assert_eq!(s.list(), before);
    assert!(s.match_suffix(&buf("new")).is_none());
}

#[test]
fn renaming_back_undoes_renaming() {
    let mut s = abc();
    let before = s.list();
    s.update("b", "q".to_string(), "z".to_string(), TriggerKind::Text)
        .unwrap();
    s.update("q", "b".to_string(), "x".to_string(), TriggerKind::Text)
        .unwrap();
    assert_eq!(s.list(), before);
}

#[test]
fn reordering_twice_is_reordering_once() {
    let mut s = abc();
    s.set_order(vec!["b".to_string()]);
    let once = s.list();
    s.set_order(triggers(&s));
    assert_eq!(s.list(), once);
    s.set_order(Vec::new());
    assert_eq!(s.list(), once);
}

#[test]
fn empty_buffers_and_empty_triggers_never_match() {
    let mut s = Snippets::default();
    assert!(s.match_suffix(&[]).is_none());
    s.insert(String::new(), "nothing".to_string(), TriggerKind::Text);
    assert!(s.match_suffix(&[]).is_none());
    assert!(s.match_suffix(&buf("a ")).is_none());
    assert_eq!(s.len(), 1);
}

#[test]
fn word_boundaries_follow_unicode() {
    let s = fixture();
    assert!(s.match_suffix(&buf("-gm")).is_some());
    assert!(s.match_suffix(&buf("\ngm")).is_some());
    assert!(s.match_suffix(&buf("7gm")).is_none());
    assert!(s.match_suffix(&buf("\u{5d0}gm")).is_none());
    assert!(s.match_suffix(&buf("\u{b2}gm")).is_none());
    assert!(s.match_suffix(&buf("\u{2014}gm")).is_some());
}

#[test]
fn a_longer_trigger_without_a_boundary_leaves_the_shorter_one() {
    let s = Snippets::from_entries(vec![
        ("b".to_string(), "short".to_string(), TriggerKind::Text),
        ("a-b".to_string(), "long".to_string(), TriggerKind::Text),
        ("-b".to_string(), "middle".to_string(), TriggerKind::Text),
    ]);
    assert_eq!(
        s.match_suffix(&buf("a-b")),
        Some((3, "long".to_string()))
    );
    // The longest candidate stands inside a word, and so does the next.
    assert_eq!(s.match_suffix(&buf("xa-b")), Some((1, "short".to_string())));
    assert_eq!(s.match_suffix(&buf(" -b")), Some((2, "middle".to_string())));
}

#[test]
fn the_longest_accepted_trigger_fires() {
    let t = "\u{05d0}".repeat(MAX_TEXT_TRIGGER_CHARS);
    let mut s = Snippets::default();
    s.insert(t.clone(), "aleph".to_string(), TriggerKind::Text);
    assert_eq!(s.match_suffix(&buf(&t)), Some((64, "aleph".to_string())));
}
