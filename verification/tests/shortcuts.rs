use hypertype::shortcuts::{
    chord_event_fires, chord_matches, register_all, should_fire_shortcut,
    try_match_chord_fallback, vk_to_key_name, ChordOutcome,
};
use hypertype::snippets::{Snippets, TriggerKind};

#[test]
fn test_vk_to_key_name() {
    assert_eq!(vk_to_key_name(0x4C), Some("KeyL".to_string()));
    assert_eq!(vk_to_key_name(0x41), Some("KeyA".to_string()));
    assert_eq!(vk_to_key_name(0x30), Some("Digit0".to_string()));
    assert_eq!(vk_to_key_name(0x70), Some("F1".to_string()));
    assert_eq!(vk_to_key_name(0x7B), Some("F12".to_string()));
    assert_eq!(vk_to_key_name(0x20), Some("Space".to_string()));
    assert_eq!(vk_to_key_name(0xFF), None);
}

#[test]
fn test_try_match_chord_fallback_matches_ctrl_key_l() {
    let store = Snippets::from_entries(vec![(
        "Ctrl+KeyL".to_string(),
        "yeet mode".to_string(),
        TriggerKind::Shortcut,
    )]);
    let mut last_ms = 0;

    // 0x4C is virtual key 'L'
    let matched = try_match_chord_fallback(
        0x4C, true, false, false, false, &store, &mut last_ms, 1_000, true, false,
    )
    .matched;
    assert!(matched);

    // Wrong modifier (Alt instead of Ctrl) should not match
    let no_match = try_match_chord_fallback(
        0x4C, false, true, false, false, &store, &mut last_ms, 2_000, true, false,
    )
    .matched;
    assert!(!no_match);
}

#[test]
fn every_named_key() {
    for (vk, name) in [
        (0x5A, "KeyZ"),
        (0x39, "Digit9"),
        (0x78, "F9"),
        (0x79, "F10"),
        (0x7A, "F11"),
    ] {
        assert_eq!(vk_to_key_name(vk), Some(name.to_string()));
    }
    for vk in [0x2F, 0x3A, 0x40, 0x5B, 0x6F, 0x7C, 0, 0x141, u32::MAX] {
        assert_eq!(vk_to_key_name(vk), None);
    }
}

#[test]
fn shortcuts_are_debounced() {
    let mut last_ms = 0;
    assert!(should_fire_shortcut(&mut last_ms, 1_000));
    assert!(!should_fire_shortcut(&mut last_ms, 1_400));
    assert!(!should_fire_shortcut(&mut last_ms, 1_800));
    assert!(should_fire_shortcut(&mut last_ms, 2_201));
    // A clock that was set back.
    assert!(!should_fire_shortcut(&mut last_ms, 5));
    assert_eq!(last_ms, 5);
}

#[test]
fn holding_a_chord_fires_once() {
    let mut held = false;
    let mut last_ms = 0;
    assert!(chord_event_fires(&mut held, &mut last_ms, true, 1_000, true, false));
    assert!(!chord_event_fires(&mut held, &mut last_ms, true, 2_000, true, false));
    assert_eq!(last_ms, 1_000);
    assert!(!chord_event_fires(&mut held, &mut last_ms, false, 2_100, true, false));
    assert!(chord_event_fires(&mut held, &mut last_ms, true, 2_200, true, false));
}

#[test]
fn disabled_apps_and_password_fields_fire_nothing() {
    let mut held = false;
    let mut last_ms = 0;
    assert!(!chord_event_fires(&mut held, &mut last_ms, true, 1_000, false, false));
    assert_eq!((held, last_ms), (true, 1_000));
    held = false;
    assert!(!chord_event_fires(&mut held, &mut last_ms, true, 2_000, true, true));
    held = false;
    assert!(!chord_event_fires(&mut held, &mut last_ms, true, 2_100, true, false));
}

#[test]
fn chord_spellings() {
    assert!(chord_matches("ctrl+alt+shift+super+keya", 0x41, true, true, true, true));
    assert!(chord_matches("control+alt+shift+super+keya", 0x41, true, true, true, true));
    assert!(chord_matches("control+f12", 0x7B, true, false, false, false));
    assert!(chord_matches("super+space", 0x20, false, false, false, true));
    assert!(!chord_matches("shift+ctrl+keya", 0x41, true, false, true, false));
    assert!(!chord_matches("shift+keya", 0x41, false, false, true, false));
    assert!(!chord_matches("control+keya", 0x41, false, true, false, false));
    assert!(!chord_matches("ctrl+", 0xFF, true, false, false, false));
    assert!(!chord_matches("ctrl+keya", 0x42, true, false, false, false));
}

fn outcome(store: &Snippets, last_ms: &mut u64, now_ms: u64, enabled: bool, password: bool) -> ChordOutcome {
    try_match_chord_fallback(
        0x56, true, false, true, false, store, last_ms, now_ms, enabled, password,
    )
}

#[test]
fn the_first_shortcut_for_a_chord_is_expanded() {
    let store = Snippets::from_entries(vec![
        ("ctrl+shift+keyv".to_string(), "text".to_string(), TriggerKind::Text),
        ("Ctrl+KeyV".to_string(), "other".to_string(), TriggerKind::Shortcut),
        ("CONTROL + Shift + KeyV".to_string(), "first".to_string(), TriggerKind::Shortcut),
        ("Ctrl+Shift+KeyV".to_string(), "second".to_string(), TriggerKind::Shortcut),
    ]);
    let mut last_ms = 0;
    let o = outcome(&store, &mut last_ms, 1_000, true, false);
    assert!(o.matched);
    assert_eq!(o.expand, Some("first".to_string()));
    // Too soon, disabled, or in a password field, the chord is still matched.
    for (now, enabled, password) in [(1_100, true, false), (2_000, false, false), (3_000, true, true)] {
        let o = outcome(&store, &mut last_ms, now, enabled, password);
        assert!(o.matched);
        assert_eq!(o.expand, None);
        assert_eq!(last_ms, now);
    }
    let none = Snippets::default();
    let o = outcome(&none, &mut last_ms, 9_000, true, false);
    assert!(!o.matched);
    assert_eq!(last_ms, 3_000);
}

#[test]
fn triggers_are_lowered_by_unicode() {
    // The Kelvin sign is lowered to the letter k.
    let store = Snippets::from_entries(vec![(
        "Ctrl+\u{212a}eyL".to_string(),
        "kelvin".to_string(),
        TriggerKind::Shortcut,
    )]);
    let mut last_ms = 0;
    let o = try_match_chord_fallback(
        0x4C, true, false, false, false, &store, &mut last_ms, 1_000, true, false,
    );
    assert_eq!(o.expand, Some("kelvin".to_string()));
}

#[test]
fn startup_registers_the_shortcuts_in_order() {
    let store = Snippets::from_entries(vec![
        ("b".to_string(), "1".to_string(), TriggerKind::Shortcut),
        ("t".to_string(), "2".to_string(), TriggerKind::Text),
        ("a".to_string(), "3".to_string(), TriggerKind::Shortcut),
    ]);
    assert_eq!(
        register_all(&store),
        vec![
            ("b".to_string(), "1".to_string()),
            ("a".to_string(), "3".to_string()),
        ]
    );
}
