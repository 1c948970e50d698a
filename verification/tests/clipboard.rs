use hypertype::clipboard::{
    paste_via_clipboard, restore_clipboard, restore_worker, schedule_fallback_restore,
    schedule_restore, ClipboardSession, PasteAction, PasteEvent, RestoreRequest, RestoreRoute,
    RestoreWorker, WorkerAction, WorkerEvent,
};
use hypertype::expansion::{PasteCombo, Settings, TargetKind};

fn fresh() -> ClipboardSession<&'static str> {
    ClipboardSession {
        active: None,
        generation: 0,
    }
}

fn step(
    session: &mut ClipboardSession<&'static str>,
    event: PasteEvent<&'static str>,
) -> PasteAction<&'static str> {
    paste_via_clipboard(
        session,
        event,
        "expansion",
        TargetKind::Standard,
        &Settings::default(),
    )
}

fn saved_of(action: PasteAction<&'static str>) -> &'static str {
    match action {
        PasteAction::SetText { saved } => saved,
        _ => panic!("expected to set the text"),
    }
}

fn request_of(action: PasteAction<&'static str>) -> RestoreRequest {
    match action {
        PasteAction::SendPaste { restore, .. } => restore,
        _ => panic!("expected to paste"),
    }
}

/// Pastes with a fresh snapshot.
fn paste(session: &mut ClipboardSession<&'static str>, user: &'static str, sequence: u32) -> RestoreRequest {
    let begun = step(session, PasteEvent::Begun { sequence });
    assert!(matches!(begun, PasteAction::TakeSnapshot));
    assert_eq!(
        saved_of(step(session, PasteEvent::Snapshot { saved: user })),
        user
    );
    request_of(step(
        session,
        PasteEvent::TextSet {
            saved: user,
            sequence: sequence + 1,
            saved_contains_non_plain_text: false,
        },
    ))
}

#[test]
fn a_paste_is_restored() {
    let mut session = fresh();
    let request = paste(&mut session, "user", 10);
    assert_eq!(
        request,
        RestoreRequest {
            generation: 1,
            sequence: 11,
            delay_ms: 5_000,
        }
    );
    assert_eq!(restore_clipboard(&mut session, request, 11), Some("user"));
    // A request is answered once.
    assert_eq!(restore_clipboard(&mut session, request, 11), None);
}

#[test]
fn a_second_paste_carries_the_snapshot_forward() {
    let mut session = fresh();
    let first = paste(&mut session, "user", 10);
    let carried = saved_of(step(&mut session, PasteEvent::Begun { sequence: 11 }));
    assert_eq!(carried, "user");
    let second = request_of(step(
        &mut session,
        PasteEvent::TextSet {
            saved: carried,
            sequence: 12,
            saved_contains_non_plain_text: false,
        },
    ));
    assert_eq!(second.generation, 2);
    // The first request is overtaken.
    assert_eq!(restore_clipboard(&mut session, first, 11), None);
    assert_eq!(restore_clipboard(&mut session, second, 12), Some("user"));
}

#[test]
fn a_changed_clipboard_is_snapshotted_again() {
    let mut session = fresh();
    paste(&mut session, "user", 10);
    let request = paste(&mut session, "newer", 20);
    assert_eq!(restore_clipboard(&mut session, request, 21), Some("newer"));
}

#[test]
fn a_foreign_clipboard_is_left_alone() {
    let mut session = fresh();
    let request = paste(&mut session, "user", 10);
    assert_eq!(restore_clipboard(&mut session, request, 12), None);
    // The paste is closed all the same.
    assert!(session.active.is_none());
}

#[test]
fn a_refused_clipboard_is_restored_at_once() {
    let mut session = fresh();
    step(&mut session, PasteEvent::Begun { sequence: 3 });
    let action = step(&mut session, PasteEvent::TextRefused { saved: "user" });
    assert!(matches!(
        action,
        PasteAction::RestoreAndType { saved: "user" }
    ));
    assert!(session.active.is_none());
    assert_eq!(session.generation, 0);
}

#[test]
fn the_paste_follows_target_and_settings() {
    let mut session = fresh();
    session.generation = u64::MAX;
    let action = paste_via_clipboard(
        &mut session,
        PasteEvent::TextSet {
            saved: "user",
            sequence: 1,
            saved_contains_non_plain_text: true,
        },
        &"\u{5d0}".repeat(111),
        TargetKind::Codex,
        &Settings::default(),
    );
    match action {
        PasteAction::SendPaste { combo, restore } => {
            assert_eq!(combo, PasteCombo::CtrlShiftV);
            assert_eq!(
                restore,
                RestoreRequest {
                    generation: 0,
                    sequence: 1,
                    delay_ms: 13_000,
                }
            );
        }
        _ => panic!("expected to paste"),
    }
}

#[test]
fn restore_routes() {
    assert_eq!(schedule_restore(true), RestoreRoute::Worker);
    assert_eq!(schedule_restore(false), RestoreRoute::FallbackThread);
    assert_eq!(
        schedule_fallback_restore(RestoreRoute::Worker),
        RestoreRoute::FallbackThread
    );
    assert_eq!(
        schedule_fallback_restore(RestoreRoute::FallbackThread),
        RestoreRoute::Immediately
    );
}

#[test]
fn the_worker_waits_for_the_newest_request() {
    let request = |generation| RestoreRequest {
        generation,
        sequence: 1,
        delay_ms: 3_000,
    };
    let mut worker = RestoreWorker::new();
    assert_eq!(worker.patience(5), None);
    assert_eq!(
        restore_worker(
            &mut worker,
            WorkerEvent::Received {
                request: request(1),
                now_ns: 1_000,
            }
        ),
        WorkerAction::Wait
    );
    assert_eq!(worker.patience(1_000), Some(3_000_000_000));
    assert_eq!(worker.patience(2_000_001_000), Some(1_000_000_000));
    restore_worker(
        &mut worker,
        WorkerEvent::Received {
            request: request(2),
            now_ns: 2_000_001_000,
        },
    );
    assert_eq!(worker.patience(9_000_000_000), Some(0));
    assert_eq!(
        restore_worker(&mut worker, WorkerEvent::TimedOut),
        WorkerAction::Restore(request(2))
    );
    assert_eq!(worker.patience(9_000_000_000), None);
    assert_eq!(
        restore_worker(&mut worker, WorkerEvent::Disconnected),
        WorkerAction::Stop
    );
}
