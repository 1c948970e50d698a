//! Pasting through the clipboard, and giving the user's clipboard back.
//!
//! The host owns the clipboard, the clock and the threads. It reports what
//! happened, and the functions here say what to do next. `S` is the host's
//! snapshot of a clipboard; it is only carried, never looked into.

use vstd::prelude::*;
use vstd::string::*;

use crate::expansion::{
    effective_paste_combo, paste_combo_for, restore_delay, restore_delay_for, PasteCombo, Settings,
    TargetKind,
};

verus! {

/// The user's clipboard, kept while an expansion is on the clipboard.
pub struct ClipboardRestore<S> {
    pub original: S,
    /// The clipboard's sequence number with the expansion on it.
    pub sequence: u32,
    pub generation: u64,
}

/// What is kept between one paste and its restore.
pub struct ClipboardSession<S> {
    pub active: Option<ClipboardRestore<S>>,
    /// Counts the pastes.
    pub generation: u64,
}

/// An order to give the user's clipboard back.
#[derive(Clone, Copy, PartialEq, Eq, Debug, Structural)]
pub struct RestoreRequest {
    pub generation: u64,
    pub sequence: u32,
    pub delay_ms: u32,
}

/// What the host reports while it pastes.
pub enum PasteEvent<S> {
    /// A paste begins; this is the clipboard's sequence number.
    Begun { sequence: u32 },
    /// A snapshot was taken.
    Snapshot { saved: S },
    /// The expansion is on the clipboard, which has a new sequence number.
    TextSet { saved: S, sequence: u32, saved_contains_non_plain_text: bool },
    /// The clipboard could not be set.
    TextRefused { saved: S },
}

/// What the host does next while it pastes.
pub enum PasteAction<S> {
    /// Take a snapshot of the clipboard.
    TakeSnapshot,
    /// Put the expansion on the clipboard.
    SetText { saved: S },
    /// Send the paste combo, then schedule the restore.
    SendPaste { combo: PasteCombo, restore: RestoreRequest },
    /// Put the saved clipboard back at once and type the expansion.
    RestoreAndType { saved: S },
}

/// The request that belongs to a paste.
pub open spec fn restore_request(
    generation: u64,
    sequence: u32,
    rich: bool,
    text: Seq<char>,
    target: TargetKind,
    settings: Settings,
) -> RestoreRequest {
    RestoreRequest {
        generation,
        sequence,
        delay_ms: restore_delay(
            settings.restore_delay_ms as int,
            rich,
            text.len(),
            target != TargetKind::Standard,
        ) as u32,
    }
}

/// The generation that follows another.
pub open spec fn next_generation(generation: u64) -> u64 {
    if generation == u64::MAX {
        0
    } else {
        (generation + 1) as u64
    }
}

/// What the session becomes on an event.
pub open spec fn session_after<S>(
    session: ClipboardSession<S>,
    event: PasteEvent<S>,
) -> ClipboardSession<S> {
    match event {
        PasteEvent::Begun { .. } => ClipboardSession { active: None, ..session },
        PasteEvent::TextSet { saved, sequence, .. } => ClipboardSession {
            active: Some(
                ClipboardRestore {
                    original: saved,
                    sequence,
                    generation: next_generation(session.generation),
                },
            ),
            generation: next_generation(session.generation),
        },
        _ => session,
    }
}

/// What is to be done on an event.
pub open spec fn paste_action<S>(
    session: ClipboardSession<S>,
    event: PasteEvent<S>,
    text: Seq<char>,
    target: TargetKind,
    settings: Settings,
) -> PasteAction<S> {
    match event {
        // A second expansion may happen before the first delayed restore. If
        // the clipboard still holds the first one, the user's snapshot is
        // carried forward.
        PasteEvent::Begun { sequence } => match session.active {
            Some(previous) => if previous.sequence == sequence {
                PasteAction::SetText { saved: previous.original }
            } else {
                PasteAction::TakeSnapshot
            },
            None => PasteAction::TakeSnapshot,
        },
        PasteEvent::Snapshot { saved } => PasteAction::SetText { saved },
        PasteEvent::TextSet { sequence, saved_contains_non_plain_text, .. } =>
            PasteAction::SendPaste {
                combo: paste_combo_for(settings.paste_combo, target),
                restore: restore_request(
                    next_generation(session.generation),
                    sequence,
                    saved_contains_non_plain_text,
                    text,
                    target,
                    settings,
                ),
            },
        PasteEvent::TextRefused { saved } => PasteAction::RestoreAndType { saved },
    }
}

/// One step of a paste: from the session and what happened to the session and
/// what is to be done.
pub fn paste_via_clipboard<S>(
    session: &mut ClipboardSession<S>,
    event: PasteEvent<S>,
    text: &str,
    target: TargetKind,
    settings: &Settings,
) -> (action: PasteAction<S>)
    ensures
        *final(session) == session_after(*old(session), event),
        action == paste_action(*old(session), event, text@, target, *settings),
{
    match event {
        PasteEvent::Begun { sequence } => {
            let previous = session.active.take();
            match previous {
                Some(previous) => {
                    if previous.sequence == sequence {
                        PasteAction::SetText { saved: previous.original }
                    } else {
                        PasteAction::TakeSnapshot
                    }
                },
                None => PasteAction::TakeSnapshot,
            }
        },
        PasteEvent::Snapshot { saved } => PasteAction::SetText { saved },
        PasteEvent::TextSet { saved, sequence, saved_contains_non_plain_text } => {
            let generation: u64 = session.generation.wrapping_add(1);
            session.generation = generation;
            session.active = Some(ClipboardRestore { original: saved, sequence, generation });
            let combo = effective_paste_combo(settings.paste_combo, target);
            let delay_ms = restore_delay_for(
                settings,
                saved_contains_non_plain_text,
                text.unicode_len(),
                target != TargetKind::Standard,
            );
            PasteAction::SendPaste {
                combo,
                restore: RestoreRequest { generation, sequence, delay_ms },
            }
        },
        PasteEvent::TextRefused { saved } => PasteAction::RestoreAndType { saved },
    }
}

/// Whether a request is for the paste that is still open.
pub open spec fn is_current<S>(session: ClipboardSession<S>, request: RestoreRequest) -> bool {
    match session.active {
        Some(pending) => pending.generation == request.generation,
        None => false,
    }
}

/// What the session becomes when a request is due.
pub open spec fn session_after_restore<S>(
    session: ClipboardSession<S>,
    request: RestoreRequest,
) -> ClipboardSession<S> {
    if is_current(session, request) {
        ClipboardSession { active: None, ..session }
    } else {
        session
    }
}

/// The snapshot to put back when a request is due: that of the open paste, if
/// the request is for it and nobody else has claimed the clipboard since.
pub open spec fn snapshot_due<S>(
    session: ClipboardSession<S>,
    request: RestoreRequest,
    current_sequence: u32,
) -> Option<S> {
    if is_current(session, request) && current_sequence == request.sequence {
        Some(session.active->0.original)
    } else {
        None
    }
}

/// Answers a due request.
pub fn restore_clipboard<S>(
    session: &mut ClipboardSession<S>,
    request: RestoreRequest,
    current_sequence: u32,
) -> (restored: Option<S>)
    ensures
        *final(session) == session_after_restore(*old(session), request),
        restored == snapshot_due(*old(session), request, current_sequence),
{
    let current = match &session.active {
        Some(pending) => pending.generation == request.generation,
        None => false,
    };
    if !current {
        return None;
    }
    let pending = session.active.take();
    match pending {
        Some(pending) => {
            if current_sequence == request.sequence {
                Some(pending.original)
            } else {
                None
            }
        },
        None => None,
    }
}

/// By which way a restore is carried out.
#[derive(Clone, Copy, PartialEq, Eq, Debug, Structural)]
pub enum RestoreRoute {
    /// Handed to the restore worker.
    Worker,
    /// On a thread of its own, which sleeps first.
    FallbackThread,
    /// On the spot.
    Immediately,
}

/// The first way to try.
pub fn schedule_restore(worker_running: bool) -> (route: RestoreRoute)
    ensures
        route == if worker_running {
            RestoreRoute::Worker
        } else {
            RestoreRoute::FallbackThread
        },
{
    if worker_running {
        RestoreRoute::Worker
    } else {
        RestoreRoute::FallbackThread
    }
}

/// The way to try after one that failed.
pub fn schedule_fallback_restore(failed: RestoreRoute) -> (route: RestoreRoute)
    ensures
        route == if failed == RestoreRoute::Worker {
            RestoreRoute::FallbackThread
        } else {
            RestoreRoute::Immediately
        },
{
    match failed {
        RestoreRoute::Worker => RestoreRoute::FallbackThread,
        _ => RestoreRoute::Immediately,
    }
}

/// What the restore worker waits with: the last request, and the time in
/// nanoseconds at which it is due.
#[derive(Clone, Copy, Debug)]
pub struct RestoreWorker {
    pub pending: Option<(RestoreRequest, u64)>,
}

/// What the restore worker's channel reports.
#[derive(Clone, Copy, PartialEq, Eq, Debug, Structural)]
pub enum WorkerEvent {
    /// A request came at this time.
    Received { request: RestoreRequest, now_ns: u64 },
    /// The time to wait is over.
    TimedOut,
    /// Nobody can send any more.
    Disconnected,
}

/// What the restore worker does next.
#[derive(Clone, Copy, PartialEq, Eq, Debug, Structural)]
pub enum WorkerAction {
    /// Wait for the next event.
    Wait,
    /// Carry out a request, then wait.
    Restore(RestoreRequest),
    Stop,
}

pub const NANOS_PER_MILLI: u64 = 1_000_000;

/// One step of the restore worker. A newer request takes the place of the one
/// before it.
pub fn restore_worker(worker: &mut RestoreWorker, event: WorkerEvent) -> (action: WorkerAction)
    requires
        event matches WorkerEvent::Received { request, now_ns } ==> now_ns + request.delay_ms
            * NANOS_PER_MILLI <= u64::MAX,
        event == WorkerEvent::TimedOut ==> old(worker).pending is Some,
    ensures
        match event {
            WorkerEvent::Received { request, now_ns } => {
                &&& final(worker).pending == Some(
                    (request, (now_ns + request.delay_ms * NANOS_PER_MILLI) as u64),
                )
                &&& (final(worker).pending->0).1 == now_ns + request.delay_ms * 1_000_000
                &&& action == WorkerAction::Wait
            },
            WorkerEvent::TimedOut => {
                &&& final(worker).pending is None
                &&& action == WorkerAction::Restore((old(worker).pending->0).0)
            },
            WorkerEvent::Disconnected => {
                &&& final(worker).pending is None
                &&& action == WorkerAction::Stop
            },
        },
{
    let waiting = worker.pending.take();
    match event {
        WorkerEvent::Received { request, now_ns } => {
            worker.pending = Some((request, now_ns + request.delay_ms as u64 * NANOS_PER_MILLI));
            WorkerAction::Wait
        },
        WorkerEvent::TimedOut => match waiting {
            Some((request, _)) => WorkerAction::Restore(request),
            None => WorkerAction::Wait,
        },
        WorkerEvent::Disconnected => WorkerAction::Stop,
    }
}

impl RestoreWorker {
    pub fn new() -> (worker: RestoreWorker)
        ensures
            worker.pending is None,
    {
        RestoreWorker { pending: None }
    }

    /// How long to wait for a request at most, in nanoseconds; without limit
    /// when nothing is pending.
    pub fn patience(&self, now_ns: u64) -> (ns: Option<u64>)
        ensures
            match self.pending {
                Some((_, due)) => ns == Some(
                    if due > now_ns {
                        (due - now_ns) as u64
                    } else {
                        0u64
                    },
                ),
                None => ns is None,
            },
    {
        match self.pending {
            Some((_, due)) => Some(due.saturating_sub(now_ns)),
            None => None,
        }
    }
}

} // verus!
