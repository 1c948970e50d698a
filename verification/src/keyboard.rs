//! What the global keyboard and mouse hooks do with an event, and how the
//! watchdog keeps them alive.
//!
//! The host installs the hooks, reads the clock and runs the threads. It keeps
//! one `Hook` value and hands it, with what it has seen, to the functions
//! here.

use vstd::prelude::*;

use crate::clipboard::NANOS_PER_MILLI;

verus! {

/// One raw key transition forwarded from the hook to the engine.
#[derive(Clone, Copy, PartialEq, Eq, Debug, Structural)]
pub struct KeyEvent {
    pub message: u32,
    pub vk: u32,
    pub scan: u32,
}

pub const WM_KEYDOWN: u32 = 0x0100;

pub const WM_SYSKEYDOWN: u32 = 0x0104;

pub const WM_LBUTTONDOWN: u32 = 0x0201;

pub const WM_RBUTTONDOWN: u32 = 0x0204;

pub const WM_MBUTTONDOWN: u32 = 0x0207;

pub const WM_XBUTTONDOWN: u32 = 0x020B;

/// The hook code of an event that is to be looked at.
pub const HC_ACTION: i32 = 0;

/// The virtual key of the heartbeat.
pub const VK_F24: u32 = 0x87;

/// The exit code of a thread that has not ended.
pub const STILL_ACTIVE: u32 = 259;

/// The error code of input that an elevated window does not take.
pub const ERROR_ACCESS_DENIED: u32 = 5;

/// How long the watchdog pauses between two checks, in milliseconds.
pub const WATCHDOG_PAUSE_MS: u64 = 2_500;

/// How long an old hook thread is given to unhook, in milliseconds, and how
/// often it is looked at meanwhile.
pub const STOP_LIMIT_MS: u64 = 100;

pub const STOP_POLL_MS: u64 = 10;

/// How long a reinstallation waits for the new hook, in milliseconds, and how
/// often it is looked for meanwhile.
pub const READY_LIMIT_MS: u64 = 2_000;

pub const READY_POLL_MS: u64 = 5;

/// The marks on synthetic input by which the app knows its own events.
#[derive(Clone, Copy, PartialEq, Eq, Debug, Structural)]
pub struct Signatures {
    pub inject: usize,
    pub heartbeat: usize,
}

/// The state of the hook thread and what was seen of it.
#[derive(Clone, Copy, PartialEq, Eq, Debug, Structural)]
pub struct Hook {
    /// Whether an engine listens for key events.
    pub connected: bool,
    /// Whether the keyboard hook is installed and its thread runs.
    pub ready: bool,
    /// The hook thread, or 0.
    pub thread_id: u32,
    /// Keyboard events seen since the start.
    pub events: u64,
    pub last_event_ms: u64,
    pub last_ping_ms: u64,
    pub last_pong_ms: u64,
}

impl Hook {
    pub fn new() -> (hook: Hook)
        ensures
            hook == (Hook {
                connected: false,
                ready: false,
                thread_id: 0,
                events: 0,
                last_event_ms: 0,
                last_ping_ms: 0,
                last_pong_ms: 0,
            }),
    {
        Hook {
            connected: false,
            ready: false,
            thread_id: 0,
            events: 0,
            last_event_ms: 0,
            last_ping_ms: 0,
            last_pong_ms: 0,
        }
    }
}

/// True when the low-level hook thread is actively installed and running.
pub fn is_hook_installed(hook: &Hook) -> (r: bool)
    ensures
        r == hook.ready,
{
    hook.ready
}

/// Total count of keyboard events intercepted since app launch.
pub fn get_event_count(hook: &Hook) -> (r: u64)
    ensures
        r == hook.events,
{
    hook.events
}

/// Millisecond timestamp of the last captured keyboard event.
pub fn last_event_ms(hook: &Hook) -> (r: u64)
    ensures
        r == hook.last_event_ms,
{
    hook.last_event_ms
}

/// An engine listens from now on; the hook thread and the watchdog are to be
/// started.
pub fn start(hook: &mut Hook)
    ensures
        *final(hook) == (Hook { connected: true, ..*old(hook) }),
{
    hook.connected = true;
}

/// What the hook thread reports.
#[derive(Clone, Copy, PartialEq, Eq, Debug, Structural)]
pub enum HookThreadEvent {
    Started { thread_id: u32 },
    /// The hooks were registered, the keyboard hook with or without success.
    Registered { keyboard: bool },
    /// The message pump has ended.
    Stopped,
}

/// The state follows the hook thread.
pub fn hook_thread_event(hook: &mut Hook, event: HookThreadEvent)
    ensures
        *final(hook) == match event {
            HookThreadEvent::Started { thread_id } => Hook { thread_id, ..*old(hook) },
            HookThreadEvent::Registered { keyboard } => Hook {
                ready: old(hook).ready || keyboard,
                ..*old(hook)
            },
            HookThreadEvent::Stopped => Hook { ready: false, ..*old(hook) },
        },
{
    match event {
        HookThreadEvent::Started { thread_id } => {
            hook.thread_id = thread_id;
        },
        HookThreadEvent::Registered { keyboard } => {
            if keyboard {
                hook.ready = true;
            }
        },
        HookThreadEvent::Stopped => {
            hook.ready = false;
        },
    }
}

/// Begins a reinstallation: gives the thread that has to be stopped first, if
/// there is one, and forgets it.
pub fn reinstall_hook(hook: &mut Hook) -> (old_thread: Option<u32>)
    ensures
        *final(hook) == (Hook { thread_id: 0, ..*old(hook) }),
        old_thread == if old(hook).thread_id != 0 {
            Some(old(hook).thread_id)
        } else {
            None
        },
{
    let thread_id: u32 = hook.thread_id;
    hook.thread_id = 0;
    if thread_id != 0 {
        Some(thread_id)
    } else {
        None
    }
}

/// Whether to go on waiting for an old hook thread to unhook.
pub fn wait_until_stopped(hook: &Hook, now_ns: u64, deadline_ns: u64) -> (wait: bool)
    ensures
        wait == (hook.ready && now_ns < deadline_ns),
{
    hook.ready && now_ns < deadline_ns
}

/// Waiting for the hook: `None` to look again later, else whether it is
/// there.
pub fn wait_until_ready(hook: &Hook, now_ns: u64, deadline_ns: u64) -> (r: Option<bool>)
    ensures
        r == if hook.ready {
            Some(true)
        } else if now_ns < deadline_ns {
            None
        } else {
            Some(false)
        },
{
    if hook.ready {
        Some(true)
    } else if now_ns < deadline_ns {
        None
    } else {
        Some(false)
    }
}

/// What to do while waiting for a hook thread.
#[derive(Clone, Copy, PartialEq, Eq, Debug, Structural)]
pub enum WaitAction {
    /// Sleep so many milliseconds and look again.
    Sleep { ms: u64 },
    /// The wait is over; this tells whether a hook is installed.
    GoOn { installed: bool },
}

/// The wait of a reinstallation for the old hook thread to unhook: 100
/// milliseconds at most, with a look every 10.
pub fn wait_for_old_thread(hook: &Hook, waited_ns: u64) -> (action: WaitAction)
    ensures
        action == if hook.ready && waited_ns < 100 * NANOS_PER_MILLI {
            WaitAction::Sleep { ms: 10 }
        } else {
            WaitAction::GoOn { installed: hook.ready }
        },
{
    if wait_until_stopped(hook, waited_ns, STOP_LIMIT_MS * NANOS_PER_MILLI) {
        WaitAction::Sleep { ms: STOP_POLL_MS }
    } else {
        WaitAction::GoOn { installed: hook.ready }
    }
}

/// The wait of a reinstallation for the new hook, which is what the
/// reinstallation comes to: two seconds at most, with a look every five
/// milliseconds.
pub fn wait_for_new_thread(hook: &Hook, waited_ns: u64) -> (action: WaitAction)
    ensures
        action == if !hook.ready && waited_ns < 2_000 * NANOS_PER_MILLI {
            WaitAction::Sleep { ms: 5 }
        } else {
            WaitAction::GoOn { installed: hook.ready }
        },
{
    match wait_until_ready(hook, waited_ns, READY_LIMIT_MS * NANOS_PER_MILLI) {
        Some(installed) => WaitAction::GoOn { installed },
        None => WaitAction::Sleep { ms: READY_POLL_MS },
    }
}

/// A key transition that the app hands to the system.
#[derive(Clone, Copy, PartialEq, Eq, Debug, Structural)]
pub struct SyntheticKey {
    pub vk: u32,
    pub scan: u16,
    /// Whether the key goes up.
    pub key_up: bool,
    /// A time stamp, or 0 to have the system set it.
    pub time: u32,
    pub extra_info: usize,
}

/// The heartbeat: the release of a key that prints nothing, marked as the
/// heartbeat.
pub open spec fn heartbeat(signatures: Signatures) -> SyntheticKey {
    SyntheticKey {
        vk: VK_F24,
        scan: 0,
        key_up: true,
        time: 0,
        extra_info: signatures.heartbeat,
    }
}

/// The key to send as a heartbeat.
pub fn heartbeat_key(signatures: Signatures) -> (key: SyntheticKey)
    ensures
        key == heartbeat(signatures),
{
    SyntheticKey {
        vk: VK_F24,
        scan: 0,
        key_up: true,
        time: 0,
        extra_info: signatures.heartbeat,
    }
}

/// Whether a heartbeat that was not sent is worth a report. Access is denied
/// while an elevated window is active, which says nothing of the hook.
pub fn heartbeat_fault_is_reported(sent: u32, error: u32) -> (report: bool)
    ensures
        report == (sent != 1 && error != 5),
{
    sent != 1 && error != ERROR_ACCESS_DENIED
}

/// Notes a heartbeat that the system took over, which is so when it reports
/// one input sent, and tells whether it did.
pub fn send_heartbeat_ping(hook: &mut Hook, sent: u32, now_ms: u64) -> (ok: bool)
    ensures
        ok == (sent == 1),
        *final(hook) == if sent == 1 {
            Hook { last_ping_ms: now_ms, ..*old(hook) }
        } else {
            *old(hook)
        },
{
    if sent != 1 {
        return false;
    }
    hook.last_ping_ms = now_ms;
    true
}

/// The time from `then` to `now`, or 0 when the clock was set back.
pub open spec fn elapsed(now_ms: int, then_ms: int) -> int {
    if now_ms > then_ms {
        now_ms - then_ms
    } else {
        0
    }
}

/// Returns true if the hook heartbeat has been confirmed responsive recently.
pub fn is_heartbeat_healthy(hook: &Hook, now_ms: u64) -> (r: bool)
    ensures
        r == (hook.last_ping_ms == 0 || hook.last_pong_ms >= hook.last_ping_ms || elapsed(
            now_ms as int,
            hook.last_pong_ms as int,
        ) < 3500),
{
    if hook.last_ping_ms == 0 {
        return true;
    }
    hook.last_pong_ms >= hook.last_ping_ms || now_ms.saturating_sub(hook.last_pong_ms) < 3500
}

/// What the keyboard hook does with an event.
#[derive(Clone, Copy, PartialEq, Eq, Debug, Structural)]
pub enum KeyAction {
    /// Keep the event from every app.
    Consume,
    /// Hand the event on. Before that, stop a type-out that is under way, and
    /// send the engine a key event, where so told.
    Pass { cancel_typeout: bool, forward: Option<KeyEvent> },
}

/// A low-level keyboard event.
#[derive(Clone, Copy, PartialEq, Eq, Debug, Structural)]
pub struct RawKey {
    pub code: i32,
    pub message: u32,
    pub vk: u32,
    pub scan: u32,
    pub extra_info: usize,
}

/// Whether an event is the heartbeat's.
pub open spec fn is_heartbeat(key: RawKey, signatures: Signatures) -> bool {
    key.code == 0 && (key.vk == VK_F24 || key.extra_info == signatures.heartbeat)
}

/// Whether an event is typing, and not the app's own.
pub open spec fn is_foreign(key: RawKey, signatures: Signatures) -> bool {
    key.code == 0 && !is_heartbeat(key, signatures) && key.extra_info != signatures.inject
}

/// What is done with a keyboard event.
pub open spec fn key_action(hook: Hook, key: RawKey, signatures: Signatures) -> KeyAction {
    if is_heartbeat(key, signatures) {
        KeyAction::Consume
    } else if is_foreign(key, signatures) {
        KeyAction::Pass {
            cancel_typeout: key.message == WM_KEYDOWN || key.message == WM_SYSKEYDOWN,
            forward: if hook.connected {
                Some(KeyEvent { message: key.message, vk: key.vk, scan: key.scan })
            } else {
                None
            },
        }
    } else {
        KeyAction::Pass { cancel_typeout: false, forward: None }
    }
}

/// What a keyboard event leaves behind.
pub open spec fn hook_after_key(
    hook: Hook,
    key: RawKey,
    signatures: Signatures,
    now_ms: u64,
) -> Hook {
    if is_heartbeat(key, signatures) {
        Hook { last_pong_ms: now_ms, ..hook }
    } else if is_foreign(key, signatures) {
        Hook {
            events: ((hook.events + 1) % 0x1_0000_0000_0000_0000) as u64,
            last_event_ms: now_ms,
            ..hook
        }
    } else {
        hook
    }
}

/// The low-level keyboard hook.
pub fn low_level_proc(
    hook: &mut Hook,
    key: RawKey,
    signatures: Signatures,
    now_ms: u64,
) -> (action: KeyAction)
    ensures
        action == key_action(*old(hook), key, signatures),
        *final(hook) == hook_after_key(*old(hook), key, signatures, now_ms),
        is_heartbeat(key, signatures) ==> {
            &&& action == KeyAction::Consume
            &&& *final(hook) == (Hook { last_pong_ms: now_ms, ..*old(hook) })
        },
        is_foreign(key, signatures) ==> {
            &&& action == (KeyAction::Pass {
                cancel_typeout: key.message == WM_KEYDOWN || key.message == WM_SYSKEYDOWN,
                forward: if old(hook).connected {
                    Some(KeyEvent { message: key.message, vk: key.vk, scan: key.scan })
                } else {
                    None
                },
            })
            &&& *final(hook) == (Hook {
                events: ((old(hook).events + 1) % 0x1_0000_0000_0000_0000) as u64,
                last_event_ms: now_ms,
                ..*old(hook)
            })
        },
        !is_heartbeat(key, signatures) && !is_foreign(key, signatures) ==> {
            &&& action == (KeyAction::Pass { cancel_typeout: false, forward: None })
            &&& *final(hook) == *old(hook)
        },
{
    if key.code == HC_ACTION {
        if key.vk == VK_F24 || key.extra_info == signatures.heartbeat {
            hook.last_pong_ms = now_ms;
            return KeyAction::Consume;
        }
        if key.extra_info != signatures.inject {
            hook.events = hook.events.wrapping_add(1);
            hook.last_event_ms = now_ms;
            return KeyAction::Pass {
                cancel_typeout: key.message == WM_KEYDOWN || key.message == WM_SYSKEYDOWN,
                forward: if hook.connected {
                    Some(KeyEvent { message: key.message, vk: key.vk, scan: key.scan })
                } else {
                    None
                },
            };
        }
    }
    KeyAction::Pass { cancel_typeout: false, forward: None }
}

/// Whether a mouse message is a button going down.
pub open spec fn is_button_down(message: u32) -> bool {
    message == WM_LBUTTONDOWN || message == WM_RBUTTONDOWN || message == WM_MBUTTONDOWN || message
        == WM_XBUTTONDOWN
}

/// Whether a mouse event stops a type-out that is under way.
pub open spec fn click_cancels(
    code: i32,
    message: u32,
    extra_info: usize,
    signatures: Signatures,
) -> bool {
    &&& code == 0
    &&& extra_info != signatures.inject
    &&& extra_info != signatures.heartbeat
    &&& is_button_down(message)
}

/// The low-level mouse hook: whether the event stops a type-out that is under
/// way. The event is always handed on.
pub fn low_level_mouse_proc(
    code: i32,
    message: u32,
    extra_info: usize,
    signatures: Signatures,
) -> (cancel_typeout: bool)
    ensures
        cancel_typeout == click_cancels(code, message, extra_info, signatures),
        cancel_typeout == (code == 0 && extra_info != signatures.inject && extra_info
            != signatures.heartbeat && is_button_down(message)),
{
    code == HC_ACTION && extra_info != signatures.inject && extra_info != signatures.heartbeat && (
    message == WM_LBUTTONDOWN || message == WM_RBUTTONDOWN || message == WM_MBUTTONDOWN || message
        == WM_XBUTTONDOWN)
}

/// What the watchdog reports.
#[derive(Clone, Copy, PartialEq, Eq, Debug, Structural)]
pub enum WatchdogEvent {
    /// The pause is over.
    Woke,
    /// The hook thread was looked at. The exit code is there if the system
    /// gave it.
    Checked { exit_code: Option<u32>, now_ms: u64 },
    /// The hook was found healthy.
    Healthy { now_ms: u64 },
}

/// What the watchdog does next.
#[derive(Clone, Copy, PartialEq, Eq, Debug, Structural)]
pub enum WatchdogAction {
    /// Look at the hook thread.
    Check { thread_id: u32 },
    /// Read the clock; the hook is healthy.
    ReportHealthy,
    /// Reinstall the hook, then pause.
    Reinstall,
    /// Send a heartbeat, then pause.
    Ping,
    Pause,
}

/// Whether the hook thread is known to have ended.
pub open spec fn thread_ended(exit_code: Option<u32>) -> bool {
    exit_code is Some && exit_code->0 != STILL_ACTIVE
}

/// Whether a heartbeat went unanswered for too long while nobody typed.
pub open spec fn heartbeat_lost(hook: Hook, now_ms: int) -> bool {
    &&& !(hook.last_event_ms > 0 && elapsed(now_ms, hook.last_event_ms as int) < 5000)
    &&& hook.last_ping_ms > 0
    &&& hook.last_pong_ms < hook.last_ping_ms
    &&& elapsed(now_ms, hook.last_ping_ms as int) > 2000
}

/// Whether nobody has typed for a while.
pub open spec fn idle(hook: Hook, now_ms: int) -> bool {
    hook.last_event_ms == 0 || elapsed(now_ms, hook.last_event_ms as int) > 2000
}

/// What the watchdog does on an event.
pub open spec fn watchdog_action(hook: Hook, event: WatchdogEvent) -> WatchdogAction {
    match event {
        WatchdogEvent::Woke => if !hook.ready || hook.thread_id == 0 {
            WatchdogAction::Reinstall
        } else {
            WatchdogAction::Check { thread_id: hook.thread_id }
        },
        WatchdogEvent::Checked { exit_code, now_ms } => if thread_ended(exit_code)
            || heartbeat_lost(hook, now_ms as int) {
            WatchdogAction::Reinstall
        } else {
            WatchdogAction::ReportHealthy
        },
        WatchdogEvent::Healthy { now_ms } => if idle(hook, now_ms as int) {
            WatchdogAction::Ping
        } else {
            WatchdogAction::Pause
        },
    }
}

/// One step of the watchdog, which wakes, looks at the hook thread and at the
/// heartbeat, and has the hook reinstalled where one of them is lost.
pub fn start_watchdog(hook: &mut Hook, event: WatchdogEvent) -> (action: WatchdogAction)
    ensures
        action == watchdog_action(*old(hook), event),
        action == match event {
            WatchdogEvent::Woke => if !old(hook).ready || old(hook).thread_id == 0 {
                WatchdogAction::Reinstall
            } else {
                WatchdogAction::Check { thread_id: old(hook).thread_id }
            },
            WatchdogEvent::Checked { exit_code, now_ms } => if thread_ended(exit_code)
                || heartbeat_lost(*old(hook), now_ms as int) {
                WatchdogAction::Reinstall
            } else {
                WatchdogAction::ReportHealthy
            },
            WatchdogEvent::Healthy { now_ms } => if idle(*old(hook), now_ms as int) {
                WatchdogAction::Ping
            } else {
                WatchdogAction::Pause
            },
        },
        *final(hook) == if action == WatchdogAction::Reinstall {
            Hook { last_ping_ms: 0, last_pong_ms: 0, ..*old(hook) }
        } else {
            *old(hook)
        },
{
    match event {
        WatchdogEvent::Woke => {
            if !hook.ready || hook.thread_id == 0 {
                forget_heartbeat(hook);
                WatchdogAction::Reinstall
            } else {
                WatchdogAction::Check { thread_id: hook.thread_id }
            }
        },
        WatchdogEvent::Checked { exit_code, now_ms } => {
            let ended = match exit_code {
                Some(code) => code != STILL_ACTIVE,
                None => false,
            };
            // Typing within the last seconds proves the hook alive.
            let recently_active = hook.last_event_ms > 0 && now_ms.saturating_sub(
                hook.last_event_ms,
            ) < 5000;
            let lost = !recently_active && hook.last_ping_ms > 0 && hook.last_pong_ms
                < hook.last_ping_ms && now_ms.saturating_sub(hook.last_ping_ms) > 2000;
            if ended || lost {
                forget_heartbeat(hook);
                WatchdogAction::Reinstall
            } else {
                WatchdogAction::ReportHealthy
            }
        },
        WatchdogEvent::Healthy { now_ms } => {
            if hook.last_event_ms == 0 || now_ms.saturating_sub(hook.last_event_ms) > 2000 {
                WatchdogAction::Ping
            } else {
                WatchdogAction::Pause
            }
        },
    }
}

/// How long the watchdog pauses once an action is carried out, in
/// milliseconds; `None` where it goes on at once with what it found.
pub fn watchdog_pause(action: WatchdogAction) -> (ms: Option<u64>)
    ensures
        ms == if action is Check || action is ReportHealthy {
            None
        } else {
            Some(2_500u64)
        },
{
    match action {
        WatchdogAction::Check { .. } => None,
        WatchdogAction::ReportHealthy => None,
        WatchdogAction::Reinstall => Some(WATCHDOG_PAUSE_MS),
        WatchdogAction::Ping => Some(WATCHDOG_PAUSE_MS),
        WatchdogAction::Pause => Some(WATCHDOG_PAUSE_MS),
    }
}

fn forget_heartbeat(hook: &mut Hook)
    ensures
        *final(hook) == (Hook { last_ping_ms: 0, last_pong_ms: 0, ..*old(hook) }),
{
    hook.last_ping_ms = 0;
    hook.last_pong_ms = 0;
}

} // verus!
