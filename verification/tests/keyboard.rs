use hypertype::keyboard::{
    get_event_count, heartbeat_fault_is_reported, heartbeat_key, hook_thread_event, is_heartbeat_healthy, is_hook_installed, last_event_ms,
    low_level_mouse_proc, low_level_proc, reinstall_hook, send_heartbeat_ping, start,
    start_watchdog, wait_for_new_thread, wait_for_old_thread, wait_until_ready, wait_until_stopped,
    watchdog_pause, Hook, HookThreadEvent, KeyAction, KeyEvent, RawKey, Signatures, SyntheticKey,
    WaitAction, WatchdogAction, WatchdogEvent, STILL_ACTIVE, VK_F24, WM_KEYDOWN,
    WM_LBUTTONDOWN, WM_MBUTTONDOWN, WM_RBUTTONDOWN, WM_SYSKEYDOWN, WM_XBUTTONDOWN,
};

const MARKS: Signatures = Signatures {
    inject: 0x1111,
    heartbeat: 0x2222,
};

fn key(message: u32, vk: u32, extra_info: usize) -> RawKey {
    RawKey {
        code: 0,
        message,
        vk,
        scan: 30,
        extra_info,
    }
}

fn running() -> Hook {
    let mut hook = Hook::new();
    start(&mut hook);
    hook_thread_event(&mut hook, HookThreadEvent::Started { thread_id: 77 });
    hook_thread_event(&mut hook, HookThreadEvent::Registered { keyboard: true });
    hook
}

#[test]
fn event_counter_and_last_event_telemetry() {
    let mut hook = Hook::new();
    let initial = get_event_count(&hook);
    hook.events += 5;
    assert_eq!(get_event_count(&hook), initial + 5);

    let now_ms = 1234567890u64;
    hook.last_event_ms = now_ms;
    assert_eq!(last_event_ms(&hook), now_ms);
}

#[test]
fn typing_is_counted_and_forwarded() {
    let mut hook = running();
    let action = low_level_proc(&mut hook, key(WM_KEYDOWN, 0x41, 0), MARKS, 50);
    assert_eq!(
        action,
        KeyAction::Pass {
            cancel_typeout: true,
            forward: Some(KeyEvent {
                message: WM_KEYDOWN,
                vk: 0x41,
                scan: 30,
            }),
        }
    );
    assert_eq!(get_event_count(&hook), 1);
    assert_eq!(last_event_ms(&hook), 50);
    let up = low_level_proc(&mut hook, key(0x0101, 0x41, 0), MARKS, 60);
    assert!(matches!(
        up,
        KeyAction::Pass {
            cancel_typeout: false,
            forward: Some(_),
        }
    ));
    let sys = low_level_proc(&mut hook, key(WM_SYSKEYDOWN, 0x41, 0), MARKS, 70);
    assert!(matches!(
        sys,
        KeyAction::Pass {
            cancel_typeout: true,
            ..
        }
    ));
    assert_eq!(get_event_count(&hook), 3);
}

#[test]
fn own_input_and_heartbeats_are_no_typing() {
    let mut hook = running();
    let nothing = KeyAction::Pass {
        cancel_typeout: false,
        forward: None,
    };
    assert_eq!(
        low_level_proc(&mut hook, key(WM_KEYDOWN, 0x41, MARKS.inject), MARKS, 50),
        nothing
    );
    let mut other = key(WM_KEYDOWN, 0x41, 0);
    other.code = 3;
    assert_eq!(low_level_proc(&mut hook, other, MARKS, 50), nothing);
    assert_eq!(hook, running());
    assert_eq!(
        low_level_proc(&mut hook, key(0x0101, VK_F24, 0), MARKS, 60),
        KeyAction::Consume
    );
    assert_eq!(hook.last_pong_ms, 60);
    assert_eq!(
        low_level_proc(&mut hook, key(0x0101, 0x41, MARKS.heartbeat), MARKS, 70),
        KeyAction::Consume
    );
    assert_eq!(hook.last_pong_ms, 70);
    assert_eq!(get_event_count(&hook), 0);
}

#[test]
fn nothing_is_forwarded_before_an_engine_listens() {
    let mut hook = Hook::new();
    assert_eq!(
        low_level_proc(&mut hook, key(WM_KEYDOWN, 0x41, 0), MARKS, 50),
        KeyAction::Pass {
            cancel_typeout: true,
            forward: None,
        }
    );
    assert_eq!(get_event_count(&hook), 1);
}

#[test]
fn mouse_buttons_stop_a_type_out() {
    for m in [WM_LBUTTONDOWN, WM_RBUTTONDOWN, WM_MBUTTONDOWN, WM_XBUTTONDOWN] {
        assert!(low_level_mouse_proc(0, m, 0, MARKS));
        assert!(!low_level_mouse_proc(0, m, MARKS.inject, MARKS));
        assert!(!low_level_mouse_proc(0, m, MARKS.heartbeat, MARKS));
        assert!(!low_level_mouse_proc(1, m, 0, MARKS));
    }
    assert!(!low_level_mouse_proc(0, 0x0200, 0, MARKS));
}

#[test]
fn the_hook_thread_sets_the_state() {
    let mut hook = running();
    assert!(is_hook_installed(&hook));
    hook_thread_event(&mut hook, HookThreadEvent::Registered { keyboard: false });
    assert!(is_hook_installed(&hook));
    hook_thread_event(&mut hook, HookThreadEvent::Stopped);
    assert!(!is_hook_installed(&hook));
    hook_thread_event(&mut hook, HookThreadEvent::Registered { keyboard: false });
    assert!(!is_hook_installed(&hook));
    assert_eq!(reinstall_hook(&mut hook), Some(77));
    assert_eq!(reinstall_hook(&mut hook), None);
}

#[test]
fn waiting() {
    let hook = running();
    assert_eq!(wait_until_ready(&hook, 10, 5), Some(true));
    assert!(wait_until_stopped(&hook, 4, 5));
    assert!(!wait_until_stopped(&hook, 5, 5));
    let idle = Hook::new();
    assert_eq!(wait_until_ready(&idle, 4, 5), None);
    assert_eq!(wait_until_ready(&idle, 5, 5), Some(false));
    assert!(!wait_until_stopped(&idle, 0, 5));
}

#[test]
fn heartbeat_health() {
    let mut hook = running();
    assert!(is_heartbeat_healthy(&hook, 1_000_000));
    assert!(!send_heartbeat_ping(&mut hook, 0, 10_000));
    assert_eq!(hook.last_ping_ms, 0);
    assert!(send_heartbeat_ping(&mut hook, 1, 10_000));
    assert_eq!(hook.last_ping_ms, 10_000);
    assert!(is_heartbeat_healthy(&hook, 3_499));
    assert!(!is_heartbeat_healthy(&hook, 3_500));
    hook.last_pong_ms = 9_999;
    assert!(is_heartbeat_healthy(&hook, 13_498));
    assert!(!is_heartbeat_healthy(&hook, 13_499));
    assert!(is_heartbeat_healthy(&hook, 5));
    hook.last_pong_ms = 10_000;
    assert!(is_heartbeat_healthy(&hook, 99_999_999));
}

#[test]
fn the_watchdog_reinstalls_a_lost_hook() {
    let mut hook = Hook::new();
    hook.last_ping_ms = 4;
    hook.last_pong_ms = 3;
    assert_eq!(
        start_watchdog(&mut hook, WatchdogEvent::Woke),
        WatchdogAction::Reinstall
    );
    assert_eq!((hook.last_ping_ms, hook.last_pong_ms), (0, 0));

    let mut hook = running();
    assert_eq!(
        start_watchdog(&mut hook, WatchdogEvent::Woke),
        WatchdogAction::Check { thread_id: 77 }
    );
    let checked = |exit_code, now_ms| WatchdogEvent::Checked { exit_code, now_ms };
    assert_eq!(
        start_watchdog(&mut hook, checked(Some(1), 9)),
        WatchdogAction::Reinstall
    );
    assert_eq!(
        start_watchdog(&mut hook, checked(Some(STILL_ACTIVE), 9)),
        WatchdogAction::ReportHealthy
    );
    assert_eq!(
        start_watchdog(&mut hook, checked(None, 9)),
        WatchdogAction::ReportHealthy
    );
    hook.last_ping_ms = 10_000;
    hook.last_pong_ms = 9_000;
    assert_eq!(
        start_watchdog(&mut hook, checked(None, 12_000)),
        WatchdogAction::ReportHealthy
    );
    hook.last_event_ms = 7_002;
    assert_eq!(
        start_watchdog(&mut hook, checked(None, 12_001)),
        WatchdogAction::ReportHealthy
    );
    hook.last_event_ms = 7_001;
    assert_eq!(
        start_watchdog(&mut hook, checked(None, 12_001)),
        WatchdogAction::Reinstall
    );
    assert_eq!((hook.last_ping_ms, hook.last_pong_ms), (0, 0));
}

#[test]
fn the_watchdog_pings_while_nobody_types() {
    let mut hook = running();
    let healthy = |now_ms| WatchdogEvent::Healthy { now_ms };
    assert_eq!(
        start_watchdog(&mut hook, healthy(5)),
        WatchdogAction::Ping
    );
    hook.last_event_ms = 1_000;
    assert_eq!(
        start_watchdog(&mut hook, healthy(3_000)),
        WatchdogAction::Pause
    );
    assert_eq!(
        start_watchdog(&mut hook, healthy(3_001)),
        WatchdogAction::Ping
    );
    assert_eq!(
        start_watchdog(&mut hook, healthy(10)),
        WatchdogAction::Pause
    );
}

#[test]
fn a_reinstallation_waits_within_its_limits() {
    let mut hook = running();
    let over = |installed| WaitAction::GoOn { installed };
    assert_eq!(wait_for_old_thread(&hook, 0), WaitAction::Sleep { ms: 10 });
    assert_eq!(wait_for_old_thread(&hook, 99_999_999), WaitAction::Sleep { ms: 10 });
    assert_eq!(wait_for_old_thread(&hook, 100_000_000), over(true));
    assert_eq!(wait_for_new_thread(&hook, 0), over(true));
    hook.ready = false;
    assert_eq!(wait_for_old_thread(&hook, 0), over(false));
    assert_eq!(wait_for_new_thread(&hook, 0), WaitAction::Sleep { ms: 5 });
    assert_eq!(wait_for_new_thread(&hook, 1_999_999_999), WaitAction::Sleep { ms: 5 });
    assert_eq!(wait_for_new_thread(&hook, 2_000_000_000), over(false));
}

#[test]
fn the_watchdog_pauses_after_acting() {
    for action in [WatchdogAction::Reinstall, WatchdogAction::Ping, WatchdogAction::Pause] {
        assert_eq!(watchdog_pause(action), Some(2_500));
    }
    assert_eq!(watchdog_pause(WatchdogAction::ReportHealthy), None);
    assert_eq!(watchdog_pause(WatchdogAction::Check { thread_id: 77 }), None);
}

#[test]
fn the_heartbeat_comes_back() {
    let sent = heartbeat_key(MARKS);
    assert_eq!(
        sent,
        SyntheticKey {
            vk: VK_F24,
            scan: 0,
            key_up: true,
            time: 0,
            extra_info: 0x2222,
        }
    );
    let mut hook = running();
    assert!(send_heartbeat_ping(&mut hook, 1, 1_000));
    let arrived = key(0x0101, sent.vk, sent.extra_info);
    assert_eq!(low_level_proc(&mut hook, arrived, MARKS, 1_002), KeyAction::Consume);
    assert_eq!(hook.last_pong_ms, 1_002);
    assert_eq!(get_event_count(&hook), 0);
}

#[test]
fn denied_heartbeats_are_not_reported() {
    assert!(!heartbeat_fault_is_reported(1, 0));
    assert!(!heartbeat_fault_is_reported(1, 87));
    assert!(!heartbeat_fault_is_reported(0, 5));
    assert!(heartbeat_fault_is_reported(0, 87));
    assert!(heartbeat_fault_is_reported(2, 0));
}
