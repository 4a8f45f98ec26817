use synly::cursor_capture::{
    select_capture_anchor, virtual_bounds, Bounds, CapturePhase, CursorCaptureTracker, CursorMove,
};
use synly::geometry::{DesktopLayout, DisplayRect, LayoutError, Point};
use synly::hotkey::{Hotkey, ModifierMask};
use synly::platform::{NativeEvent, ScrollSource};
use synly::windows_capture::{
    after_agent_failure, allow_native_fallback, bounded_cursor, collect_display_snapshot,
    desktop_is_default, foreground_cursor_captured, path_is_explorer, plan_start,
    system_modifiers, visibility_attempt, visibility_reached, warp_attempt, Attempt,
    ForegroundState, InputStart, KeyHook, MonitorDisplay, MouseHook, PointerTask, PutBackOutcome,
    SwitchAction, WindowsCapture, WindowsInjector, EVENT_TAG, WM_KEYDOWN, WM_LBUTTONDOWN,
    WM_MOUSEHWHEEL, WM_MOUSEMOVE, WM_MOUSEWHEEL, WM_XBUTTONUP,
};
use synly::windows_keys::{
    decode_coordinate, decode_point, encode_coordinate, hid_to_windows_scan, hid_to_windows_vk,
    keyboard_event, mouse_button_event, normalize_absolute_coordinate, scan_to_hid,
    scroll_source_from_extra_info, vk_to_hid, wheel_events, wheel_message, wheel_notches,
    windows_scan_to_hid, MOUSEEVENTF_FROMTOUCH, MOUSEEVENTF_MASK, WM_SYNLY_MOUSE_TRACKPAD_WHEEL,
    WM_SYNLY_MOUSE_WHEEL,
};
use synly::windows_loop::{LoopAction, LoopEvent, MessageLoop, Resource};

fn layout() -> DesktopLayout {
    DesktopLayout::new(vec![DisplayRect { x: 0, y: 0, width: 100, height: 100 }]).unwrap()
}

#[test]
fn first_observed_move_always_publishes_position() {
    let mut tracker = CursorCaptureTracker::new(layout(), Point { x: 50, y: 50 }, None);
    assert_eq!(
        tracker.handle_move(CapturePhase::Observing, Point { x: 0, y: 40 }),
        CursorMove::Observed { point: Point { x: 0, y: 40 }, dx: 0, dy: 0 }
    );
}

#[test]
fn relayed_move_uses_anchor_as_previous_position() {
    let mut tracker = CursorCaptureTracker::new(layout(), Point { x: 50, y: 50 }, None);
    assert_eq!(
        tracker.handle_move(CapturePhase::Relaying, Point { x: 57, y: 44 }),
        CursorMove::Relayed { dx: 7, dy: -6, bogus: false }
    );
}

#[test]
fn warp_interval_discards_mouse_moves() {
    let mut tracker = CursorCaptureTracker::new(layout(), Point { x: 50, y: 50 }, None);
    tracker.begin_warp(Point { x: 50, y: 50 });
    assert_eq!(
        tracker.handle_move(CapturePhase::Relaying, Point { x: 3, y: 8 }),
        CursorMove::Ignored
    );
    tracker.end_warp(Point { x: 50, y: 50 });
    assert_eq!(
        tracker.handle_move(CapturePhase::Relaying, Point { x: 51, y: 50 }),
        CursorMove::Relayed { dx: 1, dy: 0, bogus: false }
    );
}

#[test]
fn large_motion_toward_virtual_edge_is_marked_bogus() {
    let mut tracker = CursorCaptureTracker::new(layout(), Point { x: 50, y: 50 }, None);
    assert_eq!(
        tracker.handle_move(CapturePhase::Relaying, Point { x: 0, y: 50 }),
        CursorMove::Relayed { dx: -50, dy: 0, bogus: true }
    );
}

#[test]
fn primary_display_is_preferred_for_capture_anchor() {
    let displays = [
        DisplayRect { x: -1280, y: 200, width: 1280, height: 1024 },
        DisplayRect { x: 0, y: 0, width: 1920, height: 1080 },
    ];
    assert_eq!(
        select_capture_anchor(Some(displays[1]), &displays),
        Some(Point { x: 960, y: 540 })
    );
    assert_eq!(select_capture_anchor(None, &displays), Some(Point { x: -640, y: 712 }));
    assert_eq!(select_capture_anchor(None, &[]), None);
}

#[test]
fn bounds_hold_every_display() {
    let displays = vec![
        DisplayRect { x: -1280, y: 200, width: 1280, height: 1024 },
        DisplayRect { x: 0, y: 0, width: 1920, height: 1080 },
    ];
    assert_eq!(
        virtual_bounds(&displays),
        Bounds { left: -1280, top: 0, right: 1920, bottom: 1224 }
    );
    assert_eq!(virtual_bounds(&vec![]), Bounds { left: 0, top: 0, right: 1, bottom: 1 });
}

#[test]
fn changed_layouts_are_noticed() {
    let mut tracker = CursorCaptureTracker::new(layout(), Point { x: 50, y: 50 }, None);
    assert!(!tracker.update_layout(layout(), Point { x: 50, y: 50 }));
    assert!(tracker.update_layout(layout(), Point { x: 51, y: 50 }));
    assert_eq!(tracker.anchor(), Point { x: 51, y: 50 });
    let wider =
        DesktopLayout::new(vec![DisplayRect { x: 0, y: 0, width: 101, height: 100 }]).unwrap();
    assert!(tracker.update_layout(wider, Point { x: 51, y: 50 }));
}

#[test]
fn phases_have_numbers() {
    for number in 0..4u8 {
        assert_eq!(CapturePhase::from_raw(number).raw(), number);
    }
    assert_eq!(CapturePhase::from_raw(9), CapturePhase::Observing);
    assert!(!CapturePhase::Observing.suppresses_local_input());
    assert!(CapturePhase::Disarming.suppresses_local_input());
}

#[test]
fn elevated_receiver_failure_does_not_fallback_to_native_input() {
    assert!(!allow_native_fallback(true));
    assert!(allow_native_fallback(false));
    assert_eq!(plan_start(true, true), InputStart::Agent);
    assert_eq!(plan_start(false, true), InputStart::Refused);
    assert_eq!(plan_start(false, false), InputStart::Native);
    assert_eq!(after_agent_failure(true), InputStart::Refused);
    assert_eq!(after_agent_failure(false), InputStart::Native);
}

#[test]
fn f13_to_f24_map_to_extended_hid_usages_and_scancodes() {
    for vk in 0x7c..=0x87u16 {
        let usage = vk_to_hid(vk);
        assert!((0x68..=0x73).contains(&usage));
        assert!(hid_to_windows_scan(usage).is_some());
    }
    assert_eq!(vk_to_hid(0x7c), 0x68);
    assert_eq!(vk_to_hid(0x87), 0x73);
}

#[test]
fn touch_extra_info_is_classified_as_trackpad_scroll() {
    assert_eq!(scroll_source_from_extra_info(MOUSEEVENTF_FROMTOUCH), ScrollSource::Trackpad);
    assert_eq!(
        scroll_source_from_extra_info(MOUSEEVENTF_FROMTOUCH | 0x1),
        ScrollSource::Trackpad
    );
    assert_eq!(scroll_source_from_extra_info(0), ScrollSource::MouseWheel);
    assert_eq!(scroll_source_from_extra_info(MOUSEEVENTF_MASK), ScrollSource::MouseWheel);
}

#[test]
fn wheel_message_maps_source_to_message_id() {
    assert_eq!(wheel_message(ScrollSource::MouseWheel), WM_SYNLY_MOUSE_WHEEL);
    assert_eq!(wheel_message(ScrollSource::Trackpad), WM_SYNLY_MOUSE_TRACKPAD_WHEEL);
}

#[test]
fn keys_are_found_by_scan_code_and_virtual_key() {
    for usage in 0x04..=0xe7u16 {
        if let Some((scan, _)) = hid_to_windows_scan(usage) {
            let found = scan_to_hid(scan).unwrap();
            if usage == 0xe4 || usage == 0xe6 {
                assert_eq!(found, usage - 4);
            } else {
                assert_eq!(found, usage);
            }
        }
    }
    assert_eq!(hid_to_windows_scan(0x1e), Some((0x02, false)));
    assert_eq!(hid_to_windows_scan(0x43), Some((0x44, false)));
    assert_eq!(hid_to_windows_scan(0x4c), Some((0x53, true)));
    assert_eq!(hid_to_windows_scan(0x46), None);
    assert_eq!(vk_to_hid(0x30), 0x27);
    assert_eq!(vk_to_hid(0x5a), 0x1d);
    assert_eq!(windows_scan_to_hid(0x1e, 0), Some(0x04));
    assert_eq!(windows_scan_to_hid(0x1e, 0xa3), Some(0xe4));
    assert_eq!(windows_scan_to_hid(0xff, 0), None);
    assert_eq!(hid_to_windows_vk(0x04, 0), Some(0x41));
    assert_eq!(hid_to_windows_vk(0x2d, 0xbd), Some(0xbd));
    assert_eq!(hid_to_windows_vk(0x2d, 0), None);
    assert_eq!(hid_to_windows_vk(0x46, 7), None);
}

#[test]
fn coordinates_travel_in_messages() {
    for value in [0, 1, -1, i32::MIN, i32::MAX] {
        assert_eq!(decode_coordinate(encode_coordinate(value)), value);
    }
    assert_eq!(encode_coordinate(-1), 0xffff_ffff);
    assert_eq!(decode_point(3, 0xffff_fffe), Point { x: 3, y: -2 });
}

#[test]
fn events_have_their_flags() {
    assert_eq!(keyboard_event(0x04, true), Some((0x1e, 8)));
    assert_eq!(keyboard_event(0xe4, false), Some((0x1d, 11)));
    assert_eq!(keyboard_event(0x46, true), None);
    assert_eq!(mouse_button_event(1, true), Some((2, 0)));
    assert_eq!(mouse_button_event(5, false), Some((0x100, 2)));
    assert_eq!(mouse_button_event(6, true), None);
    assert_eq!(wheel_events(0, 2), (Some(240), None));
    assert_eq!(wheel_events(-1, 0), (None, Some((-120i32) as u32)));
    assert_eq!(wheel_events(0, i32::MAX), (Some(i32::MAX as u32), None));
    assert_eq!(wheel_notches(240 << 16), 2);
    assert_eq!(wheel_notches(((-240i16 as u16) as u32) << 16), -2);
    assert_eq!(wheel_notches(((-119i16 as u16) as u32) << 16), 0);
}

#[test]
fn absolute_coordinates_span_the_scale() {
    assert_eq!(normalize_absolute_coordinate(0, 0, 1920), 0);
    assert_eq!(normalize_absolute_coordinate(1919, 0, 1920), 65535);
    assert_eq!(normalize_absolute_coordinate(5000, 0, 1920), 65535);
    assert_eq!(normalize_absolute_coordinate(-5, 0, 1920), 0);
    assert_eq!(normalize_absolute_coordinate(960, 0, 1921), 32768);
    assert_eq!(normalize_absolute_coordinate(7, 0, 1), 0);
}

fn key(vk: u16, down: bool) -> KeyHook {
    KeyHook {
        message: if down { WM_KEYDOWN } else { 0x0101 },
        scan: 0,
        vk,
        injected: false,
        extra_info: 0,
        modifiers: ModifierMask::default(),
    }
}

fn mouse(message: u32) -> MouseHook {
    MouseHook {
        message,
        point: Point { x: 60, y: 50 },
        data: 0,
        injected: false,
        extra_info: 0,
    }
}

fn started() -> WindowsCapture {
    let mut capture = WindowsCapture::new(Hotkey::DEFAULT.parse().unwrap(), true);
    capture.start(layout(), Point { x: 50, y: 50 }, Some(Point { x: 1, y: 1 }));
    capture
}

fn relaying() -> WindowsCapture {
    let mut capture = started();
    assert_eq!(capture.sync_cursor_capture(true, true), SwitchAction::HideCursor);
    let anchor = Point { x: 50, y: 50 };
    assert_eq!(capture.switch_result(true), SwitchAction::RaiseWindow { anchor });
    assert_eq!(capture.switch_result(true), SwitchAction::WarpTo { anchor });
    capture.begin_warp(anchor);
    capture.end_warp(anchor);
    assert_eq!(
        capture.switch_result(true),
        SwitchAction::Finished { succeeded: true, undo: false, report: false }
    );
    assert_eq!(capture.phase(), CapturePhase::Relaying);
    capture
}

#[test]
fn capture_is_switched_on_and_off() {
    let mut capture = relaying();
    assert_eq!(
        capture.sync_cursor_capture(true, true),
        SwitchAction::Finished { succeeded: true, undo: false, report: false }
    );
    assert_eq!(capture.sync_cursor_capture(false, true), SwitchAction::ShowCursor);
    assert_eq!(capture.phase(), CapturePhase::Disarming);
    assert_eq!(capture.switch_result(true), SwitchAction::LowerWindow);
    assert_eq!(
        capture.switch_result(true),
        SwitchAction::Finished { succeeded: true, undo: false, report: false }
    );
    assert_eq!(capture.phase(), CapturePhase::Observing);
}

#[test]
fn failed_switches_leave_a_settled_state() {
    let mut capture = started();
    assert_eq!(
        capture.sync_cursor_capture(true, false),
        SwitchAction::Finished { succeeded: false, undo: false, report: false }
    );
    capture.sync_cursor_capture(true, true);
    capture.switch_result(true);
    assert_eq!(
        capture.switch_result(false),
        SwitchAction::Finished { succeeded: false, undo: true, report: true }
    );
    assert_eq!(capture.phase(), CapturePhase::Observing);

    let mut held = relaying();
    held.sync_cursor_capture(false, true);
    held.switch_result(false);
    assert_eq!(
        held.switch_result(true),
        SwitchAction::Finished { succeeded: false, undo: false, report: true }
    );
    assert_eq!(held.phase(), CapturePhase::Relaying);

    let mut early = WindowsCapture::new(Hotkey::DEFAULT.parse().unwrap(), true);
    assert_eq!(
        early.sync_cursor_capture(true, true),
        SwitchAction::Finished { succeeded: false, undo: false, report: false }
    );
    assert_eq!(early.phase(), CapturePhase::Observing);
}

#[test]
fn captured_keys_are_kept_from_the_machine() {
    let mut capture = relaying();
    let outcome = capture.keyboard_callback(key(0x41, true));
    assert!(!outcome.pass);
    assert!(matches!(
        outcome.report,
        Some(NativeEvent::Key { usage: 4, down: true, repeat: false, .. })
    ));
    let outcome = capture.keyboard_callback(key(0x41, true));
    assert!(matches!(outcome.report, Some(NativeEvent::Key { repeat: true, .. })));
    assert_eq!(capture.snapshot(ModifierMask::default()).usages, vec![4]);
    assert!(capture.keyboard_callback(key(0xa2, true)).pass);
    let mut own = key(0x41, false);
    own.extra_info = EVENT_TAG;
    let outcome = capture.keyboard_callback(own);
    assert!(outcome.pass && outcome.report.is_none());
    let mut injected = key(0x41, false);
    injected.injected = true;
    assert!(capture.keyboard_callback(injected).pass);
    let mut escape = key(0x1b, true);
    escape.modifiers = ModifierMask::from_bits(7);
    let outcome = capture.keyboard_callback(escape);
    assert!(!outcome.pass);
    assert!(matches!(outcome.report, Some(NativeEvent::Emergency)));
}

#[test]
fn free_keys_pass() {
    let mut capture = started();
    let outcome = capture.keyboard_callback(key(0x41, true));
    assert!(outcome.pass && outcome.report.is_none());
    capture.set_keyboard_capture(true);
    let outcome = capture.keyboard_callback(key(0x41, false));
    assert!(outcome.pass && outcome.report.is_some());
}

#[test]
fn pointer_events_become_tasks() {
    let mut capture = relaying();
    let outcome = capture.mouse_callback(mouse(WM_MOUSEMOVE));
    assert!(!outcome.pass);
    assert_eq!(outcome.task, Some(PointerTask::Move { point: Point { x: 60, y: 50 } }));
    let moved = capture.handle_thread_message(outcome.task.unwrap());
    assert_eq!(moved.motion, Some((10, 0, None)));
    assert_eq!(moved.put_back, Some(Point { x: 50, y: 50 }));

    let outcome = capture.mouse_callback(mouse(WM_LBUTTONDOWN));
    let pressed = capture.handle_thread_message(outcome.task.unwrap());
    assert!(matches!(
        pressed.report,
        Some(NativeEvent::Button { button: 1, down: true })
    ));
    let mut extra = mouse(WM_XBUTTONUP);
    extra.data = 1 << 16;
    assert_eq!(
        capture.mouse_callback(extra).task,
        Some(PointerTask::Button { button: 4, down: false })
    );
    let mut wheel = mouse(WM_MOUSEWHEEL);
    wheel.data = 120 << 16;
    assert_eq!(
        capture.mouse_callback(wheel).task,
        Some(PointerTask::Wheel { x: 0, y: 1, source: ScrollSource::MouseWheel })
    );
    wheel.message = WM_MOUSEHWHEEL;
    assert_eq!(
        capture.mouse_callback(wheel).task,
        Some(PointerTask::Wheel { x: 1, y: 0, source: ScrollSource::MouseWheel })
    );
    wheel.extra_info = MOUSEEVENTF_FROMTOUCH as u64;
    assert_eq!(
        capture.mouse_callback(wheel).task,
        Some(PointerTask::Wheel { x: 1, y: 0, source: ScrollSource::Trackpad })
    );
    assert_eq!(capture.mouse_callback(mouse(1)).task, None);

    let mut free = started();
    let outcome = free.mouse_callback(mouse(WM_MOUSEMOVE));
    assert!(outcome.pass);
    let moved = free.handle_thread_message(outcome.task.unwrap());
    assert_eq!(moved.motion, Some((59, 49, Some(Point { x: 60, y: 50 }))));
    assert_eq!(moved.put_back, None);
}

#[test]
fn changed_displays_put_a_held_pointer_back() {
    let mut capture = relaying();
    assert_eq!(
        capture.refresh_display_layout(layout(), Point { x: 40, y: 40 }),
        Ok(Some(Point { x: 40, y: 40 }))
    );
    assert_eq!(capture.refresh_display_layout(layout(), Point { x: 40, y: 40 }), Ok(None));
    let mut early = WindowsCapture::new(Hotkey::DEFAULT.parse().unwrap(), true);
    assert_eq!(early.refresh_display_layout(layout(), Point { x: 1, y: 1 }), Err(()));
}

#[test]
fn pressed_keys_are_refreshed() {
    let mut capture = started();
    capture.keyboard_callback(key(0x41, true));
    capture.keyboard_callback(key(0x42, true));
    let mut keys = vec![Some(false); 0xe4];
    keys[0] = None;
    keys[0x20] = Some(true);
    capture.refresh_pressed_state(&keys, &[true, false, false, false, true]);
    let snapshot = capture.snapshot(ModifierMask::meta());
    assert_eq!(snapshot.usages, vec![0x04, 0x24]);
    assert_eq!(snapshot.buttons, vec![1, 5]);
    assert_eq!(snapshot.modifiers, ModifierMask::meta());
}

#[test]
fn displays_are_collected() {
    let whole = DisplayRect { x: 0, y: 0, width: 800, height: 600 };
    let alone = collect_display_snapshot(vec![], whole).unwrap();
    assert_eq!(alone.anchor, Point { x: 400, y: 300 });
    assert_eq!(alone.primary, Some(whole));
    let two = collect_display_snapshot(
        vec![
            MonitorDisplay {
                rect: DisplayRect { x: -100, y: 0, width: 100, height: 100 },
                primary: false,
            },
            MonitorDisplay { rect: whole, primary: true },
        ],
        whole,
    )
    .unwrap();
    assert_eq!(two.layout.displays.len(), 2);
    assert_eq!(two.anchor, Point { x: 400, y: 300 });
    let flat = DisplayRect { x: 0, y: 0, width: 0, height: 0 };
    assert_eq!(
        collect_display_snapshot(vec![], flat).unwrap_err(),
        LayoutError::InvalidSize
    );
}

#[test]
fn cursors_stay_on_the_desktop() {
    let desktop = layout();
    assert_eq!(
        bounded_cursor(&desktop, Point { x: 500, y: 50 }, None),
        Point { x: 99, y: 50 }
    );
    let primary = DisplayRect { x: 0, y: 0, width: 10, height: 10 };
    assert_eq!(
        bounded_cursor(&desktop, Point { x: 50, y: 5 }, Some(primary)),
        Point { x: 9, y: 5 }
    );
}

#[test]
fn injected_input_is_released() {
    let mut injector = WindowsInjector::new();
    injector.key_sent(5, true);
    injector.key_sent(4, true);
    injector.button_sent(2, true);
    injector.key_sent(5, false);
    let held = injector.release_all();
    assert_eq!((held.usages, held.buttons), (vec![4], vec![2]));
    assert!(injector.release_all().usages.is_empty());
}

#[test]
fn foreground_windows_may_hold_the_pointer() {
    let screen = Bounds { left: 0, top: 0, right: 100, bottom: 100 };
    let free = ForegroundState {
        has_window: true,
        is_explorer: false,
        clip: Some(screen),
        screen,
        cursor_shown: Some(true),
    };
    assert!(!foreground_cursor_captured(free));
    assert!(foreground_cursor_captured(ForegroundState { cursor_shown: Some(false), ..free }));
    let clip = Some(Bounds { right: 50, ..screen });
    assert!(foreground_cursor_captured(ForegroundState { clip, ..free }));
    assert!(!foreground_cursor_captured(ForegroundState {
        clip,
        is_explorer: true,
        ..free
    }));
    assert!(!foreground_cursor_captured(ForegroundState {
        clip: None,
        cursor_shown: None,
        ..free
    }));
}

#[test]
fn names_are_compared_without_case() {
    assert!(path_is_explorer("C:\\Windows\\Explorer.EXE"));
    assert!(!path_is_explorer("C:\\explorer.exe\\game.exe"));
    assert!(desktop_is_default("default"));
    assert!(!desktop_is_default("Winlogon"));
}

#[test]
fn system_values_are_read() {
    assert_eq!(system_modifiers(true, false, true, false, true).bits(), 13);
    assert!(visibility_reached(true, 0) && visibility_reached(false, -1));
    assert!(!visibility_reached(true, -1) && !visibility_reached(false, 0));
}

#[test]
fn message_loop_gives_everything_back() {
    let mut state = MessageLoop::new();
    let steps = [
        (LoopEvent::Begin, LoopAction::TakePixelScale),
        (LoopEvent::Succeeded, LoopAction::ReadDisplays),
        (LoopEvent::Succeeded, LoopAction::CreateHider),
        (LoopEvent::Succeeded, LoopAction::HookKeyboard),
        (LoopEvent::Succeeded, LoopAction::HookMouse),
        (LoopEvent::Succeeded, LoopAction::Announce),
        (LoopEvent::Succeeded, LoopAction::WaitForMessage),
        (LoopEvent::Succeeded, LoopAction::WaitForMessage),
        (LoopEvent::Quit, LoopAction::EndCapture),
        (LoopEvent::Succeeded, LoopAction::Release(Resource::KeyboardHook)),
        (LoopEvent::Succeeded, LoopAction::Release(Resource::MouseHook)),
        (LoopEvent::Succeeded, LoopAction::Release(Resource::HiderWindow)),
        (LoopEvent::Succeeded, LoopAction::Release(Resource::PixelScale)),
        (LoopEvent::Succeeded, LoopAction::Finish { started: true }),
    ];
    for (event, action) in steps {
        assert_eq!(state.run_message_loop(event), action);
    }
}

#[test]
fn message_loop_ends_without_both_hooks() {
    let mut state = MessageLoop::new();
    let steps = [
        (LoopEvent::Begin, LoopAction::TakePixelScale),
        (LoopEvent::Failed, LoopAction::ReadDisplays),
        (LoopEvent::Succeeded, LoopAction::CreateHider),
        (LoopEvent::Succeeded, LoopAction::HookKeyboard),
        (LoopEvent::Failed, LoopAction::HookMouse),
        (LoopEvent::Succeeded, LoopAction::Release(Resource::MouseHook)),
        (LoopEvent::Succeeded, LoopAction::Release(Resource::HiderWindow)),
        (LoopEvent::Succeeded, LoopAction::Finish { started: false }),
    ];
    for (event, action) in steps {
        assert_eq!(state.run_message_loop(event), action);
    }
}

#[test]
fn attempts_come_to_an_end() {
    let target = Point { x: 3, y: 4 };
    assert_eq!(warp_attempt(target, Some(target), 1), Attempt::Done);
    assert_eq!(warp_attempt(target, None, 1), Attempt::Again);
    assert_eq!(warp_attempt(target, Some(Point { x: 3, y: 5 }), 2), Attempt::Failed);
    assert_eq!(warp_attempt(target, Some(target), 2), Attempt::Done);
    assert_eq!(visibility_attempt(true, 0, 1), Attempt::Done);
    assert_eq!(visibility_attempt(true, -1, 9), Attempt::Again);
    assert_eq!(visibility_attempt(false, 0, 10), Attempt::Failed);
    assert_eq!(visibility_attempt(false, -1, 10), Attempt::Done);
}

#[test]
fn settled_capture_needs_no_switch() {
    assert!(started().needs_switch(true));
    assert!(!started().needs_switch(false));
    assert!(!relaying().needs_switch(true));
    assert!(relaying().needs_switch(false));
}

#[test]
fn failed_put_back_ends_capture() {
    let mut capture = relaying();
    let outcome = capture.put_back_result(true, true);
    assert_eq!(outcome, PutBackOutcome { switch: None, report: false });
    assert_eq!(capture.phase(), CapturePhase::Relaying);
    let outcome = capture.put_back_result(false, true);
    assert_eq!(
        outcome,
        PutBackOutcome { switch: Some(SwitchAction::ShowCursor), report: true }
    );
    assert_eq!(capture.switch_result(true), SwitchAction::LowerWindow);
    assert_eq!(
        capture.switch_result(true),
        SwitchAction::Finished { succeeded: true, undo: false, report: false }
    );
    assert_eq!(capture.phase(), CapturePhase::Observing);
}
