use synly::geometry::{DesktopLayout, DisplayRect, Point};
use synly::hotkey::{Hotkey, ModifierMask};
use synly::macos::{
    ensure_permissions, flags_from_modifiers, hid_to_mac_keycode, mac_keycode_to_hid,
    mac_mouse_button, modifier_usage_is_down, modifiers_from_flags, scroll_source,
    suppress_local_gesture, switch_outcome, watch_mask, MacCapture, MacInjector, MacPost,
    PermissionError, SwitchOutcome, TapEffect, TapEvent, EVENT_DOCK_SWIPE, EVENT_FLAGS_CHANGED,
    EVENT_GESTURE, EVENT_KEY_DOWN, EVENT_KEY_UP, EVENT_LEFT_DOWN, EVENT_LEFT_DRAGGED,
    EVENT_LEFT_UP, EVENT_MOUSE_MOVED, EVENT_NAVIGATION_SWIPE, EVENT_OTHER_DRAGGED, EVENT_SCROLL,
    EVENT_TAG, EVENT_TAP_DISABLED_TIMEOUT, EVENT_TAP_DISABLED_USER_INPUT, FLAG_ALT, FLAG_CONTROL,
    FLAG_META, FLAG_SHIFT,
};
use synly::platform::{
    pack_point, unpack_point, BackendError, EventGate, InputBackend, NativeEvent, ScrollSource,
};
use synly::protocol::{empty_snapshot, KeySnapshot};
use synly::trackpad_debug::{
    event_counts_text, is_keyboard_event, DebugEvent, DebugRecord, DebugState, EVENT_TYPE_COUNT,
};

fn tap(kind: u32) -> TapEvent {
    TapEvent {
        kind,
        user_data: 0,
        delta_x: 0,
        delta_y: 0,
        location: Point { x: 5, y: 6 },
        button: 0,
        scroll_x: 0,
        scroll_y: 0,
        continuous: 0,
        keycode: 0,
        flags: 0,
        autorepeat: false,
    }
}

fn capture(active: bool) -> MacCapture {
    let mut capture = MacCapture::new(Hotkey::DEFAULT.parse().unwrap());
    capture.set_active(active);
    capture
}

#[test]
fn protocol_buttons_map_to_quartz_button_numbers() {
    assert_eq!(mac_mouse_button(1), 0);
    assert_eq!(mac_mouse_button(2), 2);
    assert_eq!(mac_mouse_button(3), 1);
    assert_eq!(mac_mouse_button(4), 3);
}

#[test]
fn active_capture_suppresses_gestures_but_not_scroll_events() {
    assert!(suppress_local_gesture(EVENT_GESTURE, true));
    assert!(suppress_local_gesture(EVENT_DOCK_SWIPE, true));
    assert!(suppress_local_gesture(EVENT_NAVIGATION_SWIPE, true));
    assert!(!suppress_local_gesture(EVENT_GESTURE, false));
    assert!(!suppress_local_gesture(EVENT_DOCK_SWIPE, false));
    assert!(!suppress_local_gesture(EVENT_NAVIGATION_SWIPE, false));
    assert!(!suppress_local_gesture(EVENT_SCROLL, true));
}

#[test]
fn continuous_scroll_events_are_classified_as_trackpad_input() {
    assert_eq!(scroll_source(0), ScrollSource::MouseWheel);
    assert_eq!(scroll_source(1), ScrollSource::Trackpad);
}

#[test]
fn snapshot_releases_pressed_lock_before_reading_modifiers() {
    let mut capture = capture(false);
    let mut key = tap(EVENT_FLAGS_CHANGED);
    key.keycode = 59;
    key.flags = FLAG_CONTROL;
    capture.event_callback(key);
    capture.event_callback(tap(EVENT_LEFT_DOWN));
    let snapshot = capture.snapshot();
    assert_eq!(snapshot.modifiers, ModifierMask::ctrl());
    assert_eq!(snapshot.usages, vec![0xe0]);
    assert_eq!(snapshot.buttons, vec![1]);
}

#[test]
fn key_codes_round_trip() {
    let mut found = 0;
    for code in 0..=200u16 {
        if let Some(usage) = mac_keycode_to_hid(code) {
            assert_eq!(hid_to_mac_keycode(usage), Some(code));
            found += 1;
        }
    }
    assert_eq!(found, 85);
    assert_eq!(mac_keycode_to_hid(0), Some(0x04));
    assert_eq!(mac_keycode_to_hid(54), Some(0xe7));
    assert_eq!(hid_to_mac_keycode(0x32), None);
    assert_eq!(mac_keycode_to_hid(10), None);
}

#[test]
fn modifier_flags_round_trip() {
    for bits in 0..16u8 {
        let mask = ModifierMask::from_bits(bits);
        assert_eq!(modifiers_from_flags(flags_from_modifiers(mask)), mask);
    }
    assert_eq!(flags_from_modifiers(ModifierMask::from_bits(0b1010)), FLAG_ALT | FLAG_META);
    assert_eq!(modifiers_from_flags(FLAG_SHIFT | 0x100).bits(), 4);
    assert!(modifier_usage_is_down(0xe6, FLAG_ALT));
    assert!(!modifier_usage_is_down(0xe6, FLAG_SHIFT));
    assert!(!modifier_usage_is_down(0x04, u64::MAX));
}

#[test]
fn watched_events_have_their_bits() {
    let kinds = [1, 2, 3, 4, 5, 6, 7, 10, 11, 12, 22, 25, 26, 27, 29, 30, 31];
    let expected = kinds.iter().fold(0u64, |mask, kind| mask | (1u64 << kind));
    assert_eq!(watch_mask(), expected);
}

#[test]
fn captured_events_are_reported_and_swallowed() {
    let mut capture = capture(true);
    let mut motion = tap(EVENT_MOUSE_MOVED);
    motion.delta_x = 3;
    let outcome = capture.event_callback(motion);
    assert!(!outcome.pass);
    assert!(matches!(outcome.effect, Some(TapEffect::AddMotion { dx: 3, dy: 0 })));

    let mut scroll = tap(EVENT_SCROLL);
    scroll.scroll_y = -2;
    scroll.continuous = 1;
    let outcome = capture.event_callback(scroll);
    assert!(!outcome.pass);
    assert!(matches!(
        outcome.effect,
        Some(TapEffect::Emit(NativeEvent::Wheel {
            x: 0,
            y: -2,
            source: ScrollSource::Trackpad
        }))
    ));

    let mut key = tap(EVENT_KEY_DOWN);
    key.keycode = 11;
    key.autorepeat = true;
    let outcome = capture.event_callback(key);
    assert!(!outcome.pass);
    assert!(matches!(
        outcome.effect,
        Some(TapEffect::Emit(NativeEvent::Key { usage: 5, down: true, repeat: true, .. }))
    ));
    let mut unknown = tap(EVENT_KEY_UP);
    unknown.keycode = 200;
    assert!(!capture.event_callback(unknown).pass);
    let mut button = tap(EVENT_LEFT_UP);
    button.button = 1;
    assert!(matches!(
        capture.event_callback(button).effect,
        Some(TapEffect::Emit(NativeEvent::Button { button: 3, down: false }))
    ));
    assert!(!capture.event_callback(tap(EVENT_GESTURE)).pass);
    assert!(capture.event_callback(tap(13)).pass);
}

#[test]
fn free_events_pass() {
    let mut capture = capture(false);
    let outcome = capture.event_callback(tap(EVENT_MOUSE_MOVED));
    assert!(outcome.pass);
    assert!(matches!(
        outcome.effect,
        Some(TapEffect::AddMotionAt { position: Point { x: 5, y: 6 }, .. })
    ));
    let outcome = capture.event_callback(tap(EVENT_LEFT_DOWN));
    assert!(outcome.pass && outcome.effect.is_none());
    let outcome = capture.event_callback(tap(EVENT_KEY_DOWN));
    assert!(outcome.pass && outcome.effect.is_none());
    capture.set_keyboard_capture(true);
    let outcome = capture.event_callback(tap(EVENT_KEY_DOWN));
    assert!(outcome.pass && outcome.effect.is_some());
}

#[test]
fn modifier_changes_reach_both_machines() {
    let mut capture = capture(true);
    let mut shift = tap(EVENT_FLAGS_CHANGED);
    shift.keycode = 56;
    shift.flags = FLAG_SHIFT;
    let outcome = capture.event_callback(shift);
    assert!(outcome.pass);
    assert!(matches!(
        outcome.effect,
        Some(TapEffect::Emit(NativeEvent::Key { usage: 0xe1, down: true, .. }))
    ));
}

#[test]
fn emergency_hotkey_is_always_taken() {
    for active in [false, true] {
        let mut capture = capture(active);
        let mut escape = tap(EVENT_KEY_DOWN);
        escape.keycode = 53;
        escape.flags = FLAG_CONTROL | FLAG_ALT | FLAG_SHIFT;
        let outcome = capture.event_callback(escape);
        assert!(!outcome.pass);
        assert!(matches!(outcome.effect, Some(TapEffect::Emit(NativeEvent::Emergency))));
        escape.autorepeat = true;
        let outcome = capture.event_callback(escape);
        assert!(!outcome.pass && outcome.effect.is_none());
    }
}

#[test]
fn own_and_broken_taps_are_told_apart() {
    let mut capture = capture(true);
    let mut own = tap(EVENT_MOUSE_MOVED);
    own.user_data = EVENT_TAG;
    let outcome = capture.event_callback(own);
    assert!(outcome.pass && outcome.effect.is_none());
    let outcome = capture.event_callback(tap(EVENT_TAP_DISABLED_TIMEOUT));
    assert!(matches!(outcome.effect, Some(TapEffect::DisableTap)));
    let outcome = capture.event_callback(tap(EVENT_TAP_DISABLED_USER_INPUT));
    assert!(outcome.pass && matches!(outcome.effect, Some(TapEffect::ReportDisabled)));
}

#[test]
fn injected_movements_become_drags() {
    let mut injector = MacInjector::new();
    let point = Point { x: 10, y: 20 };
    assert!(matches!(
        injector.cursor(point),
        MacPost::Move { kind: EVENT_MOUSE_MOVED, button: 0, delta: None, flags: 0, .. }
    ));
    injector.cursor_posted(point);
    injector.button_posted(1, true);
    injector.key_posted(0xe0, true);
    assert_eq!(
        injector.cursor(Point { x: 13, y: 18 }),
        MacPost::Move {
            kind: EVENT_LEFT_DRAGGED,
            point: Point { x: 13, y: 18 },
            button: 0,
            delta: Some(Point { x: 3, y: -2 }),
            flags: FLAG_CONTROL,
        }
    );
    injector.button_posted(1, false);
    injector.button_posted(5, true);
    assert!(matches!(
        injector.cursor(point),
        MacPost::Move { kind: EVENT_OTHER_DRAGGED, button: 4, .. }
    ));
    assert_eq!(injector.motion(0, 0, point), None);
    assert!(injector.motion(1, 0, point).is_some());
    assert_eq!(injector.known_cursor(), Some(point));
    let held = injector.release_all();
    assert_eq!((held.usages, held.buttons), (vec![0xe0], vec![5]));
    assert!(injector.release_all().usages.is_empty());
}

#[test]
fn injected_keys_and_buttons_have_events() {
    let injector = MacInjector::new();
    assert_eq!(
        injector.key(0x04, ModifierMask::shift(), true),
        Some(MacPost::Key { keycode: 0, down: true, flags: FLAG_SHIFT })
    );
    assert_eq!(injector.key(0x32, ModifierMask::default(), true), None);
    assert_eq!(
        injector.button(1, true, Point { x: 1, y: 2 }),
        MacPost::Button { kind: EVENT_LEFT_DOWN, point: Point { x: 1, y: 2 }, button: 0 }
    );
}

#[test]
fn failed_switches_are_undone() {
    assert_eq!(switch_outcome(true, 0, 0), SwitchOutcome::Done);
    assert_eq!(switch_outcome(true, 1, 0), SwitchOutcome::Undo);
    assert_eq!(switch_outcome(false, 0, 1), SwitchOutcome::Failed);
}

#[test]
fn permissions_are_needed() {
    assert_eq!(ensure_permissions(true, false), Ok(()));
    assert_eq!(ensure_permissions(false, true), Err(PermissionError::NotTrusted));
    assert_eq!(ensure_permissions(true, true), Err(PermissionError::SecureInput));
}

#[test]
fn points_are_packed_and_unpacked() {
    for point in [
        Point { x: -1, y: 7 },
        Point { x: i32::MIN, y: i32::MAX },
        Point { x: 0, y: 0 },
    ] {
        assert_eq!(unpack_point(pack_point(point)), point);
    }
    assert_eq!(pack_point(Point { x: 1, y: 2 }), 0x1_0000_0002);
}

#[test]
fn lost_events_end_the_platform() {
    let mut gate = EventGate::new();
    gate.emit_reliable(&NativeEvent::Emergency, true);
    assert!(!gate.platform_is_terminal());
    gate.emit_reliable(&NativeEvent::Failed("gone".to_string()), true);
    assert!(gate.platform_is_terminal());
}

#[test]
fn any_keyboard_event_stops_the_debug_capture() {
    assert!(is_keyboard_event(EVENT_KEY_DOWN));
    assert!(is_keyboard_event(EVENT_KEY_UP));
    assert!(is_keyboard_event(EVENT_FLAGS_CHANGED));
    assert!(!is_keyboard_event(EVENT_SCROLL));
}

#[test]
fn event_counts_only_include_observed_types() {
    let mut counts = [0; EVENT_TYPE_COUNT];
    counts[22] = 3;
    counts[30] = 1;
    assert_eq!(event_counts_text(&counts), "22:3,30:1");
    assert_eq!(event_counts_text(&[0; EVENT_TYPE_COUNT]), "none");
}

#[test]
fn debug_capture_counts_and_stops() {
    let event = |kind: u32| DebugEvent {
        kind,
        delta_x: 2,
        delta_y: -1,
        button: 1,
        scroll_x: 3,
        scroll_y: 4,
        continuous: 1,
        phase: 5,
        momentum: 6,
        keycode: 7,
        flags: 8,
    };
    let mut state = DebugState::new(0);
    assert!(state.can_count_dropped());
    let far = DebugEvent { delta_x: i64::MAX, ..event(EVENT_MOUSE_MOVED) };
    assert!(state.has_room(&far) && state.has_room(&event(EVENT_MOUSE_MOVED)));
    let outcome = state.event_callback(event(EVENT_MOUSE_MOVED));
    assert!(!state.has_room(&far) && state.has_room(&event(EVENT_MOUSE_MOVED)));
    assert!(!outcome.pass && outcome.record.is_none() && outcome.observed);
    let outcome = state.event_callback(event(EVENT_SCROLL));
    assert_eq!(
        outcome.record,
        Some(DebugRecord::Scroll { x: 3, y: 4, continuous: 1, phase: 5, momentum: 6 })
    );
    assert_eq!(state.emit_periodic_summary(999), None);
    assert_eq!(
        state.emit_periodic_summary(1000),
        Some(("5:1,22:1".to_string(), 2, -1, 0))
    );
    assert_eq!(state.final_counts(), ("5:1,22:1".to_string(), 0));
    let outcome = state.event_callback(event(EVENT_KEY_DOWN));
    assert!(outcome.stop && !outcome.observed);
    assert!(!state.event_callback(event(EVENT_KEY_DOWN)).stop);
    let outcome = state.event_callback(event(EVENT_TAP_DISABLED_TIMEOUT));
    assert!(outcome.pass && outcome.enable && !outcome.observed);
}

/// A platform that can do no more than every platform has to.
struct PlainBackend;

impl InputBackend for PlainBackend {
    fn layout(&self) -> Result<DesktopLayout, BackendError> {
        let display = DisplayRect { x: 0, y: 0, width: 10, height: 10 };
        Ok(DesktopLayout::new(vec![display]).unwrap())
    }

    fn cursor_position(&self) -> Result<Point, BackendError> {
        Ok(Point { x: 1, y: 2 })
    }

    fn snapshot(&self) -> KeySnapshot {
        KeySnapshot { usages: vec![4], ..empty_snapshot() }
    }

    fn set_capture(&self, _active: bool) -> Result<(), BackendError> {
        Ok(())
    }

    fn warp_cursor(&self, _point: Point) -> Result<(), BackendError> {
        Ok(())
    }

    fn inject_key(
        &self,
        _usage: u16,
        _modifiers: ModifierMask,
        _down: bool,
        _repeat: bool,
    ) -> Result<(), BackendError> {
        Ok(())
    }

    fn inject_button(&self, _button: u8, _down: bool) -> Result<(), BackendError> {
        Ok(())
    }

    fn inject_cursor(&self, _point: Point) -> Result<(), BackendError> {
        Ok(())
    }

    fn inject_wheel(&self, _x: i32, _y: i32) -> Result<(), BackendError> {
        Ok(())
    }

    fn release_all(&self) -> Result<(), BackendError> {
        Ok(())
    }
}

#[test]
fn relative_motion_is_refused_where_it_is_not_offered() {
    let error = PlainBackend.inject_motion(1, 2).unwrap_err();
    assert_eq!(error.message, "相对光标注入在当前平台不可用");
    assert_eq!(PlainBackend.refresh_pressed_state().unwrap().usages, vec![4]);
    assert_eq!(PlainBackend.secure_desktop_state(), (false, None));
}
