use std::collections::BTreeSet;
use synly::geometry::{DesktopLayout, DisplayRect, Point, ScreenEdge};
use synly::mapping::InputPlatform;
use synly::mock::{
    button_mask, edge_from_index, edge_index, opposite_platform, platform_label,
    pressed_button_names, pressed_names, validate_options, MockControls, MockPeer, MockSettings,
    PeerAction, ScreenMockOptions,
};
use synly::platform::NativeEvent;
use synly::protocol::{empty_snapshot, EdgePosition, InputMessage};
use synly::receiver_mock::{
    direction_motion, inward_motion, read_mock_frame, run_controller_mock,
    send_full_input_sequence, take_layout, write_mock_frame, ControllerError, ControllerFlow, ControllerScript, InteractiveController,
    MockFrame, PressureWait, ScriptStep, WaitOutcome, DIRECTION_DOWN_USAGE, DIRECTION_LEFT_USAGE,
    DIRECTION_RIGHT_USAGE, DIRECTION_UP_USAGE, ESC_USAGE,
};

#[test]
fn mock_uses_the_opposite_remote_platform() {
    assert_eq!(opposite_platform(InputPlatform::Macos), InputPlatform::Windows);
    assert_eq!(opposite_platform(InputPlatform::Windows), InputPlatform::Macos);
    assert_ne!(platform_label(InputPlatform::Macos), platform_label(InputPlatform::Windows));
}

#[test]
fn gui_values_are_bounded_and_buttons_use_stable_bits() {
    assert_eq!(button_mask(&BTreeSet::from([1, 3])), 0b101);
}

#[test]
fn mock_edge_index_roundtrips() {
    for edge in [ScreenEdge::Left, ScreenEdge::Right, ScreenEdge::Top, ScreenEdge::Bottom] {
        assert_eq!(edge_from_index(edge_index(edge)), edge);
    }
}

#[test]
fn pressed_state_names_are_readable() {
    assert_eq!(pressed_names(&BTreeSet::from([0x04, 0x45])), "a, f12");
    assert_eq!(pressed_button_names(&BTreeSet::from([1, 3, 5])), "left, right, x2");
    assert_eq!(pressed_names(&BTreeSet::new()), "无");
    assert_eq!(pressed_button_names(&BTreeSet::new()), "无");
}

#[test]
fn mock_windows_need_a_size() {
    let mut options = ScreenMockOptions::default();
    assert!(validate_options(&options));
    options.width = 0;
    assert!(!validate_options(&options));
    let controls = MockControls {
        edge_index: 1,
        width: 300,
        height: 200,
        native_macos_to_windows: true,
        native_windows_to_macos: false,
        reverse_mouse_wheel: false,
        reverse_trackpad: true,
        filter_app_events: false,
    };
    let settings = MockSettings::from_window(controls, "ctrl+q").unwrap();
    assert_eq!(settings.edge, edge_from_index(1));
    assert_eq!((settings.width, settings.height), (300, 200));
    assert!(settings.native_macos_to_windows && settings.reverse_trackpad);
    assert!(MockSettings::from_window(controls, "q").is_err());
}

#[test]
fn mock_peer_takes_and_gives_control() {
    let layout =
        DesktopLayout::new(vec![DisplayRect { x: 0, y: 0, width: 100, height: 100 }]).unwrap();
    let mut peer = MockPeer::new(layout);
    assert!(!peer.is_active());
    let middle = EdgePosition { bits: 0.5f32.to_bits() };
    let action = peer.receive(InputMessage::Activate {
        generation: 3,
        source_edge: ScreenEdge::Right,
        edge_position: middle,
        pressed: empty_snapshot(),
    });
    assert_eq!(
        action,
        Some(PeerAction::PlaceCursor { edge: ScreenEdge::Left, position: middle })
    );
    peer.placed(middle, Point { x: 8, y: 50 });
    assert!(peer.is_active());
    assert_eq!(peer.heartbeat(), PeerAction::Heartbeat { generation: 3 });
    assert_eq!(peer.receive(InputMessage::Motion { generation: 3, dx: 10, dy: 0 }), None);
    assert_eq!(peer.frame().cursor, Point { x: 18, y: 50 });
    peer.receive(InputMessage::Button { generation: 3, button: 3, down: true });
    assert_eq!(peer.frame().button_mask, 0b100);
    assert_eq!(peer.frame().remote_buttons, "right");
    let asked = peer.receive(InputMessage::Motion { generation: 3, dx: -50, dy: 0 });
    assert!(matches!(asked, Some(PeerAction::RequestReturn { generation: 3, .. })));
    assert!(peer.is_active());
    peer.receive(InputMessage::Return { generation: 3, edge_position: middle });
    assert!(!peer.is_active());
}

#[test]
fn mock_motion_moves_inward_from_each_source_edge() {
    assert_eq!(inward_motion(ScreenEdge::Right, 4), (4, 0));
    assert_eq!(inward_motion(ScreenEdge::Left, 4), (-4, 0));
    assert_eq!(inward_motion(ScreenEdge::Top, 4), (0, -4));
    assert_eq!(inward_motion(ScreenEdge::Bottom, 4), (0, 4));
}

#[test]
fn direction_motion_maps_arrow_keys_to_relative_deltas() {
    assert_eq!(direction_motion(DIRECTION_UP_USAGE, 4), Some((0, -4)));
    assert_eq!(direction_motion(DIRECTION_DOWN_USAGE, 4), Some((0, 4)));
    assert_eq!(direction_motion(DIRECTION_LEFT_USAGE, 4), Some((-4, 0)));
    assert_eq!(direction_motion(DIRECTION_RIGHT_USAGE, 4), Some((4, 0)));
    assert_eq!(direction_motion(ESC_USAGE, 4), None);
    assert_eq!(direction_motion(0x04, 4), None);
}

#[test]
fn mock_wire_preserves_input_and_finish_frames() {
    let framed = write_mock_frame(&vec![9, 8]).unwrap();
    let prefix: [u8; 4] = framed[..4].try_into().unwrap();
    assert_eq!(read_mock_frame(&prefix), Ok(2));
    assert_eq!(framed[4..], [9, 8]);
}

fn script(motion_steps: u16) -> ControllerScript {
    ControllerScript {
        edge: ScreenEdge::Right,
        motion_steps,
        inject_click: true,
        inject_keyboard: true,
        inject_wheel: true,
    }
}

#[test]
fn scripts_start_with_a_handover_and_finish() {
    assert!(matches!(run_controller_mock(&script(0)), Err(ControllerError::NoMotionSteps)));
    let steps = run_controller_mock(&script(3)).unwrap();
    assert!(steps
        .iter()
        .any(|step| matches!(step, ScriptStep::Send(InputMessage::Activate { .. }))));
    assert!(matches!(steps.last(), Some(ScriptStep::Finish)));
    let buttons = steps
        .iter()
        .filter(|step| matches!(step, ScriptStep::Send(InputMessage::Button { .. })))
        .count();
    assert!(buttons >= 2);
}

#[test]
fn controllers_wait_for_their_own_heartbeat() {
    let mut wait = PressureWait::new(ScreenEdge::Right, 4);
    assert!(matches!(wait.press(), InputMessage::Motion { generation: 4, .. }));
    assert!(matches!(
        wait.frame(&MockFrame::Input(InputMessage::Heartbeat { generation: 3 })),
        WaitOutcome::Continue
    ));
    assert!(matches!(
        wait.frame(&MockFrame::Input(InputMessage::Heartbeat { generation: 4 })),
        WaitOutcome::Confirmed { pressure_steps: 1 }
    ));
    assert!(matches!(
        wait.frame(&MockFrame::Finish),
        WaitOutcome::Failed(ControllerError::EarlyFinish)
    ));
}

#[test]
fn interactive_controllers_follow_the_keys() {
    assert!(matches!(
        InteractiveController::start(ScreenEdge::Right, 0),
        Err(ControllerError::NoMotionStep)
    ));
    let (mut controller, first) = InteractiveController::start(ScreenEdge::Right, 5).unwrap();
    assert!(matches!(first, InputMessage::Activate { generation: 1, .. }));
    let step = controller
        .confirm(MockFrame::Input(InputMessage::Heartbeat { generation: 1 }));
    assert!(matches!(step.flow, ControllerFlow::Confirmed));
    let step = controller.native(NativeEvent::Key {
        usage: DIRECTION_LEFT_USAGE,
        modifiers: synly::hotkey::ModifierMask::default(),
        down: true,
        repeat: false,
    });
    assert!(step
        .send
        .contains(&InputMessage::Motion { generation: 1, dx: -5, dy: 0 }));
    let step = controller.native(NativeEvent::Failed("gone".to_string()));
    assert!(matches!(
        step.flow,
        ControllerFlow::Failed(ControllerError::CaptureFailed(_))
    ));
    assert!(matches!(
        take_layout(MockFrame::Finish),
        Err(ControllerError::NoLayout)
    ));
}

#[test]
fn input_sequence_holds_what_was_asked_for() {
    let mut script = ControllerScript {
        edge: ScreenEdge::Right,
        motion_steps: 2,
        inject_click: false,
        inject_keyboard: false,
        inject_wheel: true,
    };
    let count = |steps: &Vec<ScriptStep>, wanted: fn(&InputMessage) -> bool| {
        steps
            .iter()
            .filter(|step| matches!(step, ScriptStep::Send(message) if wanted(message)))
            .count()
    };
    let steps = send_full_input_sequence(&script, 7);
    assert_eq!(count(&steps, |message| matches!(message, InputMessage::Motion { .. })), 2);
    assert_eq!(
        count(&steps, |message| matches!(
            message,
            InputMessage::Wheel { generation: 7, x: 0, y: 120 }
        )),
        1
    );
    assert_eq!(count(&steps, |message| matches!(message, InputMessage::Key { .. })), 0);
    script.inject_keyboard = true;
    script.inject_click = true;
    let steps = send_full_input_sequence(&script, 7);
    assert_eq!(count(&steps, |message| matches!(message, InputMessage::Key { .. })), 2);
    assert_eq!(count(&steps, |message| matches!(message, InputMessage::Button { .. })), 2);
}

#[test]
fn restored_controls_are_the_default_options() {
    let options = ScreenMockOptions::default();
    let settings =
        MockSettings::from_window(MockControls::default(), " ctrl+alt+shift+escape ").unwrap();
    assert_eq!(settings.edge, options.edge);
    assert_eq!(settings.width, options.width);
    assert_eq!(settings.height, options.height);
    assert!(settings.filter_app_events);
    assert!(!settings.reverse_mouse_wheel);
}
