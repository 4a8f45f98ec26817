use synly::edge::EdgeOffset;
use synly::geometry::{DesktopLayout, DisplayRect, Point, ScreenEdge};
use synly::hotkey::{Hotkey, ModifierMask};
use synly::incoming::{CoalescedMotion, IncomingMotion};
use synly::mapping::{InputPlatform, KeyMappingConfig};
use synly::platform::{MotionAccumulator, MotionSample, NativeEvent, ScrollSource};
use synly::pressed::PressedState;
use synly::protocol::{empty_snapshot, EdgePosition, InputMessage, KeySnapshot};
use synly::receiver::{
    apply_snapshot, is_usable_desktop, receiver_motion, ReceiverAction, ReceiverControl,
    ReceiverEvent, ReceiverMotion, ReceiverStop,
};
use synly::sender::{
    sender_activation_edge_position, sender_heartbeat_timeout, SenderAction, SenderControl,
    SenderEvent, SenderStop,
};
use synly::session::{
    ensure_platform_supported, negotiate_input, take_hello, CursorMode, HelloError, InputMode,
    InputRuntimeOptions, LocalInputRole, Reconnect, SupportCheck, ACTIVATION_TIMEOUT, EDGE_INSET,
    HEARTBEAT_TIMEOUT,
};

fn layout() -> DesktopLayout {
    DesktopLayout::new(vec![DisplayRect { x: 0, y: 0, width: 100, height: 100 }]).unwrap()
}

fn position(value: f32) -> EdgePosition {
    EdgePosition { bits: value.to_bits() }
}

fn value(at: EdgeOffset) -> f32 {
    (at.offset as f32 / at.total as f32).clamp(0.0, 1.0)
}

fn inside(layout: &DesktopLayout, edge: ScreenEdge, position: EdgePosition) -> Point {
    let total = layout.edge_length(edge).unwrap().max(1);
    let target = (f32::from_bits(position.bits).clamp(0.0, 1.0) * total as f32) as i32;
    layout.point_inside_edge(edge, target, EDGE_INSET)
}

fn options(edge: ScreenEdge) -> InputRuntimeOptions {
    InputRuntimeOptions {
        mode: InputMode::Send,
        edge,
        hotkey: Hotkey::DEFAULT.parse().unwrap(),
        reverse_mouse_wheel: false,
        reverse_trackpad: false,
        native_scroll_macos_to_windows: false,
        native_scroll_windows_to_macos: false,
        block_switch_on_press: false,
        filter_app_events: false,
        key_mapping: KeyMappingConfig::default(),
        cursor_mode: CursorMode::Desktop,
    }
}

/// A sender with the machine around it.
struct Sending {
    control: SenderControl,
    edge: ScreenEdge,
    held: KeySnapshot,
    capture: bool,
    warped: Option<Point>,
    trail: Vec<&'static str>,
    sent: Vec<InputMessage>,
    stopped: Option<SenderStop>,
}

impl Sending {
    fn new(options: &InputRuntimeOptions) -> Sending {
        let edge = options.edge;
        Sending {
            control: SenderControl::new(
                options,
                edge,
                InputPlatform::Macos,
                InputPlatform::Macos,
                0,
            )
            .unwrap(),
            edge,
            held: empty_snapshot(),
            capture: false,
            warped: None,
            trail: Vec::new(),
            sent: Vec::new(),
            stopped: None,
        }
    }

    fn handle(&mut self, event: SenderEvent, now: u64) {
        for action in self.control.handle(event) {
            match action {
                SenderAction::Send(message) | SenderAction::TrySend(message) => {
                    self.sent.push(message)
                }
                SenderAction::Restore { position, .. } => {
                    self.warped = Some(inside(&layout(), self.edge, position));
                    self.trail.push("warp");
                    self.capture = false;
                    self.trail.push("capture");
                }
                SenderAction::SetCapture { active, .. } => {
                    self.capture = active;
                    self.trail.push("capture");
                }
                SenderAction::AskCursor { dx, dy } => {
                    self.consider(Point { x: 99, y: 50 }, dx, dy, now)
                }
                SenderAction::Consider { point, dx, dy } => self.consider(point, dx, dy, now),
                SenderAction::Stop(reason) => self.stopped = Some(reason),
            }
        }
    }

    fn consider(&mut self, point: Point, dx: i32, dy: i32, now: u64) {
        let Some(at) = sender_activation_edge_position(&layout(), self.edge, point, dx, dy)
        else {
            return;
        };
        if !self.control.may_leave(&self.held) {
            return;
        }
        let held = KeySnapshot {
            usages: self.held.usages.clone(),
            modifiers: self.held.modifiers,
            buttons: self.held.buttons.clone(),
        };
        self.handle(
            SenderEvent::Activate { position: position(value(at)), held, now },
            now,
        );
    }

    fn motion(&mut self, dx: i32, dy: i32, point: Option<Point>, now: u64) {
        let mut motion = MotionAccumulator::default();
        match point {
            Some(point) => motion.add_at(dx, dy, point),
            None => motion.add(dx, dy),
        }
        self.handle(SenderEvent::Motion { sample: motion.take(), now }, now);
    }

    fn message(&mut self, message: InputMessage, now: u64) {
        self.handle(SenderEvent::Message { message, now }, now);
    }

    fn activation(&self) -> Option<(u64, f32)> {
        self.sent.iter().find_map(|message| match message {
            InputMessage::Activate { generation, edge_position, .. } => {
                Some((*generation, f32::from_bits(edge_position.bits)))
            }
            _ => None,
        })
    }

    fn returned(&self) -> Option<f32> {
        self.sent.iter().find_map(|message| match message {
            InputMessage::Return { edge_position, .. } => {
                Some(f32::from_bits(edge_position.bits))
            }
            _ => None,
        })
    }
}

/// A receiver with the machine around it.
struct Receiving {
    control: ReceiverControl,
    warp_fails: bool,
    captured: bool,
    warped: Option<Point>,
    cursor: Point,
    motions: Vec<(i32, i32)>,
    keys: Vec<(u16, bool)>,
    buttons: Vec<(u8, bool)>,
    heartbeats: Vec<u64>,
    requests: Vec<(u64, f32)>,
    deactivated: Option<Option<f32>>,
    released: u32,
    stopped: Option<ReceiverStop>,
}

impl Receiving {
    fn new(mode: CursorMode, captured: bool) -> Receiving {
        assert!(is_usable_desktop(&layout()));
        Receiving {
            control: ReceiverControl::new(layout(), mode, captured, 0),
            warp_fails: false,
            captured,
            warped: None,
            cursor: Point { x: 99, y: 50 },
            motions: Vec::new(),
            keys: Vec::new(),
            buttons: Vec::new(),
            heartbeats: Vec::new(),
            requests: Vec::new(),
            deactivated: None,
            released: 0,
            stopped: None,
        }
    }

    fn handle(&mut self, event: ReceiverEvent) {
        let entering = match &event {
            ReceiverEvent::Message {
                message: InputMessage::Activate { pressed, .. },
                ..
            } => KeySnapshot {
                usages: pressed.usages.clone(),
                modifiers: pressed.modifiers,
                buttons: pressed.buttons.clone(),
            },
            _ => empty_snapshot(),
        };
        let mut entering = Some(entering);
        for action in self.control.handle(event) {
            match action {
                ReceiverAction::Heartbeat { generation } => self.heartbeats.push(generation),
                ReceiverAction::RequestReturn { generation, at } => {
                    self.requests.push((generation, value(at)))
                }
                ReceiverAction::Deactivate { at, .. } => {
                    self.deactivated = Some(at.map(value))
                }
                ReceiverAction::ReleaseAll { .. } => self.released += 1,
                ReceiverAction::PlaceCursor { edge, position } => {
                    let at = if self.warp_fails {
                        None
                    } else {
                        self.warped = Some(inside(&layout(), edge, position));
                        self.warped
                    };
                    let pressed = entering.take().unwrap();
                    self.handle(ReceiverEvent::Placed { at, captured: self.captured, pressed });
                }
                ReceiverAction::AskCursor => {
                    self.handle(ReceiverEvent::CursorFound { point: self.cursor })
                }
                ReceiverAction::InjectKey { usage, down, .. } => self.keys.push((usage, down)),
                ReceiverAction::InjectButton { button, down } => {
                    self.buttons.push((button, down))
                }
                ReceiverAction::InjectWheel { .. } => {}
                ReceiverAction::InjectCursor { point } => self.cursor = point,
                ReceiverAction::InjectMotion { dx, dy } => self.motions.push((dx, dy)),
                ReceiverAction::Stop(reason) => self.stopped = Some(reason),
            }
        }
    }

    fn message(&mut self, message: InputMessage, now: u64) {
        self.handle(ReceiverEvent::Message { message, now });
    }

    fn activate(&mut self, generation: u64, now: u64) {
        self.message(
            InputMessage::Activate {
                generation,
                source_edge: ScreenEdge::Right,
                edge_position: position(0.5),
                pressed: empty_snapshot(),
            },
            now,
        );
    }

    fn motion(&mut self, generation: u64, dx: i32, dy: i32) {
        self.handle(ReceiverEvent::MotionTick {
            motion: Some(CoalescedMotion { generation, dx, dy }),
        });
    }
}

#[test]
fn sender_recovery_guard_restores_cursor_on_drop() {
    let mut sending = Sending::new(&options(ScreenEdge::Right));
    sending.motion(4, 0, Some(Point { x: 97, y: 50 }), 10);
    assert!(sending.capture);
    sending.trail.clear();
    sending.handle(SenderEvent::Abandon, 20);
    assert!(!sending.capture);
    assert_eq!(sending.warped, Some(Point { x: 100 - EDGE_INSET - 1, y: 50 }));
    assert_eq!(sending.trail, vec!["warp", "capture"]);
}

#[test]
fn sender_activates_when_outward_motion_crosses_the_edge() {
    let layout = layout();
    assert_eq!(
        sender_activation_edge_position(
            &layout,
            ScreenEdge::Right,
            Point { x: 97, y: 50 },
            4,
            0
        )
        .map(value),
        Some(0.5),
    );
    assert_eq!(
        sender_activation_edge_position(
            &layout,
            ScreenEdge::Right,
            Point { x: 97, y: 50 },
            2,
            0
        ),
        None,
    );
}

#[test]
fn sender_uses_a_longer_timeout_until_activation_is_confirmed() {
    assert_eq!(sender_heartbeat_timeout(false), ACTIVATION_TIMEOUT);
    assert_eq!(sender_heartbeat_timeout(true), HEARTBEAT_TIMEOUT);
}

#[test]
fn sender_activates_from_a_zero_delta_edge_position_update() {
    let mut sending = Sending::new(&options(ScreenEdge::Left));
    sending.motion(0, 0, Some(Point { x: 0, y: 50 }), 10);
    assert_eq!(sending.activation(), Some((1, 0.5)));
    assert!(sending.capture);
}

#[test]
fn sender_blocks_activation_while_pressed_when_option_enabled() {
    let mut options = options(ScreenEdge::Right);
    options.block_switch_on_press = true;
    let mut sending = Sending::new(&options);
    sending.held.buttons = vec![1];
    sending.motion(4, 0, Some(Point { x: 97, y: 50 }), 10);
    assert_eq!(sending.activation(), None);
    assert!(!sending.capture);

    sending.held.buttons = Vec::new();
    sending.motion(2, 0, Some(Point { x: 99, y: 50 }), 20);
    assert_eq!(sending.activation(), Some((1, 0.5)));
    assert!(sending.capture);
}

#[test]
fn sender_returns_immediately_when_requested_and_option_disabled() {
    let mut sending = Sending::new(&options(ScreenEdge::Right));
    sending.motion(4, 0, Some(Point { x: 97, y: 50 }), 10);
    assert_eq!(sending.activation(), Some((1, 0.5)));
    sending.message(
        InputMessage::ReturnRequest { generation: 1, edge_position: position(0.5) },
        20,
    );
    assert_eq!(sending.returned(), Some(0.5));
    assert!(!sending.capture);
}

#[test]
fn sender_restores_at_receiver_reported_edge_position_on_deactivate() {
    let mut sending = Sending::new(&options(ScreenEdge::Right));
    sending.motion(4, 0, Some(Point { x: 97, y: 50 }), 10);
    assert_eq!(sending.activation(), Some((1, 0.5)));
    sending.message(
        InputMessage::Deactivate { generation: 1, edge_position: Some(position(0.75)) },
        20,
    );
    assert_eq!(sending.warped, Some(Point { x: 91, y: 75 }));
    assert!(!sending.capture);
}

#[test]
fn sender_blocks_return_until_local_release_when_option_enabled() {
    let mut options = options(ScreenEdge::Right);
    options.block_switch_on_press = true;
    let mut sending = Sending::new(&options);
    sending.motion(4, 0, Some(Point { x: 97, y: 50 }), 10);
    assert_eq!(sending.activation(), Some((1, 0.5)));
    sending.handle(
        SenderEvent::Native { event: NativeEvent::Button { button: 1, down: true }, now: 20 },
        20,
    );
    assert!(sending
        .sent
        .contains(&InputMessage::Button { generation: 1, button: 1, down: true }));
    sending.message(
        InputMessage::ReturnRequest { generation: 1, edge_position: position(0.5) },
        30,
    );
    assert_eq!(sending.returned(), None);
    assert!(sending.capture);
    sending.handle(
        SenderEvent::Native { event: NativeEvent::Button { button: 1, down: false }, now: 40 },
        40,
    );
    assert_eq!(sending.returned(), Some(0.5));
    assert!(!sending.capture);
}

#[test]
fn sender_ignores_messages_of_older_handovers() {
    let mut sending = Sending::new(&options(ScreenEdge::Right));
    sending.motion(4, 0, Some(Point { x: 97, y: 50 }), 10);
    sending.message(
        InputMessage::ReturnRequest { generation: 9, edge_position: position(0.5) },
        20,
    );
    assert_eq!(sending.returned(), None);
    assert!(sending.control.is_active());
}

#[test]
fn sender_forwards_input_while_the_other_end_has_control() {
    let mut sending = Sending::new(&options(ScreenEdge::Right));
    sending.handle(
        SenderEvent::Native { event: NativeEvent::Button { button: 1, down: true }, now: 5 },
        5,
    );
    assert!(sending.sent.is_empty());
    sending.motion(4, 0, Some(Point { x: 97, y: 50 }), 10);
    sending.motion(3, -2, None, 20);
    assert!(sending.sent.contains(&InputMessage::Motion { generation: 1, dx: 3, dy: -2 }));
    sending.handle(
        SenderEvent::Native {
            event: NativeEvent::Wheel { x: 1, y: 2, source: ScrollSource::MouseWheel },
            now: 30,
        },
        30,
    );
    assert!(sending.sent.contains(&InputMessage::Wheel { generation: 1, x: 1, y: 2 }));
    sending.handle(
        SenderEvent::Native {
            event: NativeEvent::Key {
                usage: 4,
                modifiers: ModifierMask::default(),
                down: true,
                repeat: false,
            },
            now: 40,
        },
        40,
    );
    assert!(sending.sent.contains(&InputMessage::Key {
        generation: 1,
        usage: 4,
        modifiers: ModifierMask::default(),
        down: true,
        repeat: false,
    }));
}

#[test]
fn sender_takes_control_back_in_an_emergency() {
    let mut sending = Sending::new(&options(ScreenEdge::Right));
    sending.motion(4, 0, Some(Point { x: 97, y: 50 }), 10);
    sending.handle(SenderEvent::Native { event: NativeEvent::Emergency, now: 20 }, 20);
    assert!(!sending.control.is_active());
    assert!(!sending.capture);
    assert!(sending
        .sent
        .contains(&InputMessage::Deactivate { generation: 1, edge_position: None }));
}

#[test]
fn sender_waits_after_a_return() {
    let mut sending = Sending::new(&options(ScreenEdge::Right));
    sending.motion(4, 0, Some(Point { x: 97, y: 50 }), 10);
    sending.message(
        InputMessage::ReturnRequest { generation: 1, edge_position: position(0.5) },
        20,
    );
    sending.sent.clear();
    sending.motion(4, 0, Some(Point { x: 97, y: 50 }), 100);
    assert_eq!(sending.activation(), None);
    sending.motion(4, 0, Some(Point { x: 97, y: 50 }), 400);
    assert_eq!(sending.activation(), Some((2, 0.5)));
}

#[test]
fn sender_stops_for_each_reason() {
    let mut silent = Sending::new(&options(ScreenEdge::Right));
    silent.motion(4, 0, Some(Point { x: 97, y: 50 }), 10);
    silent.handle(SenderEvent::TimeoutTick { now: ACTIVATION_TIMEOUT + 9 }, 0);
    assert!(silent.stopped.is_none());
    silent.handle(SenderEvent::TimeoutTick { now: ACTIVATION_TIMEOUT + 10 }, 0);
    assert!(matches!(silent.stopped, Some(SenderStop::HeartbeatTimeout)));
    assert!(!silent.capture);

    let mut overflow = Sending::new(&options(ScreenEdge::Right));
    overflow.handle(SenderEvent::OverflowPoll { overflowed: false }, 0);
    assert!(overflow.stopped.is_none());
    overflow.handle(SenderEvent::OverflowPoll { overflowed: true }, 0);
    assert!(matches!(overflow.stopped, Some(SenderStop::QueueOverflow)));

    let mut proof = Sending::new(&options(ScreenEdge::Right));
    proof.message(
        InputMessage::Proof {
            role: synly::channel::InputChannelRole::Host,
            proof: [0; 32],
        },
        1,
    );
    assert!(matches!(proof.stopped, Some(SenderStop::RepeatedProof)));

    let mut failed = Sending::new(&options(ScreenEdge::Right));
    failed.motion(4, 0, Some(Point { x: 97, y: 50 }), 10);
    failed.handle(
        SenderEvent::Native { event: NativeEvent::Failed("gone".to_string()), now: 11 },
        11,
    );
    assert!(
        matches!(&failed.stopped, Some(SenderStop::CaptureFailed(text)) if text == "gone")
    );
}

#[test]
fn receiver_acknowledges_activation_before_motion_pressure() {
    let mut receiving = Receiving::new(CursorMode::Desktop, false);
    receiving.activate(7, 1);
    assert_eq!(receiving.heartbeats, vec![7]);
    for _ in 0..200 {
        receiving.motion(7, 1, 0);
    }
    assert_eq!(receiving.cursor, Point { x: 99, y: 50 });
}

#[test]
fn receiver_requests_return_at_edge_and_waits_for_approval() {
    let mut receiving = Receiving::new(CursorMode::Desktop, false);
    receiving.activate(7, 1);
    assert_eq!(receiving.warped, Some(Point { x: 8, y: 50 }));
    for _ in 0..200 {
        receiving.motion(7, -1, 0);
    }
    assert_eq!(receiving.requests.first(), Some(&(7, 0.5)));
    assert!(receiving.deactivated.is_none());
    receiving.message(
        InputMessage::Return { generation: 7, edge_position: position(0.5) },
        2,
    );
    receiving.requests.clear();
    for _ in 0..200 {
        receiving.motion(7, -1, 0);
    }
    assert!(receiving.requests.is_empty());
}

#[test]
fn receiver_game_mode_injects_relative_motion_without_edge_return() {
    let mut receiving = Receiving::new(CursorMode::Game, false);
    receiving.activate(7, 1);
    for _ in 0..500 {
        receiving.motion(7, -3, 2);
    }
    assert!(receiving.requests.is_empty());
    assert_eq!(receiving.motions.len(), 500);
    assert_eq!(receiving.warped, None);
}

#[test]
fn receiver_falls_back_to_game_mode_when_warp_blocked_by_cursor_capture() {
    let mut receiving = Receiving::new(CursorMode::Desktop, false);
    receiving.warp_fails = true;
    receiving.captured = true;
    receiving.activate(7, 1);
    assert_eq!(receiving.heartbeats, vec![7]);
    for _ in 0..500 {
        receiving.motion(7, -3, 2);
    }
    assert!(receiving.requests.is_empty());
    assert!(!receiving.motions.is_empty());

    receiving.message(InputMessage::Heartbeat { generation: 7 }, 2);
    receiving.captured = false;
    receiving.handle(ReceiverEvent::MonitorTick { captured: false });
    receiving.message(InputMessage::Heartbeat { generation: 7 }, 3);
    receiving.motion(7, -100, 0);
    assert_eq!(receiving.requests.first(), Some(&(7, 0.5)));
    assert!(receiving.deactivated.is_none());
}

#[test]
fn receiver_switches_to_desktop_when_cursor_capture_lost() {
    let mut receiving = Receiving::new(CursorMode::Auto, true);
    receiving.activate(7, 1);
    assert_eq!(receiving.heartbeats, vec![7]);
    receiving.handle(ReceiverEvent::MonitorTick { captured: false });
    receiving.motion(7, -100, 0);
    assert_eq!(receiving.requests.first(), Some(&(7, 0.5)));
    assert!(receiving.deactivated.is_none());
}

#[test]
fn receiver_uses_logical_cursor_across_consecutive_motion_frames() {
    let layout = layout();
    let first = receiver_motion(&layout, ScreenEdge::Left, Point { x: 8, y: 40 }, 30, 5);
    assert_eq!(first, ReceiverMotion::Move(Point { x: 38, y: 45 }));
    let ReceiverMotion::Move(point) = first else {
        panic!("the first movement stays on the desktop");
    };
    assert_eq!(
        receiver_motion(&layout, ScreenEdge::Left, point, 30, 5),
        ReceiverMotion::Move(Point { x: 68, y: 50 }),
    );
}

#[test]
fn receiver_injects_only_with_control() {
    let mut receiving = Receiving::new(CursorMode::Desktop, false);
    receiving.message(InputMessage::Button { generation: 0, button: 1, down: true }, 1);
    assert!(receiving.buttons.is_empty());
    receiving.activate(7, 1);
    receiving.message(InputMessage::Button { generation: 6, button: 1, down: true }, 1);
    assert!(receiving.buttons.is_empty());
    receiving.message(InputMessage::Button { generation: 7, button: 1, down: true }, 1);
    assert_eq!(receiving.buttons, vec![(1, true)]);
    receiving.activate(7, 2);
    assert_eq!(receiving.heartbeats, vec![7]);
}

#[test]
fn receiver_presses_what_was_held_at_the_handover() {
    let mut receiving = Receiving::new(CursorMode::Desktop, false);
    receiving.message(
        InputMessage::Activate {
            generation: 1,
            source_edge: ScreenEdge::Right,
            edge_position: position(0.5),
            pressed: KeySnapshot {
                usages: vec![0xe0, 4],
                modifiers: ModifierMask::ctrl(),
                buttons: vec![1],
            },
        },
        1,
    );
    assert_eq!(receiving.keys, vec![(0xe0, true), (4, true)]);
    assert_eq!(receiving.buttons, vec![(1, true)]);
    let actions = apply_snapshot(&KeySnapshot {
        usages: vec![4],
        modifiers: ModifierMask::default(),
        buttons: vec![2],
    });
    assert_eq!(actions.len(), 2);
}

#[test]
fn receiver_gives_control_back_in_an_emergency() {
    let mut receiving = Receiving::new(CursorMode::Desktop, false);
    receiving.activate(7, 1);
    receiving.handle(ReceiverEvent::Native { event: NativeEvent::Emergency });
    assert_eq!(receiving.deactivated, Some(Some(0.5)));
    receiving.deactivated = None;
    receiving.handle(ReceiverEvent::Native { event: NativeEvent::Emergency });
    assert_eq!(receiving.deactivated, None);
}

#[test]
fn receiver_stops_for_each_reason() {
    let mut silent = Receiving::new(CursorMode::Desktop, false);
    silent.activate(1, 10);
    silent.handle(ReceiverEvent::TimeoutTick { now: 9 + HEARTBEAT_TIMEOUT });
    assert!(silent.stopped.is_none());
    silent.handle(ReceiverEvent::TimeoutTick { now: 10 + HEARTBEAT_TIMEOUT });
    assert!(matches!(silent.stopped, Some(ReceiverStop::HeartbeatTimeout)));

    let mut overflow = Receiving::new(CursorMode::Desktop, false);
    overflow.handle(ReceiverEvent::OverflowPoll { overflowed: true });
    assert!(matches!(overflow.stopped, Some(ReceiverStop::QueueOverflow)));

    let mut blocked = Receiving::new(CursorMode::Desktop, false);
    blocked.warp_fails = true;
    blocked.activate(1, 1);
    assert!(matches!(blocked.stopped, Some(ReceiverStop::WarpFailed)));

    let mut proof = Receiving::new(CursorMode::Desktop, false);
    proof.message(
        InputMessage::Proof {
            role: synly::channel::InputChannelRole::Client,
            proof: [0; 32],
        },
        1,
    );
    assert!(matches!(proof.stopped, Some(ReceiverStop::RepeatedProof)));

    let mut failed = Receiving::new(CursorMode::Desktop, false);
    failed.handle(ReceiverEvent::Native { event: NativeEvent::Failed("gone".to_string()) });
    assert!(
        matches!(&failed.stopped, Some(ReceiverStop::InjectionFailed(text)) if text == "gone")
    );

    let mut full = Receiving::new(CursorMode::Desktop, false);
    full.handle(ReceiverEvent::Native { event: NativeEvent::ReliableQueueOverflow });
    assert!(matches!(full.stopped, Some(ReceiverStop::EmergencyQueueFull)));

    let mut lost = Receiving::new(CursorMode::Auto, true);
    lost.activate(1, 1);
    let actions = lost.control.handle(ReceiverEvent::MonitorTick { captured: false });
    assert!(matches!(actions[..], [ReceiverAction::AskCursor]));
    lost.motion(1, 1, 1);
    assert!(matches!(lost.stopped, Some(ReceiverStop::NoCursor)));
}

#[test]
fn ends_connect_through_a_handover() {
    let mut sending = Sending::new(&options(ScreenEdge::Right));
    let mut receiving = Receiving::new(CursorMode::Desktop, false);
    sending.motion(4, 0, Some(Point { x: 97, y: 50 }), 10);
    for message in std::mem::take(&mut sending.sent) {
        receiving.message(message, 11);
    }
    assert_eq!(receiving.heartbeats, vec![1]);
    sending.motion(5, 5, None, 20);
    for message in std::mem::take(&mut sending.sent) {
        receiving.message(message, 21);
    }
    assert_eq!(receiving.cursor, Point { x: 13, y: 55 });
    receiving.message(
        InputMessage::Motion { generation: 1, dx: -50, dy: 0 },
        22,
    );
    let (generation, at) = receiving.requests[0];
    sending.message(
        InputMessage::ReturnRequest { generation, edge_position: position(at) },
        30,
    );
    for message in std::mem::take(&mut sending.sent) {
        receiving.message(message, 31);
    }
    assert!(!sending.control.is_active());
    assert!(!sending.capture);
    receiving.message(InputMessage::Button { generation: 1, button: 1, down: true }, 32);
    assert!(receiving.buttons.is_empty());
}

#[test]
fn pressed_state_tracks_down_up_and_ignores_repeats() {
    let mut pressed = PressedState::default();
    pressed.key(0x04, true, true);
    assert!(pressed.is_empty());
    pressed.key(0x04, true, false);
    assert!(!pressed.is_empty());
    pressed.key(0x04, false, false);
    assert!(pressed.is_empty());
    pressed.button(1, true);
    assert!(!pressed.is_empty());
    pressed.button(1, false);
    assert!(pressed.is_empty());
    let from_snapshot = PressedState::from_snapshot(&KeySnapshot {
        usages: vec![0x04],
        modifiers: ModifierMask::default(),
        buttons: vec![1],
    });
    assert!(!from_snapshot.is_empty());
}

#[test]
fn pressed_state_is_listed_in_order() {
    let mut pressed = PressedState::default();
    for usage in [0xe4u16, 4, 0xe1] {
        pressed.key(usage, true, false);
    }
    pressed.button(3, true);
    pressed.button(1, true);
    assert_eq!(pressed.first_button(), Some(1));
    let snapshot = pressed.take();
    assert_eq!(snapshot.usages, vec![4, 0xe1, 0xe4]);
    assert_eq!(snapshot.modifiers.bits(), 5);
    assert_eq!(snapshot.buttons, vec![1, 3]);
    assert!(pressed.is_empty());
    assert_eq!(pressed.first_button(), None);
}

#[test]
fn input_reader_prioritizes_heartbeat_over_motion_pressure() {
    let mut motion = IncomingMotion::default();
    let first = motion.receive(InputMessage::Activate {
        generation: 5,
        source_edge: ScreenEdge::Right,
        edge_position: position(0.5),
        pressed: empty_snapshot(),
    });
    assert!(matches!(first[..], [InputMessage::Activate { generation: 5, .. }]));
    for _ in 0..400 {
        assert!(motion
            .receive(InputMessage::Motion { generation: 5, dx: 1, dy: -1 })
            .is_empty());
    }
    assert_eq!(
        motion.receive(InputMessage::Heartbeat { generation: 5 }),
        vec![InputMessage::Heartbeat { generation: 5 }]
    );
    assert_eq!(
        motion.take(),
        Some(CoalescedMotion { generation: 5, dx: 400, dy: -400 })
    );
}

#[test]
fn input_reader_flushes_motion_before_reliable_input() {
    let mut motion = IncomingMotion::default();
    assert!(motion
        .receive(InputMessage::Motion { generation: 3, dx: 7, dy: -2 })
        .is_empty());
    assert_eq!(
        motion.receive(InputMessage::Button { generation: 3, button: 1, down: true }),
        vec![
            InputMessage::Motion { generation: 3, dx: 7, dy: -2 },
            InputMessage::Button { generation: 3, button: 1, down: true },
        ]
    );
    assert_eq!(motion.take(), None);
}

#[test]
fn newer_handovers_replace_waiting_motion() {
    let mut motion = IncomingMotion::default();
    motion.push(1, 5, 5);
    motion.push(2, 1, 0);
    assert_eq!(motion.take(), Some(CoalescedMotion { generation: 2, dx: 1, dy: 0 }));
}

#[test]
fn input_direction_requires_complementary_modes() {
    assert_eq!(
        negotiate_input(InputMode::Send, InputMode::Receive),
        Some(LocalInputRole::Send)
    );
    assert_eq!(
        negotiate_input(InputMode::Receive, InputMode::Send),
        Some(LocalInputRole::Receive)
    );
    assert_eq!(negotiate_input(InputMode::Send, InputMode::Send), None);
    assert_eq!(negotiate_input(InputMode::Off, InputMode::Receive), None);
}

#[test]
fn support_is_needed_only_with_input() {
    assert_eq!(ensure_platform_supported(InputMode::Off, false), SupportCheck::NotNeeded);
    assert_eq!(ensure_platform_supported(InputMode::Send, true), SupportCheck::AskPermission);
    assert_eq!(ensure_platform_supported(InputMode::Receive, false), SupportCheck::Unsupported);
}

#[test]
fn sessions_begin_with_a_hello() {
    let (platform, desktop) = take_hello(InputMessage::Hello {
        platform: InputPlatform::Windows,
        layout: layout(),
    })
    .unwrap();
    assert_eq!(platform, InputPlatform::Windows);
    assert_eq!(desktop, layout());
    assert_eq!(
        take_hello(InputMessage::Heartbeat { generation: 0 }).unwrap_err(),
        HelloError::TooEarly
    );
    assert_eq!(
        take_hello(InputMessage::Proof {
            role: synly::channel::InputChannelRole::Host,
            proof: [0; 32]
        })
        .unwrap_err(),
        HelloError::RepeatedProof
    );
}

#[test]
fn reconnects_wait_longer_each_time() {
    let mut reconnect = Reconnect::new();
    let waits: Vec<Option<u64>> = (0..5).map(|_| reconnect.failed(false)).collect();
    assert_eq!(waits, vec![Some(2), Some(4), Some(8), Some(16), Some(20)]);
    reconnect.connected();
    assert_eq!(reconnect.failed(false), Some(2));
    assert_eq!(reconnect.failed(true), None);
}

#[test]
fn cursor_modes_have_labels() {
    let labels = [CursorMode::Desktop, CursorMode::Auto, CursorMode::Game].map(|m| m.label());
    assert_ne!(labels[0], labels[1]);
    assert_ne!(labels[1], labels[2]);
}

#[test]
fn motion_sample_keeps_latest_position_and_accumulated_delta() {
    let mut motion = MotionAccumulator::default();
    motion.add_at(3, -2, Point { x: -1200, y: 80 });
    motion.add_at(5, 4, Point { x: -1195, y: 84 });

    let sample: MotionSample = motion.take();
    assert_eq!((sample.dx, sample.dy), (8, 2));
    assert_eq!(sample.position, Some(Point { x: -1195, y: 84 }));
    assert!(sample.position_updated);
    assert!(!motion.take().position_updated);
    let observed = motion.take_observed();
    assert_eq!((observed.dx, observed.dy), (8, 2));
    assert_eq!(observed.position, Some(Point { x: -1195, y: 84 }));
    assert!(observed.position_updated);
}

#[test]
fn collected_motion_is_the_sum() {
    let mut motion = MotionAccumulator::default();
    motion.add(5, -7);
    motion.add_at(i32::MAX, 2, Point { x: 3, y: 4 });
    motion.add(-10, 1);
    let first = motion.take();
    let second = motion.take_observed();
    assert_eq!((first.dx, first.dy), (i32::MAX - 5, -4));
    assert_eq!((second.dx, second.dy), (i32::MAX - 5, -4));
    assert_eq!(first.position, Some(Point { x: 3, y: 4 }));
}

#[test]
fn settings_are_copied_whole() {
    let config = KeyMappingConfig::default();
    assert_eq!(config.clone(), config);
    let message = InputMessage::Motion { generation: 1, dx: 2, dy: 3 };
    assert_eq!(message.clone(), message);
}

#[test]
fn paused_sender_takes_control_back_and_keeps_it() {
    let mut sending = Sending::new(&options(ScreenEdge::Right));
    sending.motion(4, 0, Some(Point { x: 97, y: 50 }), 10);
    assert!(sending.capture);
    sending.sent.clear();
    sending.handle(SenderEvent::SecureInput { active: true, now: 20 }, 20);
    assert!(!sending.control.is_active());
    assert!(!sending.capture);
    assert_eq!(sending.warped, Some(Point { x: 100 - EDGE_INSET - 1, y: 50 }));
    assert_eq!(
        sending.sent,
        vec![InputMessage::Deactivate { generation: 1, edge_position: None }]
    );
    sending.sent.clear();
    sending.handle(SenderEvent::SecureInput { active: true, now: 30 }, 30);
    sending.motion(4, 0, Some(Point { x: 97, y: 50 }), 5000);
    sending.motion(4, 0, None, 5001);
    sending.handle(
        SenderEvent::Activate { position: position(0.5), held: empty_snapshot(), now: 5002 },
        5002,
    );
    sending.handle(
        SenderEvent::Native { event: NativeEvent::Button { button: 1, down: true }, now: 5003 },
        5003,
    );
    assert!(sending.sent.is_empty());
    assert!(!sending.control.may_leave(&empty_snapshot()));
    sending.handle(SenderEvent::HeartbeatTick, 5004);
    assert_eq!(sending.sent, vec![InputMessage::Heartbeat { generation: 1 }]);
    sending.sent.clear();
    sending.handle(SenderEvent::SecureInput { active: false, now: 6000 }, 6000);
    sending.motion(4, 0, Some(Point { x: 97, y: 50 }), 6001);
    assert_eq!(sending.activation(), Some((2, 0.5)));
    assert!(sending.stopped.is_none());
}

#[test]
fn paused_receiver_gives_control_back_and_refuses_it() {
    let mut receiving = Receiving::new(CursorMode::Desktop, false);
    receiving.activate(7, 1);
    let released = receiving.released;
    receiving.handle(ReceiverEvent::SecureInput { active: true });
    assert_eq!(receiving.deactivated, Some(Some(0.5)));
    assert_eq!(receiving.released, released + 1);
    receiving.message(InputMessage::Button { generation: 7, button: 1, down: true }, 2);
    receiving.motion(7, 5, 5);
    receiving.handle(ReceiverEvent::Placed {
        at: Some(Point { x: 1, y: 1 }),
        captured: false,
        pressed: KeySnapshot {
            usages: vec![4],
            modifiers: ModifierMask::default(),
            buttons: vec![],
        },
    });
    assert!(receiving.buttons.is_empty() && receiving.keys.is_empty());
    assert_eq!(receiving.cursor, Point { x: 99, y: 50 });

    receiving.deactivated = None;
    receiving.warped = None;
    receiving.activate(8, 3);
    assert_eq!(receiving.deactivated, Some(None));
    assert_eq!(receiving.warped, None);
    receiving.handle(ReceiverEvent::TimeoutTick { now: 3 + HEARTBEAT_TIMEOUT });
    receiving.handle(ReceiverEvent::SecureInput { active: false });
    assert!(receiving.stopped.is_none());
    receiving.activate(9, 4);
    receiving.message(InputMessage::Button { generation: 9, button: 1, down: true }, 5);
    assert_eq!(receiving.buttons, vec![(1, true)]);
}

#[test]
fn refused_handover_comes_back() {
    let mut sending = Sending::new(&options(ScreenEdge::Right));
    let mut receiving = Receiving::new(CursorMode::Desktop, false);
    receiving.handle(ReceiverEvent::SecureInput { active: true });
    sending.motion(4, 0, Some(Point { x: 97, y: 50 }), 10);
    for message in std::mem::take(&mut sending.sent) {
        receiving.message(message, 11);
    }
    assert_eq!(receiving.deactivated, Some(None));
    sending.message(InputMessage::Deactivate { generation: 1, edge_position: None }, 12);
    assert!(!sending.control.is_active());
    assert!(!sending.capture);
    assert_eq!(sending.warped, Some(Point { x: 100 - EDGE_INSET - 1, y: 50 }));
    assert!(sending.stopped.is_none() && receiving.stopped.is_none());
}

#[test]
fn failed_step_restores_the_pointer_where_it_was_armed() {
    let mut sending = Sending::new(&options(ScreenEdge::Right));
    sending.motion(4, 0, Some(Point { x: 97, y: 50 }), 10);
    let armed = sending.control.armed_position();
    assert_eq!(armed, Some(position(0.5)));
    sending.message(
        InputMessage::ReturnRequest { generation: 1, edge_position: position(0.25) },
        20,
    );
    assert_eq!(sending.control.armed_position(), None);
    let actions = sending.control.step_failed(armed);
    assert!(matches!(
        actions[..],
        [SenderAction::Restore { position: at, required: false }] if at == position(0.5)
    ));
    assert!(sending.control.handle(SenderEvent::Abandon).is_empty());

    let mut first = Sending::new(&options(ScreenEdge::Right));
    let armed = first.control.armed_position();
    first.motion(4, 0, Some(Point { x: 97, y: 50 }), 10);
    assert!(first.control.step_failed(armed).is_empty());
    assert!(first.control.handle(SenderEvent::Abandon).is_empty());
}
