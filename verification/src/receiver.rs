//! The receiving end: it takes control when the other end hands it over, injects what it is
//! sent, and asks to give control back when the pointer leaves its desktop.
//!
//! The state machine decides; its caller carries the actions out, in order. An action that is
//! required to succeed and fails ends the session.
//!
//! While the system protects what is typed on this machine, the receiver pauses: it gives
//! control back, refuses to take it, injects nothing, and the session goes on.

use crate::edge;
use crate::edge::EdgeOffset;
use crate::geometry;
use crate::geometry::{DesktopLayout, DisplayRect, Point, ScreenEdge};
use crate::hotkey::ModifierMask;
use crate::incoming::CoalescedMotion;
use crate::movement;
use crate::platform::{NativeEvent, NativeView};
use crate::protocol::{EdgePosition, InputMessage, KeySnapshot, MessageView, SnapshotView};
use crate::sender;
use crate::session::{CursorMode, HEARTBEAT_TIMEOUT};
use vstd::prelude::*;

verus! {

/// Why the receiver stops.
#[derive(Debug)]
pub enum ReceiverStop {
    /// A proof came once more.
    RepeatedProof,
    /// Events of this machine were lost.
    QueueOverflow,
    /// An emergency hotkey may have been lost.
    EmergencyQueueFull,
    /// Injecting input has stopped working.
    InjectionFailed(String),
    /// The other end has been silent for too long.
    HeartbeatTimeout,
    /// It is not known where the pointer is.
    NoCursor,
    /// The pointer could not be put on the desktop.
    WarpFailed,
}

pub enum ReceiverStopView {
    RepeatedProof,
    QueueOverflow,
    EmergencyQueueFull,
    InjectionFailed(Seq<char>),
    HeartbeatTimeout,
    NoCursor,
    WarpFailed,
}

impl View for ReceiverStop {
    type V = ReceiverStopView;

    open spec fn view(&self) -> ReceiverStopView {
        match *self {
            ReceiverStop::RepeatedProof => ReceiverStopView::RepeatedProof,
            ReceiverStop::QueueOverflow => ReceiverStopView::QueueOverflow,
            ReceiverStop::EmergencyQueueFull => ReceiverStopView::EmergencyQueueFull,
            ReceiverStop::InjectionFailed(message) => ReceiverStopView::InjectionFailed(message@),
            ReceiverStop::HeartbeatTimeout => ReceiverStopView::HeartbeatTimeout,
            ReceiverStop::NoCursor => ReceiverStopView::NoCursor,
            ReceiverStop::WarpFailed => ReceiverStopView::WarpFailed,
        }
    }
}

/// What the receiver wants done. All of it is required to succeed but for what says otherwise.
#[allow(inconsistent_fields)]
#[derive(Debug)]
pub enum ReceiverAction {
    /// Queue a heartbeat.
    Heartbeat { generation: u64 },
    /// Queue a request to give control back at the position.
    RequestReturn { generation: u64, at: EdgeOffset },
    /// Queue the message that ends the handover, at the position if it is known. It may fail.
    Deactivate { generation: u64, at: Option<EdgeOffset> },
    ReleaseAll { required: bool },
    /// Put the pointer inside the edge at the position, and report how that went.
    PlaceCursor { edge: ScreenEdge, position: EdgePosition },
    /// Find out where the pointer is, and report it.
    AskCursor,
    InjectKey { usage: u16, modifiers: ModifierMask, down: bool, repeat: bool },
    InjectButton { button: u8, down: bool },
    InjectWheel { x: i32, y: i32 },
    InjectCursor { point: Point },
    InjectMotion { dx: i32, dy: i32 },
    /// End the session.
    Stop(ReceiverStop),
}

#[allow(inconsistent_fields)]
pub enum ReceiverActionView {
    Heartbeat { generation: u64 },
    RequestReturn { generation: u64, at: EdgeOffset },
    Deactivate { generation: u64, at: Option<EdgeOffset> },
    ReleaseAll { required: bool },
    PlaceCursor { edge: ScreenEdge, position: EdgePosition },
    AskCursor,
    InjectKey { usage: u16, modifiers: ModifierMask, down: bool, repeat: bool },
    InjectButton { button: u8, down: bool },
    InjectWheel { x: i32, y: i32 },
    InjectCursor { point: Point },
    InjectMotion { dx: i32, dy: i32 },
    Stop(ReceiverStopView),
}

impl View for ReceiverAction {
    type V = ReceiverActionView;

    open spec fn view(&self) -> ReceiverActionView {
        match *self {
            ReceiverAction::Heartbeat { generation } => ReceiverActionView::Heartbeat {
                generation,
            },
            ReceiverAction::RequestReturn { generation, at } => ReceiverActionView::RequestReturn {
                generation,
                at,
            },
            ReceiverAction::Deactivate { generation, at } => ReceiverActionView::Deactivate {
                generation,
                at,
            },
            ReceiverAction::ReleaseAll { required } => ReceiverActionView::ReleaseAll { required },
            ReceiverAction::PlaceCursor { edge, position } => ReceiverActionView::PlaceCursor {
                edge,
                position,
            },
            ReceiverAction::AskCursor => ReceiverActionView::AskCursor,
            ReceiverAction::InjectKey { usage, modifiers, down, repeat } => {
                ReceiverActionView::InjectKey { usage, modifiers, down, repeat }
            },
            ReceiverAction::InjectButton { button, down } => ReceiverActionView::InjectButton {
                button,
                down,
            },
            ReceiverAction::InjectWheel { x, y } => ReceiverActionView::InjectWheel { x, y },
            ReceiverAction::InjectCursor { point } => ReceiverActionView::InjectCursor { point },
            ReceiverAction::InjectMotion { dx, dy } => ReceiverActionView::InjectMotion { dx, dy },
            ReceiverAction::Stop(reason) => ReceiverActionView::Stop(reason@),
        }
    }
}

/// The contents of a list of actions.
pub open spec fn action_views(actions: Seq<ReceiverAction>) -> Seq<ReceiverActionView> {
    actions.map_values(|a: ReceiverAction| a@)
}

/// What happens to the receiver. Times are in milliseconds.
#[derive(Debug)]
pub enum ReceiverEvent {
    /// The other end has sent a message.
    Message { message: InputMessage, now: u64 },
    /// The pointer was put on the desktop, or could not be. Keys and buttons are those of the
    /// handover; `captured` says whether a program holds the cursor.
    Placed { at: Option<Point>, captured: bool, pressed: KeySnapshot },
    /// It was found out where the pointer is.
    CursorFound { point: Point },
    /// It is time to use the motion that waited.
    MotionTick { motion: Option<CoalescedMotion> },
    /// Something has happened on this machine.
    Native { event: NativeEvent },
    /// It is time to send a heartbeat.
    HeartbeatTick,
    /// It is time to look whether the other end is still there.
    TimeoutTick { now: u64 },
    /// It is time to look whether events were lost.
    OverflowPoll { overflowed: bool },
    /// It is time to look whether a program holds the cursor.
    MonitorTick { captured: bool },
    /// It was found out whether the system protects what is typed on this machine.
    SecureInput { active: bool },
}

pub enum ReceiverEventView {
    Message { message: MessageView, now: u64 },
    Placed { at: Option<Point>, captured: bool, pressed: SnapshotView },
    CursorFound { point: Point },
    MotionTick { motion: Option<CoalescedMotion> },
    Native { event: NativeView },
    HeartbeatTick,
    TimeoutTick { now: u64 },
    OverflowPoll { overflowed: bool },
    MonitorTick { captured: bool },
    SecureInput { active: bool },
}

impl View for ReceiverEvent {
    type V = ReceiverEventView;

    open spec fn view(&self) -> ReceiverEventView {
        match *self {
            ReceiverEvent::Message { message, now } => ReceiverEventView::Message {
                message: message@,
                now,
            },
            ReceiverEvent::Placed { at, captured, pressed } => ReceiverEventView::Placed {
                at,
                captured,
                pressed: pressed@,
            },
            ReceiverEvent::CursorFound { point } => ReceiverEventView::CursorFound { point },
            ReceiverEvent::MotionTick { motion } => ReceiverEventView::MotionTick { motion },
            ReceiverEvent::Native { event } => ReceiverEventView::Native { event: event@ },
            ReceiverEvent::HeartbeatTick => ReceiverEventView::HeartbeatTick,
            ReceiverEvent::TimeoutTick { now } => ReceiverEventView::TimeoutTick { now },
            ReceiverEvent::OverflowPoll { overflowed } => ReceiverEventView::OverflowPoll {
                overflowed,
            },
            ReceiverEvent::MonitorTick { captured } => ReceiverEventView::MonitorTick { captured },
            ReceiverEvent::SecureInput { active } => ReceiverEventView::SecureInput { active },
        }
    }
}

/// The receiving end.
#[derive(Debug)]
pub struct ReceiverControl {
    layout: DesktopLayout,
    mode: CursorMode,
    generation: u64,
    active: bool,
    paused: bool,
    return_edge: ScreenEdge,
    cursor: Option<Point>,
    cursor_mode_active: bool,
    last_heartbeat: u64,
}

/// The state of the receiving end.
pub struct ReceiverView {
    pub displays: Seq<DisplayRect>,
    pub mode: CursorMode,
    /// The number of the last handover.
    pub generation: u64,
    /// Whether this end has control.
    pub active: bool,
    /// Whether the system protects what is typed on this machine.
    pub paused: bool,
    /// The edge through which the pointer goes back.
    pub return_edge: ScreenEdge,
    /// Where the pointer is taken to be.
    pub cursor: Option<Point>,
    /// Whether only movements count at the moment.
    pub game: bool,
    pub last_heartbeat: u64,
}

impl View for ReceiverControl {
    type V = ReceiverView;

    closed spec fn view(&self) -> ReceiverView {
        ReceiverView {
            displays: self.layout@,
            mode: self.mode,
            generation: self.generation,
            active: self.active,
            paused: self.paused,
            return_edge: self.return_edge,
            cursor: self.cursor,
            game: self.cursor_mode_active,
            last_heartbeat: self.last_heartbeat,
        }
    }
}

/// Whether the receiver can work on a desktop: there is a display, and the lengths of the
/// edges fit into 32 bits.
pub open spec fn usable_desktop(displays: Seq<DisplayRect>) -> bool {
    &&& displays.len() > 0
    &&& forall|edge: ScreenEdge| #[trigger] edge::edge_extent(displays, edge) <= i32::MAX
}

/// Tests whether the receiver can work on a desktop.
pub fn is_usable_desktop(layout: &DesktopLayout) -> (r: bool)
    ensures
        r == usable_desktop(layout@),
{
    if layout.displays.len() == 0 {
        return false;
    }
    let left = layout.edge_length(ScreenEdge::Left).is_some();
    let right = layout.edge_length(ScreenEdge::Right).is_some();
    let top = layout.edge_length(ScreenEdge::Top).is_some();
    let bottom = layout.edge_length(ScreenEdge::Bottom).is_some();
    proof {
        assert forall|edge: ScreenEdge| left && right && top && bottom implies #[trigger] edge::edge_extent(layout@, edge) <= i32::MAX by {
            match edge {
                ScreenEdge::Left => {},
                ScreenEdge::Right => {},
                ScreenEdge::Top => {},
                ScreenEdge::Bottom => {},
            }
        }
    }
    left && right && top && bottom
}

/// What a movement leads to on the receiver's desktop.
#[derive(Clone, Copy, Debug, PartialEq, Eq, Structural)]
pub enum ReceiverMotion {
    /// The pointer moves to a point.
    Move(Point),
    /// The pointer leaves through the return edge at a position.
    Return(EdgeOffset),
}

/// The point where a movement ends.
pub open spec fn moved_point(displays: Seq<DisplayRect>, point: Point, dx: int, dy: int) -> Point {
    let (x, y) = movement::moved_within(displays, point, dx, dy);
    Point { x: x as i32, y: y as i32 }
}

/// What a movement leads to: it goes back where it crosses the return edge.
pub open spec fn motion_result(
    displays: Seq<DisplayRect>,
    return_edge: ScreenEdge,
    point: Point,
    dx: int,
    dy: int,
) -> ReceiverMotion {
    if movement::crosses_outer_edge(displays, return_edge, point, dx, dy) {
        ReceiverMotion::Return(edge::offset_on_edge(displays, return_edge, point))
    } else {
        ReceiverMotion::Move(moved_point(displays, point, dx, dy))
    }
}

/// What a movement leads to on the receiver's desktop.
pub fn receiver_motion(layout: &DesktopLayout, return_edge: ScreenEdge, point: Point, dx: i32, dy: i32) -> (r: ReceiverMotion)
    requires
        usable_desktop(layout@),
    ensures
        r == motion_result(layout@, return_edge, point, dx as int, dy as int),
{
    match layout.crossed_outer_edge_position(return_edge, point, dx, dy) {
        Some(at) => ReceiverMotion::Return(at),
        None => ReceiverMotion::Move(layout.move_within_layout(point, dx, dy)),
    }
}

/// The actions that press keys and buttons.
pub open spec fn press_actions(snapshot: SnapshotView) -> Seq<ReceiverActionView> {
    snapshot.usages.map_values(
        |usage: u16|
            ReceiverActionView::InjectKey {
                usage,
                modifiers: snapshot.modifiers,
                down: true,
                repeat: false,
            },
    ) + snapshot.buttons.map_values(
        |button: u8| ReceiverActionView::InjectButton { button, down: true },
    )
}

/// Whether only movements count, by the mode and by whether a program holds the cursor.
pub open spec fn game_for(mode: CursorMode, game: bool, captured: bool) -> bool {
    match mode {
        CursorMode::Desktop => game && captured,
        CursorMode::Auto => captured,
        CursorMode::Game => true,
    }
}

impl ReceiverView {
    /// The other end has control again.
    pub open spec fn released(self) -> ReceiverView {
        ReceiverView { active: false, cursor: None, ..self }
    }

    /// Whether input of the given handover counts.
    pub open spec fn accepts(self, generation: u64) -> bool {
        self.active && generation == self.generation
    }

    pub open spec fn after_motion(self, dx: int, dy: int) -> ReceiverView {
        if self.game || self.cursor is None {
            self
        } else {
            ReceiverView {
                cursor: Some(moved_point(self.displays, self.cursor->0, dx, dy)),
                ..self
            }
        }
    }

    pub open spec fn motion_output(self, dx: i32, dy: i32) -> Seq<ReceiverActionView> {
        if self.game {
            seq![ReceiverActionView::InjectMotion { dx, dy }]
        } else if self.cursor is None {
            seq![ReceiverActionView::Stop(ReceiverStopView::NoCursor)]
        } else {
            let moved = seq![
                ReceiverActionView::InjectCursor {
                    point: moved_point(self.displays, self.cursor->0, dx as int, dy as int),
                },
            ];
            match motion_result(
                self.displays,
                self.return_edge,
                self.cursor->0,
                dx as int,
                dy as int,
            ) {
                ReceiverMotion::Return(at) => moved.push(
                    ReceiverActionView::RequestReturn { generation: self.generation, at },
                ),
                ReceiverMotion::Move(_) => moved,
            }
        }
    }

    pub open spec fn after_message(self, message: MessageView, now: u64) -> ReceiverView {
        match message {
            MessageView::Activate { generation, source_edge, .. } => if generation
                > self.generation {
                ReceiverView {
                    generation,
                    active: !self.paused,
                    return_edge: source_edge.opposite_edge(),
                    last_heartbeat: now,
                    ..self
                }
            } else {
                self
            },
            MessageView::Deactivate { generation, .. } => if generation == self.generation {
                self.released()
            } else {
                self
            },
            MessageView::Return { generation, .. } => if self.accepts(generation) {
                self.released()
            } else {
                self
            },
            MessageView::Heartbeat { generation } => if generation == self.generation {
                ReceiverView { last_heartbeat: now, ..self }
            } else {
                self
            },
            MessageView::Motion { generation, dx, dy } => if self.accepts(generation) {
                self.after_motion(dx as int, dy as int)
            } else {
                self
            },
            _ => self,
        }
    }

    /// What follows once the pointer is where it should be: the keys and buttons of the
    /// handover go down, and the handover is answered.
    pub open spec fn entry_actions(self, pressed: SnapshotView) -> Seq<ReceiverActionView> {
        press_actions(pressed).push(
            ReceiverActionView::Heartbeat { generation: self.generation },
        )
    }

    pub open spec fn message_output(self, message: MessageView, now: u64) -> Seq<ReceiverActionView> {
        let release = seq![ReceiverActionView::ReleaseAll { required: true }];
        match message {
            MessageView::Activate { generation, source_edge, edge_position, pressed } => {
                if generation <= self.generation {
                    Seq::empty()
                } else if self.paused {
                    seq![ReceiverActionView::Deactivate { generation, at: None }]
                } else if self.game {
                    release + self.after_message(message, now).entry_actions(pressed)
                } else {
                    release.push(
                        ReceiverActionView::PlaceCursor {
                            edge: source_edge.opposite_edge(),
                            position: edge_position,
                        },
                    )
                }
            },
            MessageView::Deactivate { generation, .. } => if generation == self.generation {
                release
            } else {
                Seq::empty()
            },
            MessageView::Return { generation, .. } => if self.accepts(generation) {
                release
            } else {
                Seq::empty()
            },
            MessageView::Key { generation, usage, modifiers, down, repeat } => if self.accepts(
                generation,
            ) {
                seq![ReceiverActionView::InjectKey { usage, modifiers, down, repeat }]
            } else {
                Seq::empty()
            },
            MessageView::Button { generation, button, down } => if self.accepts(generation) {
                seq![ReceiverActionView::InjectButton { button, down }]
            } else {
                Seq::empty()
            },
            MessageView::Wheel { generation, x, y } => if self.accepts(generation) {
                seq![ReceiverActionView::InjectWheel { x, y }]
            } else {
                Seq::empty()
            },
            MessageView::Motion { generation, dx, dy } => if self.accepts(generation) {
                self.motion_output(dx, dy)
            } else {
                Seq::empty()
            },
            MessageView::Proof { .. } => seq![
                ReceiverActionView::Stop(ReceiverStopView::RepeatedProof),
            ],
            _ => Seq::empty(),
        }
    }

    /// The state once the pointer was put on the desktop or could not be. With a program
    /// holding the cursor, only movements count from then on. After a pause has begun, the
    /// report comes too late.
    pub open spec fn after_placing(self, at: Option<Point>, captured: bool) -> ReceiverView {
        if self.paused {
            self
        } else {
            match at {
                Some(point) => ReceiverView { cursor: Some(point), ..self },
                None => ReceiverView { game: self.game || captured, ..self },
            }
        }
    }

    pub open spec fn placing_output(self, at: Option<Point>, captured: bool, pressed: SnapshotView) -> Seq<ReceiverActionView> {
        if self.paused {
            Seq::empty()
        } else if at is None && !captured {
            seq![ReceiverActionView::Stop(ReceiverStopView::WarpFailed)]
        } else {
            self.entry_actions(pressed)
        }
    }

    /// Where on the return edge the pointer is.
    pub open spec fn exit_position(self) -> Option<EdgeOffset> {
        match self.cursor {
            Some(point) => Some(edge::offset_on_edge(self.displays, self.return_edge, point)),
            None => None,
        }
    }

    /// What is done to give control back at once.
    pub open spec fn give_back_output(self, required: bool) -> Seq<ReceiverActionView> {
        if self.active {
            seq![
                ReceiverActionView::ReleaseAll { required },
                ReceiverActionView::Deactivate {
                    generation: self.generation,
                    at: self.exit_position(),
                },
            ]
        } else {
            Seq::empty()
        }
    }

    /// With what was found out of the protection of what is typed. Where it is on, control goes
    /// back.
    pub open spec fn after_secure_input(self, active: bool) -> ReceiverView {
        if active && self.active {
            ReceiverView { paused: true, ..self.released() }
        } else {
            ReceiverView { paused: active, ..self }
        }
    }

    pub open spec fn native_output(self, event: NativeView) -> Seq<ReceiverActionView> {
        match event {
            NativeView::Emergency => self.give_back_output(true),
            NativeView::ReliableQueueOverflow => seq![
                ReceiverActionView::Stop(ReceiverStopView::EmergencyQueueFull),
            ],
            NativeView::Failed(message) => seq![
                ReceiverActionView::Stop(ReceiverStopView::InjectionFailed(message)),
            ],
            _ => Seq::empty(),
        }
    }

    /// Whether the pointer has to be found when its position starts to count again.
    pub open spec fn needs_cursor(self, captured: bool) -> bool {
        self.game && !game_for(self.mode, self.game, captured) && self.active && self.cursor is None
    }

    /// Whether the other end has been silent for too long.
    pub open spec fn timed_out(self, now: u64) -> bool {
        self.active && sender::elapsed(self.last_heartbeat, now, HEARTBEAT_TIMEOUT)
    }

    /// The state after an event.
    pub open spec fn after(self, event: ReceiverEventView) -> ReceiverView {
        match event {
            ReceiverEventView::Message { message, now } => self.after_message(message, now),
            ReceiverEventView::Placed { at, captured, .. } => self.after_placing(at, captured),
            ReceiverEventView::CursorFound { point } => ReceiverView {
                cursor: Some(point),
                ..self
            },
            ReceiverEventView::MotionTick { motion } => match motion {
                Some(motion) => if self.accepts(motion.generation) {
                    self.after_motion(motion.dx as int, motion.dy as int)
                } else {
                    self
                },
                None => self,
            },
            ReceiverEventView::Native { event } => if event is Emergency && self.active {
                self.released()
            } else {
                self
            },
            ReceiverEventView::MonitorTick { captured } => ReceiverView {
                game: if self.mode is Game {
                    self.game
                } else {
                    game_for(self.mode, self.game, captured)
                },
                ..self
            },
            ReceiverEventView::SecureInput { active } => self.after_secure_input(active),
            _ => self,
        }
    }

    /// What is done about an event, in order.
    pub open spec fn output(self, event: ReceiverEventView) -> Seq<ReceiverActionView> {
        match event {
            ReceiverEventView::Message { message, now } => self.message_output(message, now),
            ReceiverEventView::Placed { at, captured, pressed } => self.placing_output(
                at,
                captured,
                pressed,
            ),
            ReceiverEventView::CursorFound { .. } => Seq::empty(),
            ReceiverEventView::MotionTick { motion } => match motion {
                Some(motion) => if self.accepts(motion.generation) {
                    self.motion_output(motion.dx, motion.dy)
                } else {
                    Seq::empty()
                },
                None => Seq::empty(),
            },
            ReceiverEventView::Native { event } => self.native_output(event),
            ReceiverEventView::HeartbeatTick => seq![
                ReceiverActionView::Heartbeat { generation: self.generation },
            ],
            ReceiverEventView::TimeoutTick { now } => if self.timed_out(now) {
                seq![
                    ReceiverActionView::ReleaseAll { required: true },
                    ReceiverActionView::Stop(ReceiverStopView::HeartbeatTimeout),
                ]
            } else {
                Seq::empty()
            },
            ReceiverEventView::OverflowPoll { overflowed } => if overflowed {
                seq![
                    ReceiverActionView::ReleaseAll { required: false },
                    ReceiverActionView::Stop(ReceiverStopView::QueueOverflow),
                ]
            } else {
                Seq::empty()
            },
            ReceiverEventView::MonitorTick { captured } => if self.needs_cursor(captured) {
                seq![ReceiverActionView::AskCursor]
            } else {
                Seq::empty()
            },
            ReceiverEventView::SecureInput { active } => if active {
                self.give_back_output(false)
            } else {
                Seq::empty()
            },
        }
    }
}

/// The state in which a receiver starts.
pub open spec fn initial_receiver(displays: Seq<DisplayRect>, mode: CursorMode, captured: bool, now: u64) -> ReceiverView {
    ReceiverView {
        displays,
        mode,
        generation: 0,
        active: false,
        paused: false,
        return_edge: ScreenEdge::Left,
        cursor: None,
        game: match mode {
            CursorMode::Desktop => false,
            CursorMode::Auto => captured,
            CursorMode::Game => true,
        },
        last_heartbeat: now,
    }
}

fn push_press_actions(out: &mut Vec<ReceiverAction>, snapshot: &KeySnapshot)
    ensures
        action_views(final(out)@) == action_views(old(out)@) + press_actions(snapshot@),
{
    let ghost start = action_views(out@);
    let ghost keys = snapshot@.usages.map_values(
        |usage: u16|
            ReceiverActionView::InjectKey {
                usage,
                modifiers: snapshot@.modifiers,
                down: true,
                repeat: false,
            },
    );
    let ghost buttons = snapshot@.buttons.map_values(
        |button: u8| ReceiverActionView::InjectButton { button, down: true },
    );
    let mut i: usize = 0;
    while i < snapshot.usages.len()
        invariant
            i <= snapshot.usages@.len(),
            keys.len() == snapshot.usages@.len(),
            forall|k: int|
                0 <= k < keys.len() ==> #[trigger] keys[k] == (ReceiverActionView::InjectKey {
                    usage: snapshot.usages@[k],
                    modifiers: snapshot.modifiers,
                    down: true,
                    repeat: false,
                }),
            action_views(out@) == start + keys.take(i as int),
        decreases snapshot.usages@.len() - i,
    {
        let ghost before = out@;
        out.push(
            ReceiverAction::InjectKey {
                usage: snapshot.usages[i],
                modifiers: snapshot.modifiers,
                down: true,
                repeat: false,
            },
        );
        assert(action_views(out@) =~= action_views(before).push(keys[i as int]));
        assert(keys.take(i + 1) =~= keys.take(i as int).push(keys[i as int]));
        assert(action_views(out@) =~= start + keys.take(i + 1));
        i += 1;
    }
    assert(keys.take(i as int) =~= keys);
    let mut k: usize = 0;
    assert(start + keys + buttons.take(0) =~= start + keys);
    while k < snapshot.buttons.len()
        invariant
            k <= snapshot.buttons@.len(),
            buttons.len() == snapshot.buttons@.len(),
            forall|j: int|
                0 <= j < buttons.len() ==> #[trigger] buttons[j] == (ReceiverActionView::InjectButton {
                    button: snapshot.buttons@[j],
                    down: true,
                }),
            action_views(out@) == start + keys + buttons.take(k as int),
        decreases snapshot.buttons@.len() - k,
    {
        let ghost before = out@;
        out.push(ReceiverAction::InjectButton { button: snapshot.buttons[k], down: true });
        assert(action_views(out@) =~= action_views(before).push(buttons[k as int]));
        assert(buttons.take(k + 1) =~= buttons.take(k as int).push(buttons[k as int]));
        assert(action_views(out@) =~= start + keys + buttons.take(k + 1));
        k += 1;
    }
    assert(buttons.take(k as int) =~= buttons);
    assert(start + keys + buttons =~= start + press_actions(snapshot@));
}

/// The actions that press the keys and buttons of a snapshot.
pub fn apply_snapshot(snapshot: &KeySnapshot) -> (r: Vec<ReceiverAction>)
    ensures
        action_views(r@) == press_actions(snapshot@),
{
    let mut out: Vec<ReceiverAction> = Vec::new();
    push_press_actions(&mut out, snapshot);
    assert(action_views(out@) =~= press_actions(snapshot@));
    out
}

impl ReceiverControl {
    /// A receiver without control. `captured` says whether a program holds the cursor.
    pub fn new(layout: DesktopLayout, mode: CursorMode, captured: bool, now: u64) -> (r: Self)
        requires
            usable_desktop(layout@),
        ensures
            r@ == initial_receiver(layout@, mode, captured, now),
    {
        ReceiverControl {
            layout,
            mode,
            generation: 0,
            active: false,
            paused: false,
            return_edge: ScreenEdge::Left,
            cursor: None,
            cursor_mode_active: match mode {
                CursorMode::Desktop => false,
                CursorMode::Auto => captured,
                CursorMode::Game => true,
            },
            last_heartbeat: now,
        }
    }

    fn push_entry(&self, pressed: &KeySnapshot, out: &mut Vec<ReceiverAction>)
        ensures
            action_views(final(out)@) == action_views(old(out)@) + self@.entry_actions(pressed@),
    {
        push_press_actions(out, pressed);
        let ghost before = out@;
        out.push(ReceiverAction::Heartbeat { generation: self.generation });
        assert(action_views(out@) =~= action_views(before).push(
            ReceiverActionView::Heartbeat { generation: self.generation },
        ));
        assert(action_views(out@) =~= action_views(old(out)@) + self@.entry_actions(pressed@));
    }

    fn on_motion(&mut self, dx: i32, dy: i32) -> (r: Vec<ReceiverAction>)
        requires
            usable_desktop(old(self)@.displays),
        ensures
            final(self)@ == old(self)@.after_motion(dx as int, dy as int),
            action_views(r@) == old(self)@.motion_output(dx, dy),
    {
        let mut out: Vec<ReceiverAction> = Vec::new();
        let ghost before = self@;
        if self.cursor_mode_active {
            out.push(ReceiverAction::InjectMotion { dx, dy });
        } else {
            match self.cursor {
                None => {
                    out.push(ReceiverAction::Stop(ReceiverStop::NoCursor));
                },
                Some(point) => {
                    let target = self.layout.move_within_layout(point, dx, dy);
                    assert(target == moved_point(before.displays, point, dx as int, dy as int));
                    out.push(ReceiverAction::InjectCursor { point: target });
                    if let ReceiverMotion::Return(at) = receiver_motion(
                        &self.layout,
                        self.return_edge,
                        point,
                        dx,
                        dy,
                    ) {
                        out.push(
                            ReceiverAction::RequestReturn { generation: self.generation, at },
                        );
                    }
                    self.cursor = Some(target);
                },
            }
        }
        assert(action_views(out@) =~= before.motion_output(dx, dy));
        out
    }

    fn release(&mut self)
        ensures
            final(self)@ == old(self)@.released(),
    {
        self.active = false;
        self.cursor = None;
    }

    fn on_message(&mut self, message: InputMessage, now: u64) -> (r: Vec<ReceiverAction>)
        requires
            usable_desktop(old(self)@.displays),
        ensures
            final(self)@ == old(self)@.after_message(message@, now),
            action_views(r@) == old(self)@.message_output(message@, now),
    {
        let mut out: Vec<ReceiverAction> = Vec::new();
        let ghost before = self@;
        let ghost view = message@;
        match message {
            InputMessage::Activate { generation, source_edge, edge_position, pressed } => {
                if generation > self.generation {
                    self.generation = generation;
                    self.active = !self.paused;
                    self.return_edge = source_edge.opposite();
                    self.last_heartbeat = now;
                    if self.paused {
                        out.push(ReceiverAction::Deactivate { generation, at: None });
                        assert(action_views(out@) =~= before.message_output(view, now));
                        return out;
                    }
                    out.push(ReceiverAction::ReleaseAll { required: true });
                    assert(action_views(out@) =~= seq![
                        ReceiverActionView::ReleaseAll { required: true },
                    ]);
                    if self.cursor_mode_active {
                        self.push_entry(&pressed, &mut out);
                    } else {
                        out.push(
                            ReceiverAction::PlaceCursor {
                                edge: self.return_edge,
                                position: edge_position,
                            },
                        );
                    }
                }
            },
            InputMessage::Deactivate { generation, edge_position: _ } => {
                if generation == self.generation {
                    out.push(ReceiverAction::ReleaseAll { required: true });
                    self.release();
                }
            },
            InputMessage::Return { generation, edge_position: _ } => {
                if self.active && generation == self.generation {
                    out.push(ReceiverAction::ReleaseAll { required: true });
                    self.release();
                }
            },
            InputMessage::Heartbeat { generation } => {
                if generation == self.generation {
                    self.last_heartbeat = now;
                }
            },
            InputMessage::Key { generation, usage, modifiers, down, repeat } => {
                if self.active && generation == self.generation {
                    out.push(ReceiverAction::InjectKey { usage, modifiers, down, repeat });
                }
            },
            InputMessage::Button { generation, button, down } => {
                if self.active && generation == self.generation {
                    out.push(ReceiverAction::InjectButton { button, down });
                }
            },
            InputMessage::Wheel { generation, x, y } => {
                if self.active && generation == self.generation {
                    out.push(ReceiverAction::InjectWheel { x, y });
                }
            },
            InputMessage::Motion { generation, dx, dy } => {
                if self.active && generation == self.generation {
                    return self.on_motion(dx, dy);
                }
            },
            InputMessage::Proof { .. } => {
                out.push(ReceiverAction::Stop(ReceiverStop::RepeatedProof));
            },
            _ => {},
        }
        assert(action_views(out@) =~= before.message_output(view, now));
        out
    }

    fn push_giving_back(&mut self, required: bool, out: &mut Vec<ReceiverAction>)
        requires
            usable_desktop(old(self)@.displays),
        ensures
            final(self)@ == if old(self)@.active {
                old(self)@.released()
            } else {
                old(self)@
            },
            action_views(final(out)@) == action_views(old(out)@) + old(self)@.give_back_output(
                required,
            ),
    {
        if self.active {
            let at = match self.cursor {
                Some(point) => Some(self.layout.normalized_edge_position(self.return_edge, point)),
                None => None,
            };
            out.push(ReceiverAction::ReleaseAll { required });
            out.push(ReceiverAction::Deactivate { generation: self.generation, at });
            self.release();
        }
        assert(action_views(out@) =~= action_views(old(out)@) + old(self)@.give_back_output(
            required,
        ));
    }

    fn on_native(&mut self, event: NativeEvent) -> (r: Vec<ReceiverAction>)
        requires
            usable_desktop(old(self)@.displays),
        ensures
            final(self)@ == old(self)@.after(ReceiverEventView::Native { event: event@ }),
            action_views(r@) == old(self)@.native_output(event@),
    {
        let mut out: Vec<ReceiverAction> = Vec::new();
        let ghost before = self@;
        let ghost view = event@;
        match event {
            NativeEvent::Emergency => {
                self.push_giving_back(true, &mut out);
            },
            NativeEvent::ReliableQueueOverflow => {
                out.push(ReceiverAction::Stop(ReceiverStop::EmergencyQueueFull));
            },
            NativeEvent::Failed(message) => {
                out.push(ReceiverAction::Stop(ReceiverStop::InjectionFailed(message)));
            },
            _ => {},
        }
        assert(action_views(out@) =~= before.native_output(view));
        out
    }

    /// Takes in an event and says what is to be done.
    pub fn handle(&mut self, event: ReceiverEvent) -> (r: Vec<ReceiverAction>)
        requires
            usable_desktop(old(self)@.displays),
        ensures
            final(self)@ == old(self)@.after(event@),
            final(self)@.displays == old(self)@.displays,
            action_views(r@) == old(self)@.output(event@),
    {
        let mut out: Vec<ReceiverAction> = Vec::new();
        let ghost before = self@;
        let ghost view = event@;
        match event {
            ReceiverEvent::Message { message, now } => return self.on_message(message, now),
            ReceiverEvent::Placed { at, captured, pressed } => {
                if !self.paused {
                    match at {
                        Some(point) => {
                            self.cursor = Some(point);
                        },
                        None => {
                            if captured {
                                self.cursor_mode_active = true;
                            }
                        },
                    }
                    if at.is_none() && !captured {
                        out.push(ReceiverAction::Stop(ReceiverStop::WarpFailed));
                    } else {
                        self.push_entry(&pressed, &mut out);
                    }
                }
            },
            ReceiverEvent::CursorFound { point } => {
                self.cursor = Some(point);
            },
            ReceiverEvent::MotionTick { motion } => {
                if let Some(motion) = motion {
                    if self.active && motion.generation == self.generation {
                        return self.on_motion(motion.dx, motion.dy);
                    }
                }
            },
            ReceiverEvent::Native { event } => return self.on_native(event),
            ReceiverEvent::HeartbeatTick => {
                out.push(ReceiverAction::Heartbeat { generation: self.generation });
            },
            ReceiverEvent::TimeoutTick { now } => {
                if self.active && sender::has_elapsed(self.last_heartbeat, now, HEARTBEAT_TIMEOUT) {
                    out.push(ReceiverAction::ReleaseAll { required: true });
                    out.push(ReceiverAction::Stop(ReceiverStop::HeartbeatTimeout));
                }
            },
            ReceiverEvent::OverflowPoll { overflowed } => {
                if overflowed {
                    out.push(ReceiverAction::ReleaseAll { required: false });
                    out.push(ReceiverAction::Stop(ReceiverStop::QueueOverflow));
                }
            },
            ReceiverEvent::MonitorTick { captured } => {
                let game = match self.mode {
                    CursorMode::Desktop => self.cursor_mode_active && captured,
                    CursorMode::Auto => captured,
                    CursorMode::Game => self.cursor_mode_active,
                };
                if self.cursor_mode_active && !game && self.active && self.cursor.is_none() {
                    out.push(ReceiverAction::AskCursor);
                }
                self.cursor_mode_active = game;
            },
            ReceiverEvent::SecureInput { active } => {
                if active {
                    self.push_giving_back(false, &mut out);
                }
                self.paused = active;
            },
        }
        assert(action_views(out@) =~= before.output(view));
        out
    }
}

} // verus!
