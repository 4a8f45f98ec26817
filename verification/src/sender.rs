//! The sending end: it watches the pointer, hands control to the other end when the pointer
//! leaves the desktop, forwards input, and takes control back.
//!
//! The state machine decides; its caller carries the actions out, in order. An action that is
//! required to succeed and fails ends the session, and `step_failed` says what is done then. A
//! session that ends in another way is abandoned.
//!
//! While the system protects what is typed on this machine, the sender pauses: it takes control
//! back, hands none over, and the session goes on.

use crate::edge;
use crate::edge::EdgeOffset;
use crate::geometry;
use crate::geometry::{DesktopLayout, DisplayRect, Point, ScreenEdge};
use crate::mapping;
use crate::mapping::{InputPlatform, KeyMapper, MapperView, MappingError};
use crate::movement;
use crate::platform::{MotionSample, NativeEvent, NativeView};
use crate::pressed;
use crate::pressed::{PressedState, PressedView};
use crate::protocol::{EdgePosition, InputMessage, KeySnapshot, MessageView, SnapshotView};
use crate::scroll;
use crate::scroll::ScrollTransformer;
use crate::session::{InputRuntimeOptions, ACTIVATION_TIMEOUT, HEARTBEAT_TIMEOUT, JUMP_ZONE_SIZE, RETURN_COOLDOWN};
use vstd::prelude::*;

verus! {

/// Why the sender stops.
#[derive(Debug)]
pub enum SenderStop {
    /// A proof came once more.
    RepeatedProof,
    /// Events of this machine were lost.
    QueueOverflow,
    /// Capturing input has stopped working.
    CaptureFailed(String),
    /// The other end has been silent for too long.
    HeartbeatTimeout,
}

pub enum SenderStopView {
    RepeatedProof,
    QueueOverflow,
    CaptureFailed(Seq<char>),
    HeartbeatTimeout,
}

impl View for SenderStop {
    type V = SenderStopView;

    open spec fn view(&self) -> SenderStopView {
        match *self {
            SenderStop::RepeatedProof => SenderStopView::RepeatedProof,
            SenderStop::QueueOverflow => SenderStopView::QueueOverflow,
            SenderStop::CaptureFailed(message) => SenderStopView::CaptureFailed(message@),
            SenderStop::HeartbeatTimeout => SenderStopView::HeartbeatTimeout,
        }
    }
}

/// What the sender wants done.
#[derive(Debug)]
pub enum SenderAction {
    /// Queue a message. Without room for it the session ends.
    Send(InputMessage),
    /// Queue a message if there is room.
    TrySend(InputMessage),
    /// Put the pointer back inside the edge at the position, then stop capturing.
    Restore { position: EdgePosition, required: bool },
    SetCapture { active: bool, required: bool },
    /// Find out where the pointer is, and then see whether it leaves the desktop there.
    AskCursor { dx: i32, dy: i32 },
    /// See whether the pointer leaves the desktop.
    Consider { point: Point, dx: i32, dy: i32 },
    /// End the session.
    Stop(SenderStop),
}

pub enum SenderActionView {
    Send(MessageView),
    TrySend(MessageView),
    Restore { position: EdgePosition, required: bool },
    SetCapture { active: bool, required: bool },
    AskCursor { dx: i32, dy: i32 },
    Consider { point: Point, dx: i32, dy: i32 },
    Stop(SenderStopView),
}

impl View for SenderAction {
    type V = SenderActionView;

    open spec fn view(&self) -> SenderActionView {
        match *self {
            SenderAction::Send(message) => SenderActionView::Send(message@),
            SenderAction::TrySend(message) => SenderActionView::TrySend(message@),
            SenderAction::Restore { position, required } => SenderActionView::Restore {
                position,
                required,
            },
            SenderAction::SetCapture { active, required } => SenderActionView::SetCapture {
                active,
                required,
            },
            SenderAction::AskCursor { dx, dy } => SenderActionView::AskCursor { dx, dy },
            SenderAction::Consider { point, dx, dy } => SenderActionView::Consider {
                point,
                dx,
                dy,
            },
            SenderAction::Stop(reason) => SenderActionView::Stop(reason@),
        }
    }
}

/// The contents of a list of actions.
pub open spec fn action_views(actions: Seq<SenderAction>) -> Seq<SenderActionView> {
    actions.map_values(|a: SenderAction| a@)
}

/// What happens to the sender. Times are in milliseconds.
#[derive(Debug)]
pub enum SenderEvent {
    /// The other end has sent a message.
    Message { message: InputMessage, now: u64 },
    /// Something has happened on this machine.
    Native { event: NativeEvent, now: u64 },
    /// It is time to look at the pointer.
    Motion { sample: MotionSample, now: u64 },
    /// The pointer leaves the desktop at the position, with these keys and buttons down.
    Activate { position: EdgePosition, held: KeySnapshot, now: u64 },
    /// It is time to send a heartbeat.
    HeartbeatTick,
    /// It is time to look whether events were lost.
    OverflowPoll { overflowed: bool },
    /// It is time to look whether the other end is still there.
    TimeoutTick { now: u64 },
    /// It was found out whether the system protects what is typed on this machine.
    SecureInput { active: bool, now: u64 },
    /// The session ends.
    Abandon,
}

pub enum SenderEventView {
    Message { message: MessageView, now: u64 },
    Native { event: NativeView, now: u64 },
    Motion { sample: MotionSample, now: u64 },
    Activate { position: EdgePosition, held: SnapshotView, now: u64 },
    HeartbeatTick,
    OverflowPoll { overflowed: bool },
    TimeoutTick { now: u64 },
    SecureInput { active: bool, now: u64 },
    Abandon,
}

impl View for SenderEvent {
    type V = SenderEventView;

    open spec fn view(&self) -> SenderEventView {
        match *self {
            SenderEvent::Message { message, now } => SenderEventView::Message {
                message: message@,
                now,
            },
            SenderEvent::Native { event, now } => SenderEventView::Native { event: event@, now },
            SenderEvent::Motion { sample, now } => SenderEventView::Motion { sample, now },
            SenderEvent::Activate { position, held, now } => SenderEventView::Activate {
                position,
                held: held@,
                now,
            },
            SenderEvent::HeartbeatTick => SenderEventView::HeartbeatTick,
            SenderEvent::OverflowPoll { overflowed } => SenderEventView::OverflowPoll {
                overflowed,
            },
            SenderEvent::TimeoutTick { now } => SenderEventView::TimeoutTick { now },
            SenderEvent::SecureInput { active, now } => SenderEventView::SecureInput {
                active,
                now,
            },
            SenderEvent::Abandon => SenderEventView::Abandon,
        }
    }
}

/// What stays the same while the sender runs.
#[derive(Clone, Copy, Debug, PartialEq, Eq, Structural)]
pub struct SenderSetup {
    pub edge: ScreenEdge,
    pub local: InputPlatform,
    pub remote: InputPlatform,
    pub block_switch_on_press: bool,
    pub reverse_mouse_wheel: bool,
    pub reverse_trackpad: bool,
    pub scroll: ScrollTransformer,
}

/// The sending end.
#[derive(Debug)]
pub struct SenderControl {
    setup: SenderSetup,
    generation: u64,
    active: bool,
    paused: bool,
    activation_confirmed: bool,
    recovery: Option<EdgePosition>,
    cooldown_until: u64,
    local_pressed: PressedState,
    pending_return_request: Option<(u64, EdgePosition)>,
    last_heartbeat: u64,
    key_mapper: KeyMapper,
}

/// The state of the sending end.
pub struct SenderView {
    pub setup: SenderSetup,
    /// The number of the current or last handover.
    pub generation: u64,
    /// Whether the other end has control.
    pub active: bool,
    /// Whether the system protects what is typed on this machine.
    pub paused: bool,
    /// Whether the other end has answered since it was given control.
    pub confirmed: bool,
    /// Where the pointer is put back when the session ends.
    pub recovery: Option<EdgePosition>,
    pub cooldown_until: u64,
    /// The keys and buttons that are down on this machine.
    pub pressed: PressedView,
    /// A return that waits for all keys and buttons to be released.
    pub pending_return: Option<(u64, EdgePosition)>,
    pub last_heartbeat: u64,
    pub mapper: MapperView,
}

impl View for SenderControl {
    type V = SenderView;

    closed spec fn view(&self) -> SenderView {
        SenderView {
            setup: self.setup,
            generation: self.generation,
            active: self.active,
            paused: self.paused,
            confirmed: self.activation_confirmed,
            recovery: self.recovery,
            cooldown_until: self.cooldown_until,
            pressed: self.local_pressed@,
            pending_return: self.pending_return_request,
            last_heartbeat: self.last_heartbeat,
            mapper: self.key_mapper@,
        }
    }
}

/// The number of the next handover. It is never zero.
pub open spec fn next_generation(generation: u64) -> u64 {
    if generation == u64::MAX {
        1
    } else {
        (generation + 1) as u64
    }
}

/// A time that is later by `wait`, at most the last one.
pub open spec fn later(now: u64, wait: u64) -> u64 {
    if now + wait > u64::MAX {
        u64::MAX
    } else {
        (now + wait) as u64
    }
}

/// Whether at least `limit` has passed since a time.
pub open spec fn elapsed(since: u64, now: u64, limit: u64) -> bool {
    limit == 0 || now - since >= limit
}

/// How long the sender waits for the other end.
pub open spec fn heartbeat_limit(confirmed: bool) -> u64 {
    if confirmed {
        HEARTBEAT_TIMEOUT
    } else {
        ACTIVATION_TIMEOUT
    }
}

/// The action that puts the pointer back, if there is a position for it.
pub open spec fn restore_at(position: Option<EdgePosition>) -> Seq<SenderActionView> {
    match position {
        Some(position) => seq![SenderActionView::Restore { position, required: false }],
        None => Seq::empty(),
    }
}

impl SenderView {
    /// The message that ends the current handover at once.
    pub open spec fn deactivate_message(self) -> MessageView {
        MessageView::Deactivate { generation: self.generation, edge_position: None }
    }

    /// Control is back on this machine.
    pub open spec fn deactivated(self, now: u64) -> SenderView {
        SenderView {
            active: false,
            confirmed: false,
            recovery: None,
            cooldown_until: later(now, RETURN_COOLDOWN),
            pending_return: None,
            ..self
        }
    }

    /// The session has ended.
    pub open spec fn abandoned(self) -> SenderView {
        SenderView { recovery: None, ..self }
    }

    /// What is done when control returns at the other end's request.
    pub open spec fn return_actions(self, position: EdgePosition) -> Seq<SenderActionView> {
        seq![
            SenderActionView::Send(
                MessageView::Return { generation: self.generation, edge_position: position },
            ),
            SenderActionView::Restore { position, required: true },
        ]
    }

    /// Whether a return that was asked for has to wait.
    pub open spec fn return_waits(self) -> bool {
        self.setup.block_switch_on_press && !self.pressed.nothing()
    }

    pub open spec fn after_message(self, message: MessageView, now: u64) -> SenderView {
        match message {
            MessageView::ReturnRequest { generation, edge_position } => if self.active && generation
                == self.generation {
                if self.return_waits() {
                    SenderView {
                        pending_return: Some((self.generation, edge_position)),
                        ..self
                    }
                } else {
                    self.deactivated(now)
                }
            } else {
                self
            },
            MessageView::Deactivate { generation, .. } => if self.active && generation
                == self.generation {
                SenderView { mapper: self.mapper.released(), ..self.deactivated(now) }
            } else {
                self
            },
            MessageView::Heartbeat { generation } => if !self.active || generation
                == self.generation {
                SenderView {
                    last_heartbeat: now,
                    confirmed: self.active || self.confirmed,
                    ..self
                }
            } else {
                self
            },
            _ => self,
        }
    }

    pub open spec fn message_output(self, message: MessageView) -> Seq<SenderActionView> {
        match message {
            MessageView::ReturnRequest { generation, edge_position } => if self.active && generation
                == self.generation && !self.return_waits() {
                self.return_actions(edge_position)
            } else {
                Seq::empty()
            },
            MessageView::Deactivate { generation, edge_position } => if self.active && generation
                == self.generation {
                restore_at(
                    if edge_position is Some {
                        edge_position
                    } else {
                        self.recovery
                    },
                )
            } else {
                Seq::empty()
            },
            MessageView::Proof { .. } => seq![SenderActionView::Stop(SenderStopView::RepeatedProof)],
            _ => Seq::empty(),
        }
    }

    /// A return that waited happens once nothing is down any more.
    pub open spec fn return_is_due(self) -> bool {
        self.pressed.nothing() && self.pending_return is Some
    }

    pub open spec fn settled(self, now: u64) -> SenderView {
        if self.return_is_due() {
            self.deactivated(now)
        } else {
            self
        }
    }

    pub open spec fn settle_output(self) -> Seq<SenderActionView> {
        if self.return_is_due() {
            self.return_actions((self.pending_return->0).1)
        } else {
            Seq::empty()
        }
    }

    /// With one key event taken note of.
    pub open spec fn noting_key(self, usage: u16, down: bool, repeat: bool) -> SenderView {
        SenderView {
            pressed: self.pressed.with_key(usage, down, repeat),
            mapper: self.mapper.after_key(usage, down, repeat),
            ..self
        }
    }

    /// With one button event taken note of.
    pub open spec fn noting_button(self, button: u8, down: bool) -> SenderView {
        SenderView { pressed: self.pressed.with_button(button, down), ..self }
    }

    /// Control was taken back at once.
    pub open spec fn taken_back(self, now: u64) -> SenderView {
        if self.active {
            SenderView { mapper: self.mapper.released(), ..self.deactivated(now) }
        } else {
            self
        }
    }

    /// What is done to take control back at once.
    pub open spec fn take_back_output(self) -> Seq<SenderActionView> {
        if self.active {
            restore_at(self.recovery) + seq![SenderActionView::TrySend(self.deactivate_message())]
        } else {
            Seq::empty()
        }
    }

    /// With what was found out of the protection of what is typed. Where it is on, control comes
    /// back.
    pub open spec fn after_secure_input(self, active: bool, now: u64) -> SenderView {
        if active {
            SenderView { paused: true, ..self.taken_back(now) }
        } else {
            SenderView { paused: false, ..self }
        }
    }

    pub open spec fn secure_input_output(self, active: bool) -> Seq<SenderActionView> {
        if active {
            self.take_back_output()
        } else {
            Seq::empty()
        }
    }

    pub open spec fn after_native(self, event: NativeView, now: u64) -> SenderView {
        if !self.active {
            self
        } else {
            match event {
                NativeView::Emergency => self.taken_back(now),
                NativeView::Key { usage, down, repeat, .. } => self.noting_key(
                    usage,
                    down,
                    repeat,
                ).settled(now),
                NativeView::Button { button, down } => self.noting_button(button, down).settled(now),
                NativeView::ReliableQueueOverflow => SenderView { recovery: None, ..self },
                _ => self,
            }
        }
    }

    /// What is sent for a key event, if anything.
    pub open spec fn key_messages(self, usage: u16, down: bool, repeat: bool) -> Seq<SenderActionView> {
        match self.mapper.key_output(usage, down, repeat) {
            Some(key) => seq![
                SenderActionView::Send(
                    MessageView::Key {
                        generation: self.generation,
                        usage: key.usage,
                        modifiers: key.modifiers,
                        down: key.down,
                        repeat: key.repeat,
                    },
                ),
            ],
            None => Seq::empty(),
        }
    }

    /// The scroll amounts that are sent.
    pub open spec fn wheel_amounts(self, x: int, y: int, source: crate::platform::ScrollSource) -> (int, int) {
        scroll::directed(
            scroll::natively_converted(
                self.setup.scroll,
                x,
                source,
                self.setup.local,
                self.setup.remote,
            ),
            scroll::natively_converted(
                self.setup.scroll,
                y,
                source,
                self.setup.local,
                self.setup.remote,
            ),
            source,
            self.setup.local,
            self.setup.remote,
            self.setup.reverse_mouse_wheel,
            self.setup.reverse_trackpad,
        )
    }

    /// What is done when events were lost.
    pub open spec fn overflow_output(self) -> Seq<SenderActionView> {
        let stop = seq![SenderActionView::Stop(SenderStopView::QueueOverflow)];
        if self.active {
            restore_at(self.recovery) + seq![SenderActionView::TrySend(self.deactivate_message())]
                + stop
        } else {
            stop
        }
    }

    pub open spec fn native_output(self, event: NativeView) -> Seq<SenderActionView> {
        match event {
            NativeView::ReliableQueueOverflow => self.overflow_output(),
            NativeView::Failed(message) => seq![
                SenderActionView::Stop(SenderStopView::CaptureFailed(message)),
            ],
            NativeView::Emergency => self.take_back_output(),
            NativeView::Key { usage, down, repeat, .. } => if self.active {
                self.key_messages(usage, down, repeat) + self.noting_key(
                    usage,
                    down,
                    repeat,
                ).settle_output()
            } else {
                Seq::empty()
            },
            NativeView::Button { button, down } => if self.active {
                seq![
                    SenderActionView::Send(
                        MessageView::Button { generation: self.generation, button, down },
                    ),
                ] + self.noting_button(button, down).settle_output()
            } else {
                Seq::empty()
            },
            NativeView::Wheel { x, y, source } => if self.active {
                let (wx, wy) = self.wheel_amounts(x as int, y as int, source);
                seq![
                    SenderActionView::Send(
                        MessageView::Wheel {
                            generation: self.generation,
                            x: wx as i32,
                            y: wy as i32,
                        },
                    ),
                ]
            } else {
                Seq::empty()
            },
            NativeView::SecureDesktop { .. } => Seq::empty(),
        }
    }

    pub open spec fn motion_output(self, sample: MotionSample, now: u64) -> Seq<SenderActionView> {
        let moved = sample.dx != 0 || sample.dy != 0;
        if self.active {
            if moved {
                seq![
                    SenderActionView::Send(
                        MessageView::Motion {
                            generation: self.generation,
                            dx: sample.dx,
                            dy: sample.dy,
                        },
                    ),
                ]
            } else {
                Seq::empty()
            }
        } else if self.paused || now < self.cooldown_until {
            Seq::empty()
        } else if sample.position_updated && sample.position is Some {
            seq![
                SenderActionView::Consider {
                    point: sample.position->0,
                    dx: sample.dx,
                    dy: sample.dy,
                },
            ]
        } else if moved {
            seq![SenderActionView::AskCursor { dx: sample.dx, dy: sample.dy }]
        } else {
            Seq::empty()
        }
    }

    /// Whether the pointer may leave the desktop with these keys and buttons down.
    pub open spec fn may_activate(self, held: SnapshotView) -> bool {
        !self.active && !self.paused && (!self.setup.block_switch_on_press || held.nothing_down())
    }

    pub open spec fn after_activation(self, position: EdgePosition, held: SnapshotView, now: u64) -> SenderView {
        if self.may_activate(held) {
            SenderView {
                setup: self.setup,
                generation: next_generation(self.generation),
                active: true,
                paused: false,
                confirmed: false,
                recovery: Some(position),
                cooldown_until: self.cooldown_until,
                pressed: pressed::pressed_in(held),
                pending_return: None,
                last_heartbeat: now,
                mapper: self.mapper.released().with_all_pressed(held.usages),
            }
        } else {
            self
        }
    }

    pub open spec fn activation_output(self, position: EdgePosition, held: SnapshotView) -> Seq<SenderActionView> {
        if self.may_activate(held) {
            seq![
                SenderActionView::Send(
                    MessageView::Activate {
                        generation: next_generation(self.generation),
                        source_edge: self.setup.edge,
                        edge_position: position,
                        pressed: self.mapper.snapshot_output(held),
                    },
                ),
                SenderActionView::SetCapture { active: true, required: true },
            ]
        } else {
            Seq::empty()
        }
    }

    /// Whether the other end has been silent for too long.
    pub open spec fn timed_out(self, now: u64) -> bool {
        self.active && elapsed(self.last_heartbeat, now, heartbeat_limit(self.confirmed))
    }

    /// The state after an event.
    pub open spec fn after(self, event: SenderEventView) -> SenderView {
        match event {
            SenderEventView::Message { message, now } => self.after_message(message, now),
            SenderEventView::Native { event, now } => self.after_native(event, now),
            SenderEventView::Motion { .. } => self,
            SenderEventView::Activate { position, held, now } => self.after_activation(
                position,
                held,
                now,
            ),
            SenderEventView::HeartbeatTick => self,
            SenderEventView::OverflowPoll { overflowed } => if overflowed && self.active {
                SenderView { recovery: None, ..self }
            } else {
                self
            },
            SenderEventView::TimeoutTick { .. } => self,
            SenderEventView::SecureInput { active, now } => self.after_secure_input(active, now),
            SenderEventView::Abandon => self.abandoned(),
        }
    }

    /// What is done about an event, in order.
    pub open spec fn output(self, event: SenderEventView) -> Seq<SenderActionView> {
        match event {
            SenderEventView::Message { message, .. } => self.message_output(message),
            SenderEventView::Native { event, .. } => self.native_output(event),
            SenderEventView::Motion { sample, now } => self.motion_output(sample, now),
            SenderEventView::Activate { position, held, .. } => self.activation_output(
                position,
                held,
            ),
            SenderEventView::HeartbeatTick => seq![
                SenderActionView::Send(MessageView::Heartbeat { generation: self.generation }),
            ],
            SenderEventView::OverflowPoll { overflowed } => if overflowed {
                self.overflow_output()
            } else {
                Seq::empty()
            },
            SenderEventView::TimeoutTick { now } => if self.timed_out(now) {
                seq![
                    SenderActionView::SetCapture { active: false, required: false },
                    SenderActionView::Stop(SenderStopView::HeartbeatTimeout),
                ]
            } else {
                Seq::empty()
            },
            SenderEventView::SecureInput { active, .. } => self.secure_input_output(active),
            SenderEventView::Abandon => restore_at(self.recovery),
        }
    }
}

/// How long the sender waits for the other end.
pub fn sender_heartbeat_timeout(activation_confirmed: bool) -> (r: u64)
    ensures
        r == heartbeat_limit(activation_confirmed),
{
    if activation_confirmed {
        HEARTBEAT_TIMEOUT
    } else {
        ACTIVATION_TIMEOUT
    }
}

pub(crate) fn has_elapsed(since: u64, now: u64, limit: u64) -> (r: bool)
    ensures
        r == elapsed(since, now, limit),
{
    let passed: u64 = if now > since {
        now - since
    } else {
        0
    };
    passed >= limit
}

/// Whether the pointer leaves the desktop at the edge: it stands in the outermost pixels, or
/// moves across the edge.
pub open spec fn leaves_desktop(displays: Seq<DisplayRect>, edge: ScreenEdge, point: Point, dx: int, dy: int) -> bool {
    geometry::near_outer_edge(displays, edge, point, JUMP_ZONE_SIZE - 1)
        || movement::crosses_outer_edge(displays, edge, point, dx, dy)
}

/// The position on the edge at which the pointer leaves the desktop, if it does.
pub fn sender_activation_edge_position(
    layout: &DesktopLayout,
    edge: ScreenEdge,
    point: Point,
    dx: i32,
    dy: i32,
) -> (r: Option<EdgeOffset>)
    requires
        edge::edge_extent(layout@, edge) <= i32::MAX,
    ensures
        r == if leaves_desktop(layout@, edge, point, dx as int, dy as int) {
            Some(edge::offset_on_edge(layout@, edge, point))
        } else {
            None
        },
{
    if layout.is_jump_zone_point(edge, point, JUMP_ZONE_SIZE) {
        Some(layout.normalized_edge_position(edge, point))
    } else {
        layout.crossed_outer_edge_position(edge, point, dx, dy)
    }
}

impl SenderControl {
    /// A sender with control on this machine.
    pub fn new(
        options: &InputRuntimeOptions,
        edge: ScreenEdge,
        local: InputPlatform,
        remote: InputPlatform,
        now: u64,
    ) -> (r: Result<Self, MappingError>)
        ensures
            match r {
                Ok(control) => {
                    &&& mapping::direction(
                        options.key_mapping.macos_to_windows@,
                        options.key_mapping.windows_to_macos@,
                        local,
                        remote,
                    ) == Ok::<Map<u16, u16>, MappingError>(control@.mapper.mapping)
                    &&& control@ == initial_sender(
                        setup_of(*options, edge, local, remote),
                        control@.mapper.mapping,
                        now,
                    )
                },
                Err(error) => mapping::direction(
                    options.key_mapping.macos_to_windows@,
                    options.key_mapping.windows_to_macos@,
                    local,
                    remote,
                ) == Err::<Map<u16, u16>, MappingError>(error),
            },
    {
        let key_mapper = match KeyMapper::new(&options.key_mapping, local, remote) {
            Ok(mapper) => mapper,
            Err(error) => return Err(error),
        };
        Ok(
            SenderControl {
                setup: SenderSetup {
                    edge,
                    local,
                    remote,
                    block_switch_on_press: options.block_switch_on_press,
                    reverse_mouse_wheel: options.reverse_mouse_wheel,
                    reverse_trackpad: options.reverse_trackpad,
                    scroll: ScrollTransformer::new(
                        options.native_scroll_macos_to_windows,
                        options.native_scroll_windows_to_macos,
                    ),
                },
                generation: 0,
                active: false,
                paused: false,
                activation_confirmed: false,
                recovery: None,
                cooldown_until: now,
                local_pressed: PressedState::default(),
                pending_return_request: None,
                last_heartbeat: now,
                key_mapper,
            },
        )
    }

    fn deactivate(&mut self, now: u64)
        ensures
            final(self)@ == old(self)@.deactivated(now),
    {
        self.active = false;
        self.activation_confirmed = false;
        self.recovery = None;
        self.cooldown_until = if now > u64::MAX - RETURN_COOLDOWN {
            u64::MAX
        } else {
            now + RETURN_COOLDOWN
        };
        self.pending_return_request = None;
    }

    /// Takes the armed position, and gives the action that restores the pointer there.
    fn push_recovery(&mut self, at: Option<EdgePosition>, out: &mut Vec<SenderAction>)
        ensures
            final(self)@ == (SenderView { recovery: None, ..old(self)@ }),
            action_views(final(out)@) == action_views(old(out)@) + restore_at(
                if at is Some {
                    at
                } else {
                    old(self)@.recovery
                },
            ),
    {
        let position = match at {
            Some(position) => Some(position),
            None => self.recovery,
        };
        self.recovery = None;
        if let Some(position) = position {
            out.push(SenderAction::Restore { position, required: false });
        }
        assert(action_views(out@) =~= action_views(old(out)@) + restore_at(position));
    }

    fn push_return(&mut self, position: EdgePosition, now: u64, out: &mut Vec<SenderAction>)
        ensures
            final(self)@ == old(self)@.deactivated(now),
            action_views(final(out)@) == action_views(old(out)@) + old(self)@.return_actions(
                position,
            ),
    {
        out.push(
            SenderAction::Send(
                InputMessage::Return { generation: self.generation, edge_position: position },
            ),
        );
        out.push(SenderAction::Restore { position, required: true });
        self.deactivate(now);
        assert(action_views(out@) =~= action_views(old(out)@) + old(self)@.return_actions(position));
    }

    fn settle(&mut self, now: u64, out: &mut Vec<SenderAction>)
        ensures
            final(self)@ == old(self)@.settled(now),
            action_views(final(out)@) == action_views(old(out)@) + old(self)@.settle_output(),
    {
        assert(action_views(out@) + Seq::<SenderActionView>::empty() =~= action_views(out@));
        if self.local_pressed.is_empty() {
            if let Some((_, position)) = self.pending_return_request {
                self.push_return(position, now, out);
            }
        }
    }

    fn on_message(&mut self, message: InputMessage, now: u64) -> (r: Vec<SenderAction>)
        ensures
            final(self)@ == old(self)@.after_message(message@, now),
            action_views(r@) == old(self)@.message_output(message@),
    {
        let mut out: Vec<SenderAction> = Vec::new();
        let ghost before = self@;
        let ghost view = message@;
        match message {
            InputMessage::ReturnRequest { generation, edge_position } => {
                if self.active && generation == self.generation {
                    if self.setup.block_switch_on_press && !self.local_pressed.is_empty() {
                        self.pending_return_request = Some((self.generation, edge_position));
                    } else {
                        self.push_return(edge_position, now, &mut out);
                    }
                }
            },
            InputMessage::Deactivate { generation, edge_position } => {
                if self.active && generation == self.generation {
                    self.push_recovery(edge_position, &mut out);
                    self.deactivate(now);
                    self.key_mapper.clear();
                }
            },
            InputMessage::Heartbeat { generation } => {
                if !self.active || generation == self.generation {
                    self.last_heartbeat = now;
                    if self.active {
                        self.activation_confirmed = true;
                    }
                }
            },
            InputMessage::Proof { .. } => {
                out.push(SenderAction::Stop(SenderStop::RepeatedProof));
            },
            _ => {},
        }
        assert(action_views(out@) =~= before.message_output(view));
        out
    }

    fn push_overflow(&mut self, out: &mut Vec<SenderAction>)
        ensures
            final(self)@ == if old(self)@.active {
                SenderView { recovery: None, ..old(self)@ }
            } else {
                old(self)@
            },
            action_views(final(out)@) == action_views(old(out)@) + old(self)@.overflow_output(),
    {
        let ghost held = restore_at(old(self)@.recovery);
        if self.active {
            self.push_recovery(None, out);
            assert(action_views(out@) == action_views(old(out)@) + held);
            let ghost restored = out@;
            out.push(
                SenderAction::TrySend(
                    InputMessage::Deactivate { generation: self.generation, edge_position: None },
                ),
            );
            assert(action_views(out@) =~= action_views(restored).push(
                SenderActionView::TrySend(old(self)@.deactivate_message()),
            ));
        }
        let ghost told = out@;
        out.push(SenderAction::Stop(SenderStop::QueueOverflow));
        assert(action_views(out@) =~= action_views(told).push(
            SenderActionView::Stop(SenderStopView::QueueOverflow),
        ));
        assert(action_views(out@) =~= action_views(old(out)@) + old(self)@.overflow_output());
    }

    fn push_taking_back(&mut self, now: u64, out: &mut Vec<SenderAction>)
        ensures
            final(self)@ == old(self)@.taken_back(now),
            action_views(final(out)@) == action_views(old(out)@) + old(self)@.take_back_output(),
    {
        let ghost held = restore_at(old(self)@.recovery);
        if self.active {
            self.push_recovery(None, out);
            assert(action_views(out@) == action_views(old(out)@) + held);
            let ghost restored = out@;
            self.deactivate(now);
            self.key_mapper.clear();
            out.push(
                SenderAction::TrySend(
                    InputMessage::Deactivate { generation: self.generation, edge_position: None },
                ),
            );
            assert(action_views(out@) =~= action_views(restored).push(
                SenderActionView::TrySend(old(self)@.deactivate_message()),
            ));
        }
        assert(action_views(out@) =~= action_views(old(out)@) + old(self)@.take_back_output());
    }

    fn on_native(&mut self, event: NativeEvent, now: u64) -> (r: Vec<SenderAction>)
        ensures
            final(self)@ == old(self)@.after_native(event@, now),
            action_views(r@) == old(self)@.native_output(event@),
    {
        let mut out: Vec<SenderAction> = Vec::new();
        let ghost before = self@;
        let ghost view = event@;
        match event {
            NativeEvent::Emergency => {
                self.push_taking_back(now, &mut out);
            },
            NativeEvent::Key { usage, modifiers: _, down, repeat } => {
                if self.active {
                    self.local_pressed.key(usage, down, repeat);
                    if let Some(key) = self.key_mapper.map_key(usage, down, repeat) {
                        out.push(
                            SenderAction::Send(
                                InputMessage::Key {
                                    generation: self.generation,
                                    usage: key.usage,
                                    modifiers: key.modifiers,
                                    down: key.down,
                                    repeat: key.repeat,
                                },
                            ),
                        );
                    }
                    assert(action_views(out@) =~= before.key_messages(usage, down, repeat));
                    self.settle(now, &mut out);
                }
            },
            NativeEvent::Button { button, down } => {
                if self.active {
                    self.local_pressed.button(button, down);
                    out.push(
                        SenderAction::Send(
                            InputMessage::Button { generation: self.generation, button, down },
                        ),
                    );
                    assert(action_views(out@) =~= seq![
                        SenderActionView::Send(
                            MessageView::Button { generation: before.generation, button, down },
                        ),
                    ]);
                    self.settle(now, &mut out);
                }
            },
            NativeEvent::Wheel { x, y, source } => {
                if self.active {
                    let (x, y) = self.setup.scroll.transform(
                        x,
                        y,
                        source,
                        self.setup.local,
                        self.setup.remote,
                        self.setup.reverse_mouse_wheel,
                        self.setup.reverse_trackpad,
                    );
                    out.push(
                        SenderAction::Send(
                            InputMessage::Wheel { generation: self.generation, x, y },
                        ),
                    );
                }
            },
            NativeEvent::ReliableQueueOverflow => {
                self.push_overflow(&mut out);
            },
            NativeEvent::Failed(message) => {
                out.push(SenderAction::Stop(SenderStop::CaptureFailed(message)));
            },
            NativeEvent::SecureDesktop { .. } => {},
        }
        assert(action_views(out@) =~= before.native_output(view));
        out
    }

    fn on_motion(&self, sample: MotionSample, now: u64) -> (r: Vec<SenderAction>)
        ensures
            action_views(r@) == self@.motion_output(sample, now),
    {
        let mut out: Vec<SenderAction> = Vec::new();
        let moved = sample.dx != 0 || sample.dy != 0;
        if self.active {
            if moved {
                out.push(
                    SenderAction::Send(
                        InputMessage::Motion {
                            generation: self.generation,
                            dx: sample.dx,
                            dy: sample.dy,
                        },
                    ),
                );
            }
        } else if !self.paused && now >= self.cooldown_until {
            match sample.position {
                Some(point) if sample.position_updated => {
                    out.push(SenderAction::Consider { point, dx: sample.dx, dy: sample.dy });
                },
                _ => {
                    if moved {
                        out.push(SenderAction::AskCursor { dx: sample.dx, dy: sample.dy });
                    }
                },
            }
        }
        assert(action_views(out@) =~= self@.motion_output(sample, now));
        out
    }

    fn on_activation(&mut self, position: EdgePosition, held: KeySnapshot, now: u64) -> (r: Vec<SenderAction>)
        ensures
            final(self)@ == old(self)@.after_activation(position, held@, now),
            action_views(r@) == old(self)@.activation_output(position, held@),
    {
        let mut out: Vec<SenderAction> = Vec::new();
        let ghost before = self@;
        let blocked = self.setup.block_switch_on_press && !(held.usages.len() == 0
            && held.buttons.len() == 0);
        if !self.active && !self.paused && !blocked {
            self.generation = if self.generation == u64::MAX {
                1
            } else {
                self.generation + 1
            };
            let pressed = self.key_mapper.map_snapshot(&held);
            self.local_pressed = PressedState::from_snapshot(&held);
            self.pending_return_request = None;
            out.push(
                SenderAction::Send(
                    InputMessage::Activate {
                        generation: self.generation,
                        source_edge: self.setup.edge,
                        edge_position: position,
                        pressed,
                    },
                ),
            );
            out.push(SenderAction::SetCapture { active: true, required: true });
            self.active = true;
            self.activation_confirmed = false;
            self.last_heartbeat = now;
            self.recovery = Some(position);
        }
        assert(action_views(out@) =~= before.activation_output(position, held@));
        out
    }

    /// Whether the pointer may leave the desktop with these keys and buttons down.
    pub fn may_leave(&self, held: &KeySnapshot) -> (r: bool)
        ensures
            r == self@.may_activate(held@),
    {
        !self.active && !self.paused && (!self.setup.block_switch_on_press || (held.usages.len()
            == 0 && held.buttons.len() == 0))
    }

    /// The position at which the pointer is restored should the session end now.
    pub fn armed_position(&self) -> (r: Option<EdgePosition>)
        ensures
            r == self@.recovery,
    {
        self.recovery
    }

    /// Whether the other end has control.
    pub fn is_active(&self) -> (r: bool)
        ensures
            r == self@.active,
    {
        self.active
    }

    /// An action that is required to succeed has failed, so the session ends. What is given is
    /// done then: the pointer is put back at the position that was armed before the step that
    /// the action belongs to.
    pub fn step_failed(&mut self, armed_before: Option<EdgePosition>) -> (r: Vec<SenderAction>)
        ensures
            final(self)@ == old(self)@.abandoned(),
            action_views(r@) == restore_at(armed_before),
    {
        let mut out: Vec<SenderAction> = Vec::new();
        self.recovery = armed_before;
        self.push_recovery(None, &mut out);
        assert(action_views(out@) =~= restore_at(armed_before));
        out
    }

    /// Takes in an event and says what is to be done.
    pub fn handle(&mut self, event: SenderEvent) -> (r: Vec<SenderAction>)
        ensures
            final(self)@ == old(self)@.after(event@),
            action_views(r@) == old(self)@.output(event@),
    {
        let mut out: Vec<SenderAction> = Vec::new();
        let ghost before = self@;
        let ghost view = event@;
        match event {
            SenderEvent::Message { message, now } => return self.on_message(message, now),
            SenderEvent::Native { event, now } => return self.on_native(event, now),
            SenderEvent::Motion { sample, now } => return self.on_motion(sample, now),
            SenderEvent::Activate { position, held, now } => {
                return self.on_activation(position, held, now);
            },
            SenderEvent::HeartbeatTick => {
                out.push(
                    SenderAction::Send(InputMessage::Heartbeat { generation: self.generation }),
                );
            },
            SenderEvent::OverflowPoll { overflowed } => {
                if overflowed {
                    self.push_overflow(&mut out);
                }
            },
            SenderEvent::TimeoutTick { now } => {
                if self.active && has_elapsed(
                    self.last_heartbeat,
                    now,
                    sender_heartbeat_timeout(self.activation_confirmed),
                ) {
                    out.push(SenderAction::SetCapture { active: false, required: false });
                    out.push(SenderAction::Stop(SenderStop::HeartbeatTimeout));
                }
            },
            SenderEvent::SecureInput { active, now } => {
                if active {
                    self.push_taking_back(now, &mut out);
                }
                self.paused = active;
            },
            SenderEvent::Abandon => {
                self.push_recovery(None, &mut out);
            },
        }
        assert(action_views(out@) =~= before.output(view));
        out
    }
}

/// What the options set up for a sender.
pub open spec fn setup_of(
    options: InputRuntimeOptions,
    edge: ScreenEdge,
    local: InputPlatform,
    remote: InputPlatform,
) -> SenderSetup {
    SenderSetup {
        edge,
        local,
        remote,
        block_switch_on_press: options.block_switch_on_press,
        reverse_mouse_wheel: options.reverse_mouse_wheel,
        reverse_trackpad: options.reverse_trackpad,
        scroll: ScrollTransformer {
            native_macos_to_windows: options.native_scroll_macos_to_windows,
            native_windows_to_macos: options.native_scroll_windows_to_macos,
        },
    }
}

/// The state in which a sender starts.
pub open spec fn initial_sender(setup: SenderSetup, key_mapping: Map<u16, u16>, now: u64) -> SenderView {
    SenderView {
        setup,
        generation: 0,
        active: false,
        paused: false,
        confirmed: false,
        recovery: None,
        cooldown_until: now,
        pressed: pressed::none_pressed(),
        pending_return: None,
        last_heartbeat: now,
        mapper: MapperView { mapping: key_mapping, pressed: Map::empty(), counts: Map::empty() },
    }
}

} // verus!
