//! A stand-in for the sending machine: it drives a real receiver by a script, or by the arrow
//! keys.

use crate::framing;
use crate::framing::FrameError;
use crate::geometry::{DesktopLayout, DisplayRect, ScreenEdge};
use crate::hotkey::ModifierMask;
use crate::incoming;
use crate::incoming::IncomingMotion;
use crate::platform::{NativeEvent, NativeView};
use crate::protocol;
use crate::protocol::{EdgePosition, InputMessage, MessageView};
use vstd::prelude::*;

verus! {

/// The longest content of a frame.
pub const MAX_MOCK_FRAME_LEN: usize = 65536;

/// How long the stand-in waits for the receiver to answer, in milliseconds.
pub const CONFIRM_TIMEOUT: u64 = 3000;

/// How long the stand-in waits before it says that it is done, in milliseconds.
pub const FINISH_DELAY: u64 = 300;

pub const ESC_USAGE: u16 = 0x29;

pub const DIRECTION_UP_USAGE: u16 = 0x52;

pub const DIRECTION_DOWN_USAGE: u16 = 0x51;

pub const DIRECTION_LEFT_USAGE: u16 = 0x50;

pub const DIRECTION_RIGHT_USAGE: u16 = 0x4f;

/// The middle of an edge: one half as a 32-bit binary fraction.
pub const MIDDLE_OF_EDGE_BITS: u32 = 0x3f00_0000;

/// How far one scripted movement goes, in pixels.
pub const SCRIPT_DISTANCE: i32 = 4;

/// What is sent between the stand-in and the receiver.
#[derive(Debug, PartialEq)]
pub enum MockFrame {
    Input(InputMessage),
    /// The script is done.
    Finish,
}

pub enum MockFrameView {
    Input(MessageView),
    Finish,
}

impl View for MockFrame {
    type V = MockFrameView;

    open spec fn view(&self) -> MockFrameView {
        match *self {
            MockFrame::Input(message) => MockFrameView::Input(message@),
            MockFrame::Finish => MockFrameView::Finish,
        }
    }
}

/// What the script is set up with.
#[derive(Clone, Copy, Debug, PartialEq, Eq, Structural)]
pub struct ControllerScript {
    pub edge: ScreenEdge,
    pub motion_steps: u16,
    pub inject_click: bool,
    pub inject_keyboard: bool,
    pub inject_wheel: bool,
}

/// Why a stand-in does not start or stops.
#[derive(Debug)]
pub enum ControllerError {
    /// The script has no movement.
    NoMotionSteps,
    /// The arrow keys would not move anything.
    NoMotionStep,
    /// The first frame was not the desktop.
    NoLayout,
    /// The receiver gave control back too early.
    EarlyReturn,
    /// The receiver said that it is done too early.
    EarlyFinish,
    /// The receiver did not answer in time.
    NotConfirmed,
    /// Reading the keys has stopped working.
    CaptureFailed(String),
    /// Key events were lost.
    QueueOverflow,
}

/// The movement of an arrow key.
pub open spec fn arrow_motion(usage: u16, step: int) -> Option<(int, int)> {
    if usage == DIRECTION_UP_USAGE {
        Some((0, -step))
    } else if usage == DIRECTION_DOWN_USAGE {
        Some((0, step))
    } else if usage == DIRECTION_LEFT_USAGE {
        Some((-step, 0))
    } else if usage == DIRECTION_RIGHT_USAGE {
        Some((step, 0))
    } else {
        None
    }
}

/// A step as a 32-bit amount.
pub open spec fn held_step(step: u32) -> int {
    if step > i32::MAX {
        i32::MAX as int
    } else {
        step as int
    }
}

/// The movement of an arrow key; nothing for other keys.
pub fn direction_motion(usage: u16, step: u32) -> (r: Option<(i32, i32)>)
    ensures
        match r {
            Some((dx, dy)) => arrow_motion(usage, held_step(step)) == Some((dx as int, dy as int)),
            None => arrow_motion(usage, held_step(step)) is None,
        },
{
    let amount: i32 = if step > 2147483647 {
        2147483647
    } else {
        step as i32
    };
    if usage == DIRECTION_UP_USAGE {
        Some((0, -amount))
    } else if usage == DIRECTION_DOWN_USAGE {
        Some((0, amount))
    } else if usage == DIRECTION_LEFT_USAGE {
        Some((-amount, 0))
    } else if usage == DIRECTION_RIGHT_USAGE {
        Some((amount, 0))
    } else {
        None
    }
}

/// The movement that goes on in the direction in which the pointer left through the edge.
pub open spec fn onward(edge: ScreenEdge, distance: int) -> (int, int) {
    match edge {
        ScreenEdge::Right => (distance, 0),
        ScreenEdge::Left => (-distance, 0),
        ScreenEdge::Top => (0, -distance),
        ScreenEdge::Bottom => (0, distance),
    }
}

/// The movement into the receiver's desktop from the edge that the pointer left through.
pub fn inward_motion(edge: ScreenEdge, distance: i32) -> (r: (i32, i32))
    requires
        distance > i32::MIN,
    ensures
        (r.0 as int, r.1 as int) == onward(edge, distance as int),
{
    match edge {
        ScreenEdge::Right => (distance, 0),
        ScreenEdge::Left => (-distance, 0),
        ScreenEdge::Top => (0, -distance),
        ScreenEdge::Bottom => (0, distance),
    }
}

/// The message for a movement into the receiver's desktop.
pub open spec fn inward_message(edge: ScreenEdge, generation: u64, distance: int) -> MessageView {
    let (dx, dy) = onward(edge, distance);
    MessageView::Motion { generation, dx: dx as i32, dy: dy as i32 }
}

/// The message for a movement into the receiver's desktop.
pub fn motion_message(edge: ScreenEdge, generation: u64, distance: i32) -> (r: InputMessage)
    requires
        distance > i32::MIN,
    ensures
        r@ == inward_message(edge, generation, distance as int),
{
    let (dx, dy) = inward_motion(edge, distance);
    InputMessage::Motion { generation, dx, dy }
}

/// The message that hands control over in the middle of the edge, with nothing down.
pub open spec fn handover_message(edge: ScreenEdge, generation: u64) -> MessageView {
    MessageView::Activate {
        generation,
        source_edge: edge,
        edge_position: EdgePosition { bits: MIDDLE_OF_EDGE_BITS },
        pressed: protocol::empty_view(),
    }
}

fn make_handover(edge: ScreenEdge, generation: u64) -> (r: InputMessage)
    ensures
        r@ == handover_message(edge, generation),
{
    InputMessage::Activate {
        generation,
        source_edge: edge,
        edge_position: EdgePosition { bits: MIDDLE_OF_EDGE_BITS },
        pressed: protocol::empty_snapshot(),
    }
}

/// One step of a script.
#[derive(Debug)]
pub enum ScriptStep {
    Send(InputMessage),
    /// Wait for as long as a movement takes.
    Pause,
    /// Send movements until the receiver answers with this number.
    AwaitHeartbeat { generation: u64 },
    /// Send heartbeats with this number from now on.
    UseGeneration { generation: u64 },
    /// Wait for the receiver to work off what it was sent.
    FinishDelay,
    /// Say that the script is done.
    Finish,
}

pub enum ScriptStepView {
    Send(MessageView),
    Pause,
    AwaitHeartbeat { generation: u64 },
    UseGeneration { generation: u64 },
    FinishDelay,
    Finish,
}

impl View for ScriptStep {
    type V = ScriptStepView;

    open spec fn view(&self) -> ScriptStepView {
        match *self {
            ScriptStep::Send(message) => ScriptStepView::Send(message@),
            ScriptStep::Pause => ScriptStepView::Pause,
            ScriptStep::AwaitHeartbeat { generation } => ScriptStepView::AwaitHeartbeat {
                generation,
            },
            ScriptStep::UseGeneration { generation } => ScriptStepView::UseGeneration {
                generation,
            },
            ScriptStep::FinishDelay => ScriptStepView::FinishDelay,
            ScriptStep::Finish => ScriptStepView::Finish,
        }
    }
}

/// The contents of a list of steps.
pub open spec fn step_views(steps: Seq<ScriptStep>) -> Seq<ScriptStepView> {
    steps.map_values(|s: ScriptStep| s@)
}

/// Movements with a pause after each.
pub open spec fn motion_script(edge: ScreenEdge, generation: u64, count: nat) -> Seq<ScriptStepView>
    decreases count,
{
    if count == 0 {
        Seq::empty()
    } else {
        motion_script(edge, generation, (count - 1) as nat).push(
            ScriptStepView::Send(inward_message(edge, generation, SCRIPT_DISTANCE as int)),
        ).push(ScriptStepView::Pause)
    }
}

pub open spec fn shift_message(generation: u64, down: bool) -> MessageView {
    MessageView::Key { generation, usage: 0xe1, modifiers: ModifierMask(4), down, repeat: false }
}

pub open spec fn click_message(generation: u64, down: bool) -> MessageView {
    MessageView::Button { generation, button: 1, down }
}

/// All kinds of input one after the other: movements, then the shift key, a click and the
/// wheel, as far as they are switched on.
pub open spec fn input_script(script: ControllerScript, generation: u64) -> Seq<ScriptStepView> {
    motion_script(script.edge, generation, script.motion_steps as nat) + (
    if script.inject_keyboard {
        seq![
            ScriptStepView::Send(shift_message(generation, true)),
            ScriptStepView::Send(shift_message(generation, false)),
        ]
    } else {
        Seq::empty()
    }) + (if script.inject_click {
        seq![
            ScriptStepView::Send(click_message(generation, true)),
            ScriptStepView::Send(click_message(generation, false)),
        ]
    } else {
        Seq::empty()
    }) + (if script.inject_wheel {
        seq![ScriptStepView::Send(MessageView::Wheel { generation, x: 0, y: 120 })]
    } else {
        Seq::empty()
    })
}

/// The message that ends a handover.
pub open spec fn end_message(generation: u64) -> MessageView {
    MessageView::Deactivate { generation, edge_position: None }
}

/// The whole script: a handover with all kinds of input, then a second handover with a single
/// movement.
pub open spec fn whole_script(script: ControllerScript) -> Seq<ScriptStepView> {
    seq![
        ScriptStepView::Send(handover_message(script.edge, 1)),
        ScriptStepView::AwaitHeartbeat { generation: 1 },
    ] + input_script(script, 1) + seq![
        ScriptStepView::Send(end_message(1)),
        ScriptStepView::UseGeneration { generation: 2 },
        ScriptStepView::Send(handover_message(script.edge, 2)),
        ScriptStepView::AwaitHeartbeat { generation: 2 },
        ScriptStepView::Send(inward_message(script.edge, 2, SCRIPT_DISTANCE as int)),
        ScriptStepView::Send(end_message(2)),
        ScriptStepView::FinishDelay,
        ScriptStepView::Finish,
    ]
}

fn push_step(out: &mut Vec<ScriptStep>, step: ScriptStep)
    ensures
        step_views(final(out)@) == step_views(old(out)@).push(step@),
{
    let ghost view = step@;
    out.push(step);
    assert(step_views(out@) =~= step_views(old(out)@).push(view));
}

fn push_input_script(out: &mut Vec<ScriptStep>, script: &ControllerScript, generation: u64)
    ensures
        step_views(final(out)@) == step_views(old(out)@) + input_script(*script, generation),
{
    let ghost start = step_views(out@);
    let mut i: u16 = 0;
    assert(start + motion_script(script.edge, generation, 0) =~= start);
    while i < script.motion_steps
        invariant
            i <= script.motion_steps,
            step_views(out@) == start + motion_script(script.edge, generation, i as nat),
        decreases script.motion_steps - i,
    {
        push_step(out, ScriptStep::Send(motion_message(script.edge, generation, SCRIPT_DISTANCE)));
        push_step(out, ScriptStep::Pause);
        assert(step_views(out@) =~= start + motion_script(script.edge, generation, (i + 1) as nat));
        i += 1;
    }
    if script.inject_keyboard {
        push_step(
            out,
            ScriptStep::Send(
                InputMessage::Key {
                    generation,
                    usage: 0xe1,
                    modifiers: ModifierMask::shift(),
                    down: true,
                    repeat: false,
                },
            ),
        );
        push_step(
            out,
            ScriptStep::Send(
                InputMessage::Key {
                    generation,
                    usage: 0xe1,
                    modifiers: ModifierMask::shift(),
                    down: false,
                    repeat: false,
                },
            ),
        );
    }
    if script.inject_click {
        push_step(out, ScriptStep::Send(InputMessage::Button { generation, button: 1, down: true }));
        push_step(
            out,
            ScriptStep::Send(InputMessage::Button { generation, button: 1, down: false }),
        );
    }
    if script.inject_wheel {
        push_step(out, ScriptStep::Send(InputMessage::Wheel { generation, x: 0, y: 120 }));
    }
    assert(step_views(out@) =~= start + input_script(*script, generation));
}

/// All kinds of input one after the other.
pub fn send_full_input_sequence(script: &ControllerScript, generation: u64) -> (r: Vec<ScriptStep>)
    ensures
        step_views(r@) == input_script(*script, generation),
{
    let mut out: Vec<ScriptStep> = Vec::new();
    push_input_script(&mut out, script, generation);
    assert(step_views(out@) =~= input_script(*script, generation));
    out
}

/// The whole script. A script without movements is refused.
pub fn run_controller_mock(script: &ControllerScript) -> (r: Result<Vec<ScriptStep>, ControllerError>)
    ensures
        match r {
            Ok(steps) => script.motion_steps > 0 && step_views(steps@) == whole_script(*script),
            Err(error) => script.motion_steps == 0 && error is NoMotionSteps,
        },
{
    if script.motion_steps == 0 {
        return Err(ControllerError::NoMotionSteps);
    }
    let mut out: Vec<ScriptStep> = Vec::new();
    push_step(&mut out, ScriptStep::Send(make_handover(script.edge, 1)));
    push_step(&mut out, ScriptStep::AwaitHeartbeat { generation: 1 });
    push_input_script(&mut out, script, 1);
    push_step(
        &mut out,
        ScriptStep::Send(InputMessage::Deactivate { generation: 1, edge_position: None }),
    );
    push_step(&mut out, ScriptStep::UseGeneration { generation: 2 });
    push_step(&mut out, ScriptStep::Send(make_handover(script.edge, 2)));
    push_step(&mut out, ScriptStep::AwaitHeartbeat { generation: 2 });
    push_step(&mut out, ScriptStep::Send(motion_message(script.edge, 2, SCRIPT_DISTANCE)));
    push_step(
        &mut out,
        ScriptStep::Send(InputMessage::Deactivate { generation: 2, edge_position: None }),
    );
    push_step(&mut out, ScriptStep::FinishDelay);
    push_step(&mut out, ScriptStep::Finish);
    assert(step_views(out@) =~= whole_script(*script));
    Ok(out)
}

/// What a frame means while the receiver's answer is awaited.
#[derive(Debug)]
pub enum WaitOutcome {
    /// The receiver has answered; so many movements were sent meanwhile.
    Confirmed { pressure_steps: u64 },
    /// Wait on.
    Continue,
    Failed(ControllerError),
}

/// Waiting for the receiver's answer, with movements sent all the time.
#[derive(Clone, Copy, Debug, PartialEq, Eq, Structural)]
pub struct PressureWait {
    pub edge: ScreenEdge,
    pub generation: u64,
    pub pressure_steps: u64,
}

/// Whether a frame confirms the first handover.
pub open spec fn confirms_first(frame: MockFrameView) -> bool {
    match frame {
        MockFrameView::Input(MessageView::Heartbeat { generation }) => generation == 1,
        MockFrameView::Input(MessageView::ReturnRequest { generation, .. }) => generation == 1,
        _ => false,
    }
}

impl PressureWait {
    /// Whether a frame is the receiver's answer.
    pub open spec fn confirmed_by(self, frame: MockFrameView) -> bool {
        match frame {
            MockFrameView::Input(MessageView::Heartbeat { generation }) => generation
                == self.generation,
            _ => false,
        }
    }

    pub fn new(edge: ScreenEdge, generation: u64) -> (r: Self)
        ensures
            r == (PressureWait { edge, generation, pressure_steps: 0 }),
    {
        PressureWait { edge, generation, pressure_steps: 0 }
    }

    /// The receiver has sent a frame.
    pub fn frame(&self, frame: &MockFrame) -> (r: WaitOutcome)
        ensures
            r is Confirmed == self.confirmed_by(frame@),
            match frame@ {
                MockFrameView::Input(MessageView::Heartbeat { generation }) => if generation
                    == self.generation {
                    r == (WaitOutcome::Confirmed { pressure_steps: self.pressure_steps })
                } else {
                    r is Continue
                },
                MockFrameView::Input(MessageView::Return { .. }) => r matches WaitOutcome::Failed(e)
                    && e is EarlyReturn,
                MockFrameView::Finish => r matches WaitOutcome::Failed(e) && e is EarlyFinish,
                _ => r is Continue,
            },
    {
        match frame {
            MockFrame::Input(InputMessage::Heartbeat { generation }) => {
                if *generation == self.generation {
                    WaitOutcome::Confirmed { pressure_steps: self.pressure_steps }
                } else {
                    WaitOutcome::Continue
                }
            },
            MockFrame::Input(InputMessage::Return { .. }) => WaitOutcome::Failed(
                ControllerError::EarlyReturn,
            ),
            MockFrame::Finish => WaitOutcome::Failed(ControllerError::EarlyFinish),
            _ => WaitOutcome::Continue,
        }
    }

    /// It is time for one more movement.
    pub fn press(&mut self) -> (r: InputMessage)
        ensures
            r@ == inward_message(old(self).edge, old(self).generation, SCRIPT_DISTANCE as int),
            *final(self) == (PressureWait {
                pressure_steps: if old(self).pressure_steps == u64::MAX {
                    u64::MAX
                } else {
                    (old(self).pressure_steps + 1) as u64
                },
                ..*old(self)
            }),
    {
        self.pressure_steps = self.pressure_steps.saturating_add(1);
        motion_message(self.edge, self.generation, SCRIPT_DISTANCE)
    }
}

/// The stand-in that is driven by the arrow keys.
#[derive(Clone, Copy, Debug, PartialEq, Eq, Structural)]
pub struct InteractiveController {
    pub edge: ScreenEdge,
    pub motion_step: u32,
    pub generation: u64,
    pub active: bool,
}

/// How the stand-in goes on.
#[derive(Debug)]
pub enum ControllerFlow {
    /// Go on.
    Continue,
    /// The receiver has answered: the keys count from now on.
    Confirmed,
    /// End without an error.
    Quit,
    Failed(ControllerError),
}

/// What the stand-in wants sent, and how it goes on.
#[derive(Debug)]
pub struct ControllerStep {
    pub send: Vec<InputMessage>,
    pub flow: ControllerFlow,
}

impl InteractiveController {
    /// Control back with the stand-in.
    pub open spec fn idle(self) -> InteractiveController {
        InteractiveController { active: false, ..self }
    }

    /// What an arrow key sends: a new handover first, where control is not with the receiver.
    pub open spec fn arrow_messages(self, dx: int, dy: int) -> Seq<MessageView> {
        let generation = if self.active {
            self.generation
        } else {
            (self.generation + 1) as u64
        };
        let motion = MessageView::Motion { generation, dx: dx as i32, dy: dy as i32 };
        if self.active {
            seq![motion]
        } else {
            seq![handover_message(self.edge, generation), motion]
        }
    }

    /// The state after an arrow key.
    pub open spec fn after_arrow(self) -> InteractiveController {
        if self.active {
            self
        } else {
            InteractiveController {
                generation: (self.generation + 1) as u64,
                active: true,
                ..self
            }
        }
    }

    /// What an event on this machine makes the stand-in send.
    pub open spec fn native_messages(self, event: NativeView) -> Seq<MessageView> {
        match event {
            NativeView::Key { usage, down, repeat, .. } => match arrow_motion(
                usage,
                held_step(self.motion_step),
            ) {
                Some((dx, dy)) => if down || repeat {
                    self.arrow_messages(dx, dy)
                } else {
                    Seq::empty()
                },
                None => Seq::empty(),
            },
            _ => Seq::empty(),
        }
    }

    /// The state after an event on this machine.
    pub open spec fn after_native(self, event: NativeView) -> InteractiveController {
        match event {
            NativeView::Key { usage, down, repeat, .. } => if arrow_motion(
                usage,
                held_step(self.motion_step),
            ) is Some && (down || repeat) {
                self.after_arrow()
            } else {
                self
            },
            _ => self,
        }
    }

    /// What a frame of the receiver makes the stand-in send.
    pub open spec fn frame_messages(self, frame: MockFrameView) -> Seq<MessageView> {
        match frame {
            MockFrameView::Input(MessageView::ReturnRequest { generation, edge_position }) => if self.active
                && generation == self.generation {
                seq![MessageView::Return { generation, edge_position }]
            } else {
                Seq::empty()
            },
            _ => Seq::empty(),
        }
    }

    /// The state after a frame of the receiver.
    pub open spec fn after_frame(self, frame: MockFrameView) -> InteractiveController {
        match frame {
            MockFrameView::Input(MessageView::ReturnRequest { generation, .. }) => if generation
                == self.generation {
                self.idle()
            } else {
                self
            },
            MockFrameView::Input(MessageView::Return { .. }) => self.idle(),
            MockFrameView::Input(MessageView::Deactivate { generation, .. }) => if generation
                == self.generation {
                self.idle()
            } else {
                self
            },
            _ => self,
        }
    }

    /// Starts with a handover. A stand-in that would not move anything is refused.
    pub fn start(edge: ScreenEdge, motion_step: u32) -> (r: Result<(Self, InputMessage), ControllerError>)
        ensures
            match r {
                Ok((controller, first)) => {
                    &&& motion_step > 0
                    &&& controller == (InteractiveController {
                        edge,
                        motion_step,
                        generation: 1,
                        active: true,
                    })
                    &&& first@ == handover_message(edge, 1)
                },
                Err(error) => motion_step == 0 && error is NoMotionStep,
            },
    {
        if motion_step == 0 {
            return Err(ControllerError::NoMotionStep);
        }
        Ok(
            (
                InteractiveController { edge, motion_step, generation: 1, active: true },
                make_handover(edge, 1),
            ),
        )
    }

    /// A frame while the answer to the first handover is awaited. A request to return is
    /// granted at once.
    pub fn confirm(&mut self, frame: MockFrame) -> (r: ControllerStep)
        ensures
            r.flow is Confirmed == confirms_first(frame@),
            match frame@ {
                MockFrameView::Input(MessageView::Heartbeat { generation }) => {
                    &&& *final(self) == *old(self)
                    &&& r.send@.len() == 0
                    &&& if generation == 1 { r.flow is Confirmed } else { r.flow is Continue }
                },
                MockFrameView::Input(MessageView::ReturnRequest { generation, edge_position }) => if generation == 1 {
                    &&& *final(self) == old(self).idle()
                    &&& incoming::message_views(r.send@) == seq![
                        MessageView::Return { generation: 1, edge_position },
                    ]
                    &&& r.flow is Confirmed
                } else {
                    &&& *final(self) == *old(self)
                    &&& r.send@.len() == 0
                    &&& r.flow is Continue
                },
                MockFrameView::Finish => {
                    &&& *final(self) == *old(self)
                    &&& r.send@.len() == 0
                    &&& r.flow matches ControllerFlow::Failed(e) && e is EarlyFinish
                },
                _ => {
                    &&& *final(self) == *old(self)
                    &&& r.send@.len() == 0
                    &&& r.flow is Continue
                },
            },
    {
        let mut send: Vec<InputMessage> = Vec::new();
        match frame {
            MockFrame::Input(InputMessage::Heartbeat { generation }) => ControllerStep {
                send,
                flow: if generation == 1 {
                    ControllerFlow::Confirmed
                } else {
                    ControllerFlow::Continue
                },
            },
            MockFrame::Input(InputMessage::ReturnRequest { generation, edge_position }) => {
                if generation == 1 {
                    send.push(InputMessage::Return { generation: 1, edge_position });
                    assert(incoming::message_views(send@) =~= seq![
                        MessageView::Return { generation: 1, edge_position },
                    ]);
                    self.active = false;
                    ControllerStep { send, flow: ControllerFlow::Confirmed }
                } else {
                    ControllerStep { send, flow: ControllerFlow::Continue }
                }
            },
            MockFrame::Finish => ControllerStep {
                send,
                flow: ControllerFlow::Failed(ControllerError::EarlyFinish),
            },
            MockFrame::Input(_) => ControllerStep { send, flow: ControllerFlow::Continue },
        }
    }

    /// Makes sure that the receiver has control, and gives the number of the handover. A new
    /// handover is put in front of what is sent.
    pub fn ensure_active(&mut self, send: &mut Vec<InputMessage>) -> (r: u64)
        requires
            old(self).active || old(self).generation < u64::MAX,
        ensures
            *final(self) == old(self).after_arrow(),
            r == final(self).generation,
            incoming::message_views(final(send)@) == if old(self).active {
                incoming::message_views(old(send)@)
            } else {
                incoming::message_views(old(send)@).push(
                    handover_message(old(self).edge, final(self).generation),
                )
            },
    {
        if self.active {
            return self.generation;
        }
        let next: u64 = self.generation + 1;
        self.generation = next;
        send.push(make_handover(self.edge, next));
        self.active = true;
        assert(incoming::message_views(send@) =~= incoming::message_views(old(send)@).push(
            handover_message(old(self).edge, next),
        ));
        next
    }

    /// Something has happened on this machine. Arrow keys move the pointer of the receiver,
    /// Escape and the emergency hotkey end the stand-in.
    pub fn native(&mut self, event: NativeEvent) -> (r: ControllerStep)
        requires
            old(self).generation < u64::MAX,
        ensures
            incoming::message_views(r.send@) == old(self).native_messages(event@),
            *final(self) == old(self).after_native(event@),
            match event@ {
                NativeView::Key { usage, down, repeat, .. } => match arrow_motion(
                    usage,
                    held_step(old(self).motion_step),
                ) {
                    Some((dx, dy)) => if down || repeat {
                        &&& *final(self) == old(self).after_arrow()
                        &&& incoming::message_views(r.send@) == old(self).arrow_messages(dx, dy)
                        &&& r.flow is Continue
                    } else {
                        &&& *final(self) == *old(self)
                        &&& r.send@.len() == 0
                        &&& r.flow is Continue
                    },
                    None => {
                        &&& *final(self) == *old(self)
                        &&& r.send@.len() == 0
                        &&& if usage == ESC_USAGE && down {
                            r.flow is Quit
                        } else {
                            r.flow is Continue
                        }
                    },
                },
                NativeView::Emergency => {
                    &&& *final(self) == *old(self)
                    &&& r.send@.len() == 0
                    &&& r.flow is Quit
                },
                NativeView::Failed(message) => {
                    &&& *final(self) == *old(self)
                    &&& r.send@.len() == 0
                    &&& r.flow matches ControllerFlow::Failed(e)
                    &&& e matches ControllerError::CaptureFailed(text)
                    &&& text@ == message
                },
                NativeView::ReliableQueueOverflow => {
                    &&& *final(self) == *old(self)
                    &&& r.send@.len() == 0
                    &&& r.flow matches ControllerFlow::Failed(e) && e is QueueOverflow
                },
                _ => {
                    &&& *final(self) == *old(self)
                    &&& r.send@.len() == 0
                    &&& r.flow is Continue
                },
            },
    {
        let mut send: Vec<InputMessage> = Vec::new();
        let ghost before = *self;
        match event {
            NativeEvent::Key { usage, modifiers: _, down, repeat } => {
                match direction_motion(usage, self.motion_step) {
                    Some((dx, dy)) => {
                        if down || repeat {
                            let generation: u64 = self.ensure_active(&mut send);
                            let ghost held = send@;
                            send.push(InputMessage::Motion { generation, dx, dy });
                            assert(incoming::message_views(send@) =~= incoming::message_views(held).push(
                                MessageView::Motion { generation, dx, dy },
                            ));
                            assert(incoming::message_views(send@) =~= before.arrow_messages(
                                dx as int,
                                dy as int,
                            ));
                        }
                        ControllerStep { send, flow: ControllerFlow::Continue }
                    },
                    None => ControllerStep {
                        send,
                        flow: if usage == ESC_USAGE && down {
                            ControllerFlow::Quit
                        } else {
                            ControllerFlow::Continue
                        },
                    },
                }
            },
            NativeEvent::Emergency => ControllerStep { send, flow: ControllerFlow::Quit },
            NativeEvent::Failed(message) => ControllerStep {
                send,
                flow: ControllerFlow::Failed(ControllerError::CaptureFailed(message)),
            },
            NativeEvent::ReliableQueueOverflow => ControllerStep {
                send,
                flow: ControllerFlow::Failed(ControllerError::QueueOverflow),
            },
            _ => ControllerStep { send, flow: ControllerFlow::Continue },
        }
    }

    /// The receiver has sent a frame. A request to return is granted.
    pub fn frame(&mut self, frame: MockFrame) -> (r: ControllerStep)
        ensures
            incoming::message_views(r.send@) == old(self).frame_messages(frame@),
            *final(self) == old(self).after_frame(frame@),
            match frame@ {
                MockFrameView::Input(MessageView::ReturnRequest { generation, edge_position }) => {
                    &&& r.flow is Continue
                    &&& if old(self).active && generation == old(self).generation {
                        &&& *final(self) == old(self).idle()
                        &&& incoming::message_views(r.send@) == seq![
                            MessageView::Return { generation, edge_position },
                        ]
                    } else {
                        &&& *final(self) == *old(self)
                        &&& r.send@.len() == 0
                    }
                },
                MockFrameView::Input(MessageView::Return { .. }) => {
                    &&& *final(self) == old(self).idle()
                    &&& r.send@.len() == 0
                    &&& r.flow is Continue
                },
                MockFrameView::Input(MessageView::Deactivate { generation, .. }) => {
                    &&& *final(self) == if generation == old(self).generation {
                        old(self).idle()
                    } else {
                        *old(self)
                    }
                    &&& r.send@.len() == 0
                    &&& r.flow is Continue
                },
                MockFrameView::Finish => {
                    &&& *final(self) == *old(self)
                    &&& r.send@.len() == 0
                    &&& r.flow matches ControllerFlow::Failed(e) && e is EarlyFinish
                },
                _ => {
                    &&& *final(self) == *old(self)
                    &&& r.send@.len() == 0
                    &&& r.flow is Continue
                },
            },
    {
        let mut send: Vec<InputMessage> = Vec::new();
        match frame {
            MockFrame::Input(InputMessage::ReturnRequest { generation, edge_position }) => {
                if self.active && generation == self.generation {
                    send.push(InputMessage::Return { generation, edge_position });
                    assert(incoming::message_views(send@) =~= seq![
                        MessageView::Return { generation, edge_position },
                    ]);
                    self.active = false;
                }
                ControllerStep { send, flow: ControllerFlow::Continue }
            },
            MockFrame::Input(InputMessage::Return { .. }) => {
                self.active = false;
                ControllerStep { send, flow: ControllerFlow::Continue }
            },
            MockFrame::Input(InputMessage::Deactivate { generation, edge_position: _ }) => {
                if generation == self.generation {
                    self.active = false;
                }
                ControllerStep { send, flow: ControllerFlow::Continue }
            },
            MockFrame::Finish => ControllerStep {
                send,
                flow: ControllerFlow::Failed(ControllerError::EarlyFinish),
            },
            MockFrame::Input(_) => ControllerStep { send, flow: ControllerFlow::Continue },
        }
    }

    /// What is sent at the end, if the receiver still has control.
    pub fn finish(&self) -> (r: Option<InputMessage>)
        ensures
            match r {
                Some(message) => self.active && message@ == end_message(self.generation),
                None => !self.active,
            },
    {
        if self.active {
            Some(InputMessage::Deactivate { generation: self.generation, edge_position: None })
        } else {
            None
        }
    }
}

/// The desktop in the first frame of the other side.
pub fn take_layout(frame: MockFrame) -> (r: Result<DesktopLayout, ControllerError>)
    ensures
        match frame@ {
            MockFrameView::Input(MessageView::Hello { layout, .. }) => r matches Ok(found) && found@
                == layout,
            _ => r matches Err(e) && e is NoLayout,
        },
{
    match frame {
        MockFrame::Input(InputMessage::Hello { platform: _, layout }) => Ok(layout),
        _ => Err(ControllerError::NoLayout),
    }
}

/// The desktop that the stand-in makes known.
pub fn controller_layout() -> (r: DesktopLayout)
    ensures
        r@ == seq![DisplayRect { x: 0, y: 0, width: 1440, height: 900 }],
{
    let displays = vec![DisplayRect { x: 0, y: 0, width: 1440, height: 900 }];
    assert(displays@ =~= seq![DisplayRect { x: 0, y: 0, width: 1440, height: 900 }]);
    DesktopLayout { displays }
}

/// What the receiver's side does with a frame: messages are handed on as on the real channel,
/// and `None` says that the script is done.
pub fn receive_frame(motion: &mut IncomingMotion, frame: MockFrame) -> (r: Option<Vec<InputMessage>>)
    ensures
        match frame@ {
            MockFrameView::Input(message) => {
                &&& r matches Some(messages)
                &&& incoming::message_views(messages@) == incoming::delivered(
                    old(motion).pending,
                    message,
                )
                &&& final(motion).pending == incoming::waiting_after(old(motion).pending, message)
            },
            MockFrameView::Finish => r is None && *final(motion) == *old(motion),
        },
{
    match frame {
        MockFrame::Input(message) => Some(motion.receive(message)),
        MockFrame::Finish => None,
    }
}

/// The frame around encoded content, which must not be empty or over the limit.
pub fn write_mock_frame(content: &Vec<u8>) -> (r: Result<Vec<u8>, FrameError>)
    ensures
        match r {
            Ok(bytes) => 1 <= content@.len() <= MAX_MOCK_FRAME_LEN && bytes@ == framing::framed(
                content@,
            ),
            Err(FrameError::Empty) => content@.len() == 0,
            Err(FrameError::TooLong(n)) => content@.len() > MAX_MOCK_FRAME_LEN && n
                == content@.len(),
        },
{
    framing::frame(content, MAX_MOCK_FRAME_LEN, false)
}

/// The length of the content behind the four bytes of a frame.
pub fn read_mock_frame(prefix: &[u8; 4]) -> (r: Result<usize, FrameError>)
    ensures
        ({
            let n = framing::length_value(prefix@);
            match r {
                Ok(len) => len == n && 1 <= n <= MAX_MOCK_FRAME_LEN,
                Err(FrameError::Empty) => n == 0,
                Err(FrameError::TooLong(len)) => len == n && n > MAX_MOCK_FRAME_LEN,
            }
        }),
{
    framing::content_length(prefix, MAX_MOCK_FRAME_LEN)
}

/// Each new handover of the stand-in has a higher number than the one before.
pub proof fn new_handover_has_a_higher_number(controller: InteractiveController)
    requires
        !controller.active,
        controller.generation < u64::MAX,
    ensures
        controller.after_arrow().generation > controller.generation,
        controller.after_arrow().active,
{
}

/// Each arrow key moves the pointer where it points, by the step and along one axis; no other key
/// moves it. Keys that point against each other undo each other.
pub proof fn arrows_move_where_they_point(usage: u16, step: u32)
    requires
        step > 0,
    ensures
        arrow_motion(usage, held_step(step)) is Some <==> 0x4f <= usage <= 0x52,
        arrow_motion(usage, held_step(step)) matches Some((dx, dy)) ==> {
            &&& usage == 0x4f ==> dx > 0 && dy == 0
            &&& usage == 0x50 ==> dx < 0 && dy == 0
            &&& usage == 0x51 ==> dx == 0 && dy > 0
            &&& usage == 0x52 ==> dx == 0 && dy < 0
            &&& step <= i32::MAX ==> dx + dy == step || dx + dy == -step
            &&& i32::MIN < dx <= i32::MAX && i32::MIN < dy <= i32::MAX
        },
        ({
            let right = arrow_motion(0x4f, held_step(step))->0;
            let left = arrow_motion(0x50, held_step(step))->0;
            let down = arrow_motion(0x51, held_step(step))->0;
            let up = arrow_motion(0x52, held_step(step))->0;
            &&& right.0 + left.0 == 0 && right.1 + left.1 == 0
            &&& down.0 + up.0 == 0 && down.1 + up.1 == 0
        }),
{
}

/// An arrow key that goes down or is held is sent as one movement of the handover that is going
/// on, after a new handover at the stand-in's edge where none is; then one is. Letting go sends
/// nothing, and neither does any other key.
pub proof fn arrows_are_sent(controller: InteractiveController, event: NativeView)
    requires
        controller.generation < u64::MAX,
        controller.motion_step > 0,
        event is Key,
    ensures
        event matches NativeView::Key { usage, down, repeat, .. } ==> {
            let sent = controller.native_messages(event);
            let after = controller.after_native(event);
            if 0x4f <= usage <= 0x52 && (down || repeat) {
                &&& sent.len() == if controller.active {
                    1nat
                } else {
                    2nat
                }
                &&& sent.last() matches MessageView::Motion { generation, dx, dy }
                &&& generation == after.generation
                &&& arrow_motion(usage, held_step(controller.motion_step)) == Some(
                    (dx as int, dy as int),
                )
                &&& !controller.active ==> (sent[0] matches MessageView::Activate {
                    generation: begun,
                    source_edge,
                    pressed,
                    ..
                } && begun == generation && source_edge == controller.edge && begun
                    == controller.generation + 1 && pressed.usages.len() == 0
                    && pressed.buttons.len() == 0)
                &&& after.active && after.edge == controller.edge
                &&& after.motion_step == controller.motion_step
            } else {
                sent.len() == 0 && after == controller
            }
        },
{
    if let NativeView::Key { usage, .. } = event {
        arrows_move_where_they_point(usage, controller.motion_step);
    }
}

/// A request of the receiver to return, of the handover that is going on, is granted with the
/// same number and at the same position, and ends that handover. One of another handover is not
/// answered.
pub proof fn requests_to_return_are_granted(
    controller: InteractiveController,
    generation: u64,
    edge_position: EdgePosition,
)
    ensures
        ({
            let frame = MockFrameView::Input(
                MessageView::ReturnRequest { generation, edge_position },
            );
            let sent = controller.frame_messages(frame);
            let after = controller.after_frame(frame);
            if controller.active && generation == controller.generation {
                &&& sent.len() == 1
                &&& sent[0] == MessageView::Return { generation, edge_position }
                &&& !after.active && after.generation == generation
            } else {
                sent.len() == 0 && after == controller
            }
        }),
{
}

/// Only the receiver's word ends a handover, and nothing that the receiver sends begins one.
pub proof fn frames_begin_no_handover(controller: InteractiveController, frame: MockFrameView)
    ensures
        controller.after_frame(frame).generation == controller.generation,
        controller.after_frame(frame).edge == controller.edge,
        controller.after_frame(frame).motion_step == controller.motion_step,
        !controller.active ==> !controller.after_frame(frame).active,
        controller.active && !controller.after_frame(frame).active ==> (frame matches MockFrameView::Input(
            message,
        ) && (message is ReturnRequest || message is Return || message is Deactivate)),
        frame matches MockFrameView::Input(MessageView::Return { .. }) ==> !controller.after_frame(
            frame,
        ).active,
        frame matches MockFrameView::Input(MessageView::Deactivate { generation, .. }) ==> (generation
            == controller.generation ==> !controller.after_frame(frame).active) && (generation
            != controller.generation ==> controller.after_frame(frame) == controller),
{
}

/// A movement that goes on from an edge goes on through it: out over the side that the edge is.
pub proof fn onward_is_over_the_side(edge: ScreenEdge, distance: int)
    requires
        distance > 0,
    ensures
        edge is Right ==> onward(edge, distance).0 > 0 && onward(edge, distance).1 == 0,
        edge is Left ==> onward(edge, distance).0 < 0 && onward(edge, distance).1 == 0,
        edge is Bottom ==> onward(edge, distance).0 == 0 && onward(edge, distance).1 > 0,
        edge is Top ==> onward(edge, distance).0 == 0 && onward(edge, distance).1 < 0,
        onward(edge, distance).0 + onward(edge, distance).1 == distance || onward(edge, distance).0
            + onward(edge, distance).1 == -distance,
{
}

/// A script of movements has as many as it was told, each of four pixels onward from the edge and
/// of its handover, and each with a pause behind it.
pub proof fn scripted_movements_are_counted(
    edge: ScreenEdge,
    generation: u64,
    count: nat,
    i: int,
)
    requires
        0 <= i < count,
    ensures
        motion_script(edge, generation, count).len() == 2 * count,
        motion_script(edge, generation, count)[2 * i] matches ScriptStepView::Send(message) && (message matches MessageView::Motion {
            generation: of,
            dx,
            dy,
        } && of == generation && (edge is Right ==> dx == 4 && dy == 0) && (edge is Left ==> dx == -4
            && dy == 0) && (edge is Bottom ==> dx == 0 && dy == 4) && (edge is Top ==> dx == 0 && dy
            == -4)),
        motion_script(edge, generation, count)[2 * i + 1] is Pause,
    decreases count,
{
    lemma_motion_script_length(edge, generation, (count - 1) as nat);
    if i < count - 1 {
        scripted_movements_are_counted(edge, generation, (count - 1) as nat, i);
    }
}

proof fn lemma_motion_script_length(edge: ScreenEdge, generation: u64, count: nat)
    ensures
        motion_script(edge, generation, count).len() == 2 * count,
    decreases count,
{
    if count > 0 {
        lemma_motion_script_length(edge, generation, (count - 1) as nat);
    }
}

/// Behind its movements a script presses and releases the shift key, clicks and turns the wheel,
/// each exactly where it is switched on: whatever goes down comes up again in the next step.
pub proof fn scripted_input_leaves_nothing_down(script: ControllerScript, generation: u64)
    ensures
        ({
            let steps = input_script(script, generation);
            let keys = 2 * script.motion_steps;
            let clicks = keys + if script.inject_keyboard {
                2int
            } else {
                0
            };
            let wheel = clicks + if script.inject_click {
                2int
            } else {
                0
            };
            &&& steps.len() == wheel + if script.inject_wheel {
                1int
            } else {
                0
            }
            &&& script.inject_keyboard ==> (steps[keys] matches ScriptStepView::Send(
                MessageView::Key { generation: of, usage, down, repeat, .. },
            ) && of == generation && usage == 0xe1 && down && !repeat && (steps[keys + 1] matches ScriptStepView::Send(
                MessageView::Key { generation: then, usage: again, down: still, .. },
            ) && then == generation && again == usage && !still))
            &&& script.inject_click ==> (steps[clicks] matches ScriptStepView::Send(
                MessageView::Button { generation: of, button, down },
            ) && of == generation && button == 1 && down && (steps[clicks + 1] matches ScriptStepView::Send(
                MessageView::Button { generation: then, button: again, down: still },
            ) && then == generation && again == button && !still))
            &&& script.inject_wheel ==> (steps[wheel] matches ScriptStepView::Send(
                MessageView::Wheel { generation: of, x, y },
            ) && of == generation && x == 0 && y > 0)
        }),
{
    lemma_motion_script_length(script.edge, generation, script.motion_steps as nat);
}

/// The whole script hands control over twice, under two numbers. Each time it waits for the
/// answer to that number before any input, and ends the handover of that number; the input comes
/// in the first. It ends by saying so.
pub proof fn scripts_hand_over_twice(script: ControllerScript)
    ensures
        ({
            let steps = whole_script(script);
            let input = input_script(script, 1);
            let n = input.len() as int;
            &&& steps.len() == n + 10
            &&& steps[0] matches ScriptStepView::Send(MessageView::Activate {
                generation: first,
                source_edge,
                ..
            })
            &&& first == 1 && source_edge == script.edge
            &&& steps[1] == ScriptStepView::AwaitHeartbeat { generation: first }
            &&& forall|i: int| 0 <= i < n ==> #[trigger] steps[2 + i] == input[i]
            &&& steps[n + 2] matches ScriptStepView::Send(MessageView::Deactivate {
                generation: ended,
                ..
            })
            &&& ended == first
            &&& steps[n + 4] matches ScriptStepView::Send(MessageView::Activate {
                generation: second,
                source_edge: again,
                ..
            })
            &&& second > first && again == script.edge
            &&& steps[n + 3] == ScriptStepView::UseGeneration { generation: second }
            &&& steps[n + 5] == ScriptStepView::AwaitHeartbeat { generation: second }
            &&& steps[n + 6] matches ScriptStepView::Send(MessageView::Motion {
                generation: moved,
                ..
            })
            &&& moved == second
            &&& steps[n + 7] matches ScriptStepView::Send(MessageView::Deactivate {
                generation: over,
                ..
            })
            &&& over == second
            &&& steps[n + 8] is FinishDelay
            &&& steps[n + 9] is Finish
        }),
{
}

/// The first handover is confirmed by a heartbeat of its number or by a request to return of its
/// number, which is granted; nothing else confirms it. While it is awaited under pressure, only
/// the heartbeat of its number does.
pub proof fn only_answers_to_the_handover_confirm_it(
    wait: PressureWait,
    frame: MockFrameView,
    generation: u64,
    edge_position: EdgePosition,
)
    ensures
        wait.confirmed_by(MockFrameView::Input(MessageView::Heartbeat { generation })) <==> generation
            == wait.generation,
        wait.confirmed_by(frame) ==> (frame matches MockFrameView::Input(
            MessageView::Heartbeat { .. },
        )),
        confirms_first(MockFrameView::Input(MessageView::Heartbeat { generation })) <==> generation
            == 1,
        confirms_first(
            MockFrameView::Input(MessageView::ReturnRequest { generation, edge_position }),
        ) <==> generation == 1,
        confirms_first(frame) ==> (frame matches MockFrameView::Input(message) && (message
            is Heartbeat || message is ReturnRequest)),
{
}

} // verus!
