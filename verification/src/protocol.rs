//! The messages of the input channel.

use crate::channel::InputChannelRole;
use crate::framing;
use crate::framing::FrameError;
use crate::geometry::{DesktopLayout, DisplayRect, ScreenEdge};
use crate::hotkey::ModifierMask;
use crate::mapping::InputPlatform;
use vstd::prelude::*;

verus! {

/// The longest content of a message frame.
pub const MAX_INPUT_FRAME_LEN: usize = 65536;

/// Keys and buttons that are down.
#[derive(Debug, PartialEq, Eq)]
pub struct KeySnapshot {
    pub usages: Vec<u16>,
    pub modifiers: ModifierMask,
    pub buttons: Vec<u8>,
}

/// What a snapshot holds.
pub struct SnapshotView {
    pub usages: Seq<u16>,
    pub modifiers: ModifierMask,
    pub buttons: Seq<u8>,
}

impl View for KeySnapshot {
    type V = SnapshotView;

    open spec fn view(&self) -> SnapshotView {
        SnapshotView { usages: self.usages@, modifiers: self.modifiers, buttons: self.buttons@ }
    }
}

impl Clone for KeySnapshot {
    fn clone(&self) -> (r: Self)
        ensures
            r@ == self@,
    {
        let usages = self.usages.clone();
        let buttons = self.buttons.clone();
        assert(usages@ =~= self.usages@);
        assert(buttons@ =~= self.buttons@);
        KeySnapshot { usages, modifiers: self.modifiers, buttons }
    }
}

impl SnapshotView {
    /// Whether no key and no button is down.
    pub open spec fn nothing_down(self) -> bool {
        self.usages.len() == 0 && self.buttons.len() == 0
    }
}

/// The snapshot with nothing down.
pub open spec fn empty_view() -> SnapshotView {
    SnapshotView { usages: Seq::empty(), modifiers: ModifierMask(0), buttons: Seq::empty() }
}

/// A position along an edge, a fraction of its length, as the bits of a 32-bit binary fraction.
#[derive(Clone, Copy, Debug, PartialEq, Eq, Structural)]
pub struct EdgePosition {
    pub bits: u32,
}

/// A message between the two ends of the input channel.
#[allow(inconsistent_fields)]
#[derive(Clone, Debug, PartialEq)]
pub enum InputMessage {
    /// What each end sends first: it knows the secret.
    Proof { role: InputChannelRole, proof: [u8; 32] },
    /// The sender's desktop, from peers that do not name their platform.
    Layout(DesktopLayout),
    /// What each end sends after the proofs.
    Hello { platform: InputPlatform, layout: DesktopLayout },
    /// The pointer has left the sender's desktop; the receiver takes over.
    Activate {
        generation: u64,
        source_edge: ScreenEdge,
        edge_position: EdgePosition,
        pressed: KeySnapshot,
    },
    /// Control goes back at once.
    Deactivate { generation: u64, edge_position: Option<EdgePosition> },
    /// The pointer has left the receiver's desktop; it asks to give control back.
    ReturnRequest { generation: u64, edge_position: EdgePosition },
    /// The sender has taken control back.
    Return { generation: u64, edge_position: EdgePosition },
    Heartbeat { generation: u64 },
    Key { generation: u64, usage: u16, modifiers: ModifierMask, down: bool, repeat: bool },
    Button { generation: u64, button: u8, down: bool },
    Motion { generation: u64, dx: i32, dy: i32 },
    Wheel { generation: u64, x: i32, y: i32 },
    /// A secure desktop has come to the front on the other machine, or has gone.
    SecureDesktop { active: bool },
}

/// What a message holds.
#[allow(inconsistent_fields)]
pub enum MessageView {
    Proof { role: InputChannelRole, proof: Seq<u8> },
    Layout(Seq<DisplayRect>),
    Hello { platform: InputPlatform, layout: Seq<DisplayRect> },
    Activate {
        generation: u64,
        source_edge: ScreenEdge,
        edge_position: EdgePosition,
        pressed: SnapshotView,
    },
    Deactivate { generation: u64, edge_position: Option<EdgePosition> },
    ReturnRequest { generation: u64, edge_position: EdgePosition },
    Return { generation: u64, edge_position: EdgePosition },
    Heartbeat { generation: u64 },
    Key { generation: u64, usage: u16, modifiers: ModifierMask, down: bool, repeat: bool },
    Button { generation: u64, button: u8, down: bool },
    Motion { generation: u64, dx: i32, dy: i32 },
    Wheel { generation: u64, x: i32, y: i32 },
    SecureDesktop { active: bool },
}

impl View for InputMessage {
    type V = MessageView;

    open spec fn view(&self) -> MessageView {
        match *self {
            InputMessage::Proof { role, proof } => MessageView::Proof { role, proof: proof@ },
            InputMessage::Layout(layout) => MessageView::Layout(layout@),
            InputMessage::Hello { platform, layout } => MessageView::Hello {
                platform,
                layout: layout@,
            },
            InputMessage::Activate { generation, source_edge, edge_position, pressed } => {
                MessageView::Activate { generation, source_edge, edge_position, pressed: pressed@ }
            },
            InputMessage::Deactivate { generation, edge_position } => MessageView::Deactivate {
                generation,
                edge_position,
            },
            InputMessage::ReturnRequest { generation, edge_position } => {
                MessageView::ReturnRequest { generation, edge_position }
            },
            InputMessage::Return { generation, edge_position } => MessageView::Return {
                generation,
                edge_position,
            },
            InputMessage::Heartbeat { generation } => MessageView::Heartbeat { generation },
            InputMessage::Key { generation, usage, modifiers, down, repeat } => MessageView::Key {
                generation,
                usage,
                modifiers,
                down,
                repeat,
            },
            InputMessage::Button { generation, button, down } => MessageView::Button {
                generation,
                button,
                down,
            },
            InputMessage::Motion { generation, dx, dy } => MessageView::Motion {
                generation,
                dx,
                dy,
            },
            InputMessage::Wheel { generation, x, y } => MessageView::Wheel { generation, x, y },
            InputMessage::SecureDesktop { active } => MessageView::SecureDesktop { active },
        }
    }
}

impl MessageView {
    /// The name of the kind of message, for logs.
    pub open spec fn name(self) -> Seq<char> {
        match self {
            MessageView::Proof { .. } => "Proof"@,
            MessageView::Layout(_) => "Layout"@,
            MessageView::Hello { .. } => "Hello"@,
            MessageView::Activate { .. } => "Activate"@,
            MessageView::Deactivate { .. } => "Deactivate"@,
            MessageView::ReturnRequest { .. } => "ReturnRequest"@,
            MessageView::Return { .. } => "Return"@,
            MessageView::Heartbeat { .. } => "Heartbeat"@,
            MessageView::Key { .. } => "Key"@,
            MessageView::Button { .. } => "Button"@,
            MessageView::Motion { .. } => "Motion"@,
            MessageView::Wheel { .. } => "Wheel"@,
            MessageView::SecureDesktop { .. } => "SecureDesktop"@,
        }
    }
}

/// The name of the kind of message, for logs.
pub fn message_name(message: &InputMessage) -> (r: &'static str)
    ensures
        r@ == message@.name(),
{
    match message {
        InputMessage::Proof { .. } => "Proof",
        InputMessage::Layout(_) => "Layout",
        InputMessage::Hello { .. } => "Hello",
        InputMessage::Activate { .. } => "Activate",
        InputMessage::Deactivate { .. } => "Deactivate",
        InputMessage::ReturnRequest { .. } => "ReturnRequest",
        InputMessage::Return { .. } => "Return",
        InputMessage::Heartbeat { .. } => "Heartbeat",
        InputMessage::Key { .. } => "Key",
        InputMessage::Button { .. } => "Button",
        InputMessage::Motion { .. } => "Motion",
        InputMessage::Wheel { .. } => "Wheel",
        InputMessage::SecureDesktop { .. } => "SecureDesktop",
    }
}

/// The snapshot with nothing down.
pub fn empty_snapshot() -> (r: KeySnapshot)
    ensures
        r@ == empty_view(),
{
    let r = KeySnapshot { usages: Vec::new(), modifiers: ModifierMask(0), buttons: Vec::new() };
    assert(r.usages@ =~= Seq::<u16>::empty());
    assert(r.buttons@ =~= Seq::<u8>::empty());
    r
}

/// The frame for an encoded message. An encoded message over the limit is refused.
pub fn frame_message(content: &Vec<u8>) -> (r: Result<Vec<u8>, FrameError>)
    ensures
        match r {
            Ok(bytes) => content@.len() <= MAX_INPUT_FRAME_LEN && bytes@ == framing::framed(
                content@,
            ),
            Err(error) => content@.len() > MAX_INPUT_FRAME_LEN && error == FrameError::TooLong(
                content@.len() as usize,
            ),
        },
{
    framing::frame(content, MAX_INPUT_FRAME_LEN, true)
}

/// The length of the encoded message behind the four bytes of a frame.
pub fn message_length(prefix: &[u8; 4]) -> (r: Result<usize, FrameError>)
    ensures
        ({
            let n = framing::length_value(prefix@);
            match r {
                Ok(len) => len == n && 1 <= n <= MAX_INPUT_FRAME_LEN,
                Err(FrameError::Empty) => n == 0,
                Err(FrameError::TooLong(len)) => len == n && n > MAX_INPUT_FRAME_LEN,
            }
        }),
{
    framing::content_length(prefix, MAX_INPUT_FRAME_LEN)
}

} // verus!
