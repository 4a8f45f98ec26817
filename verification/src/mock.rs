//! A stand-in for the other machine: it follows the messages of a sender on a virtual screen
//! and answers as a receiver would.

use crate::edge;
use crate::edge::EdgeOffset;
use crate::geometry::{DesktopLayout, DisplayRect, Point, ScreenEdge};
use crate::hotkey;
use crate::hotkey::{Hotkey, HotkeyError, HotkeyKey, ModifierMask};
use crate::hotkey_laws;
use crate::mapping;
use crate::mapping::InputPlatform;
use crate::movement;
use crate::numeric;
use crate::platform::MotionSample;
use crate::pressed;
use crate::protocol::{EdgePosition, InputMessage, MessageView};
use crate::receiver;
use crate::receiver_laws;
use crate::session::EDGE_INSET;
use crate::text;
use std::collections::BTreeSet;
use vstd::prelude::*;
use vstd::string::*;

verus! {

broadcast use vstd::std_specs::btree::group_btree_axioms;

/// What the virtual screen is set up with.
#[derive(Clone, Copy, Debug, PartialEq, Eq, Structural)]
pub struct ScreenMockOptions {
    pub edge: ScreenEdge,
    pub hotkey: Hotkey,
    pub width: i32,
    pub height: i32,
}

impl Default for ScreenMockOptions {
    fn default() -> (r: Self)
        ensures
            r.edge == ScreenEdge::Right,
            hotkey::parsed_hotkey(Hotkey::DEFAULT@) == Ok::<Hotkey, HotkeyError>(r.hotkey),
            r.width == 1280,
            r.height == 720,
    {
        proof {
            hotkey_laws::built_in_hotkey_is_valid();
        }
        ScreenMockOptions {
            edge: ScreenEdge::Right,
            hotkey: Hotkey { modifiers: ModifierMask(7), key: HotkeyKey::Hid(0x29) },
            width: 1280,
            height: 720,
        }
    }
}

/// Whether the virtual screen is larger than the insets of both edges.
pub fn validate_options(options: &ScreenMockOptions) -> (r: bool)
    ensures
        r == (options.width > 2 * EDGE_INSET && options.height > 2 * EDGE_INSET),
{
    !(options.width <= EDGE_INSET * 2 || options.height <= EDGE_INSET * 2)
}

/// What the window is set to.
#[derive(Clone, Copy, Debug, PartialEq, Eq, Structural)]
pub struct MockSettings {
    pub edge: ScreenEdge,
    pub hotkey: Hotkey,
    pub width: i32,
    pub height: i32,
    pub native_macos_to_windows: bool,
    pub native_windows_to_macos: bool,
    pub reverse_mouse_wheel: bool,
    pub reverse_trackpad: bool,
    pub filter_app_events: bool,
}

/// The values of the controls in the window.
#[derive(Clone, Copy, Debug, PartialEq, Eq, Structural)]
pub struct MockControls {
    pub edge_index: i32,
    pub width: i32,
    pub height: i32,
    pub native_macos_to_windows: bool,
    pub native_windows_to_macos: bool,
    pub reverse_mouse_wheel: bool,
    pub reverse_trackpad: bool,
    pub filter_app_events: bool,
}

impl Default for MockControls {
    /// What restoring the defaults sets the controls to.
    fn default() -> (r: Self)
        ensures
            r == (MockControls {
                edge_index: index_of_edge(ScreenEdge::Right) as i32,
                width: 1280,
                height: 720,
                native_macos_to_windows: false,
                native_windows_to_macos: false,
                reverse_mouse_wheel: false,
                reverse_trackpad: false,
                filter_app_events: true,
            }),
    {
        MockControls {
            edge_index: edge_index(ScreenEdge::Right),
            width: 1280,
            height: 720,
            native_macos_to_windows: false,
            native_windows_to_macos: false,
            reverse_mouse_wheel: false,
            reverse_trackpad: false,
            filter_app_events: true,
        }
    }
}

/// The settings that a window with these controls and this text for the hotkey shows.
pub open spec fn window_settings(controls: MockControls, shown: Seq<char>) -> Result<
    MockSettings,
    HotkeyError,
> {
    match hotkey::parsed_hotkey(text::trimmed(shown)) {
        Ok(hotkey) => Ok(
            MockSettings {
                edge: indexed_edge(controls.edge_index as int),
                hotkey,
                width: controls.width,
                height: controls.height,
                native_macos_to_windows: controls.native_macos_to_windows,
                native_windows_to_macos: controls.native_windows_to_macos,
                reverse_mouse_wheel: controls.reverse_mouse_wheel,
                reverse_trackpad: controls.reverse_trackpad,
                filter_app_events: controls.filter_app_events,
            },
        ),
        Err(error) => Err(error),
    }
}

impl MockSettings {
    /// The settings that the window shows, unless its hotkey is none.
    pub fn from_window(controls: MockControls, hotkey_text: &str) -> (r: Result<Self, HotkeyError>)
        ensures
            r == match hotkey::parsed_hotkey(text::trimmed(hotkey_text@)) {
                Ok(hotkey) => Ok::<MockSettings, HotkeyError>(
                    MockSettings {
                        edge: indexed_edge(controls.edge_index as int),
                        hotkey,
                        width: controls.width,
                        height: controls.height,
                        native_macos_to_windows: controls.native_macos_to_windows,
                        native_windows_to_macos: controls.native_windows_to_macos,
                        reverse_mouse_wheel: controls.reverse_mouse_wheel,
                        reverse_trackpad: controls.reverse_trackpad,
                        filter_app_events: controls.filter_app_events,
                    },
                ),
                Err(error) => Err(error),
            },
            r == window_settings(controls, hotkey_text@),
    {
        match Hotkey::from_chars(&text::trim(&text::chars_of(hotkey_text))) {
            Ok(hotkey) => Ok(
                MockSettings {
                    edge: edge_from_index(controls.edge_index),
                    hotkey,
                    width: controls.width,
                    height: controls.height,
                    native_macos_to_windows: controls.native_macos_to_windows,
                    native_windows_to_macos: controls.native_windows_to_macos,
                    reverse_mouse_wheel: controls.reverse_mouse_wheel,
                    reverse_trackpad: controls.reverse_trackpad,
                    filter_app_events: controls.filter_app_events,
                },
            ),
            Err(error) => Err(error),
        }
    }
}

/// The other platform.
pub fn opposite_platform(platform: InputPlatform) -> (r: InputPlatform)
    ensures
        r != platform,
{
    match platform {
        InputPlatform::Macos => InputPlatform::Windows,
        InputPlatform::Windows => InputPlatform::Macos,
    }
}

/// The name of a platform on screen.
pub fn platform_label(platform: InputPlatform) -> (r: &'static str)
    ensures
        r@ == match platform {
            InputPlatform::Macos => "macOS"@,
            InputPlatform::Windows => "Windows"@,
        },
{
    match platform {
        InputPlatform::Macos => "macOS",
        InputPlatform::Windows => "Windows",
    }
}

/// The place of an edge in the list of the window.
pub open spec fn index_of_edge(edge: ScreenEdge) -> int {
    match edge {
        ScreenEdge::Left => 0,
        ScreenEdge::Right => 1,
        ScreenEdge::Top => 2,
        ScreenEdge::Bottom => 3,
    }
}

/// The edge at a place of the list. Other numbers stand for the right edge.
pub open spec fn indexed_edge(index: int) -> ScreenEdge {
    if index == 0 {
        ScreenEdge::Left
    } else if index == 2 {
        ScreenEdge::Top
    } else if index == 3 {
        ScreenEdge::Bottom
    } else {
        ScreenEdge::Right
    }
}

pub fn edge_index(edge: ScreenEdge) -> (r: i32)
    ensures
        r == index_of_edge(edge),
{
    match edge {
        ScreenEdge::Left => 0,
        ScreenEdge::Right => 1,
        ScreenEdge::Top => 2,
        ScreenEdge::Bottom => 3,
    }
}

pub fn edge_from_index(index: i32) -> (r: ScreenEdge)
    ensures
        r == indexed_edge(index as int),
{
    match index {
        0 => ScreenEdge::Left,
        2 => ScreenEdge::Top,
        3 => ScreenEdge::Bottom,
        _ => ScreenEdge::Right,
    }
}

/// The edge at the place of an edge is that edge.
pub proof fn edge_index_round_trip(edge: ScreenEdge)
    ensures
        indexed_edge(index_of_edge(edge)) == edge,
{
}

/// Whether a button with the given bit is down. Button 1 has the first bit; so has button 0.
pub open spec fn bit_is_down(buttons: Set<u8>, bit: int) -> bool {
    buttons.contains((bit + 1) as u8) || (bit == 0 && buttons.contains(0))
}

/// The sum of the bits below `bits` whose buttons are down.
pub open spec fn mask_below(buttons: Set<u8>, bits: nat) -> int
    decreases bits,
{
    if bits == 0 {
        0
    } else {
        mask_below(buttons, (bits - 1) as nat) + if bit_is_down(buttons, bits - 1) {
            vstd::arithmetic::power2::pow2((bits - 1) as nat) as int
        } else {
            0
        }
    }
}

/// One bit for each of the first 32 buttons that is down.
pub fn button_mask(buttons: &BTreeSet<u8>) -> (r: u32)
    ensures
        r == mask_below(buttons@, 32),
{
    let mut mask: u64 = 0;
    let mut weight: u64 = 1;
    let mut bit: u8 = 0;
    proof {
        vstd::arithmetic::power2::lemma2_to64();
    }
    while bit < 32
        invariant
            bit <= 32,
            weight == vstd::arithmetic::power2::pow2(bit as nat),
            mask == mask_below(buttons@, bit as nat),
            mask < weight <= 0x1_0000_0000,
        decreases 32 - bit,
    {
        if buttons.contains(&(bit + 1)) || (bit == 0 && buttons.contains(&0)) {
            mask += weight;
        }
        proof {
            vstd::arithmetic::power2::lemma_pow2_unfold((bit + 1) as nat);
            vstd::arithmetic::power2::lemma2_to64();
            if bit < 31 {
                vstd::arithmetic::power2::lemma_pow2_strictly_increases((bit + 1) as nat, 32);
            }
        }
        weight *= 2;
        bit += 1;
    }
    mask as u32
}

/// The name of a mouse button.
pub open spec fn button_text(button: u8) -> Seq<char> {
    match button {
        1 => "left"@,
        2 => "middle"@,
        3 => "right"@,
        4 => "x1"@,
        5 => "x2"@,
        _ => "button-"@ + text::decimal_text(button as nat),
    }
}

/// The word for nothing down.
pub open spec fn nothing_text() -> Seq<char> {
    "无"@
}

/// The names of the keys that are down, in order of their numbers.
pub open spec fn key_names_text(keys: Set<u16>) -> Seq<char> {
    if keys.is_empty() {
        nothing_text()
    } else {
        text::joined(
            mapping::in_ascending_order(keys).map_values(|usage: u16| hotkey::key_text(usage)),
            ", "@,
        )
    }
}

/// The names of the buttons that are down, in order of their numbers.
pub open spec fn button_names_text(buttons: Set<u8>) -> Seq<char> {
    if buttons.is_empty() {
        nothing_text()
    } else {
        text::joined(
            pressed::bytes_below(buttons, 256).map_values(|button: u8| button_text(button)),
            ", "@,
        )
    }
}

fn append_button_name(out: &mut String, button: u8)
    ensures
        final(out)@ == old(out)@ + button_text(button),
{
    match button {
        1 => out.append("left"),
        2 => out.append("middle"),
        3 => out.append("right"),
        4 => out.append("x1"),
        5 => out.append("x2"),
        other => {
            out.append("button-");
            text::append_decimal(out, other as u64);
            assert(out@ =~= old(out)@ + button_text(button));
        },
    }
}

/// The names of the keys that are down.
pub fn pressed_names(usages: &BTreeSet<u16>) -> (r: String)
    ensures
        r@ == key_names_text(usages@),
{
    if usages.is_empty() {
        return "无".to_owned();
    }
    let keys = mapping::ascending_keys(usages);
    let ghost names = keys@.map_values(|usage: u16| hotkey::key_text(usage));
    let mut out = String::new();
    let mut i: usize = 0;
    while i < keys.len()
        invariant
            i <= keys@.len(),
            names == keys@.map_values(|usage: u16| hotkey::key_text(usage)),
            out@ == text::joined(names.take(i as int), ", "@),
        decreases keys@.len() - i,
    {
        proof {
            assert(names.take(i + 1).drop_last() =~= names.take(i as int));
            assert(names.take(i + 1).last() == hotkey::key_text(keys@[i as int]));
        }
        if i > 0 {
            out.append(", ");
        }
        hotkey::append_key_name(&mut out, keys[i]);
        assert(out@ =~= text::joined(names.take(i + 1), ", "@));
        i += 1;
    }
    assert(names.take(i as int) =~= names);
    out
}

/// The names of the buttons that are down.
pub fn pressed_button_names(buttons: &BTreeSet<u8>) -> (r: String)
    ensures
        r@ == button_names_text(buttons@),
{
    if buttons.is_empty() {
        return "无".to_owned();
    }
    let mut out = String::new();
    let mut first = true;
    let mut n: u16 = 0;
    while n < 256
        invariant
            n <= 256,
            first == (pressed::bytes_below(buttons@, n as nat).len() == 0),
            out@ == text::joined(
                pressed::bytes_below(buttons@, n as nat).map_values(|button: u8| button_text(button)),
                ", "@,
            ),
        decreases 256 - n,
    {
        let button: u8 = n as u8;
        let ghost before = pressed::bytes_below(buttons@, n as nat);
        let ghost names = before.map_values(|button: u8| button_text(button));
        if buttons.contains(&button) {
            proof {
                let grown = before.push(button).map_values(|button: u8| button_text(button));
                assert(grown =~= names.push(button_text(button)));
                assert(grown.drop_last() =~= names);
            }
            if !first {
                out.append(", ");
            }
            append_button_name(&mut out, button);
            first = false;
            assert(out@ =~= text::joined(names.push(button_text(button)), ", "@));
        }
        n += 1;
    }
    out
}

/// What last happened on the virtual screen.
#[derive(Clone, Copy, Debug, PartialEq, Eq, Structural)]
pub enum PeerNote {
    Waiting,
    /// The pointer came in.
    Entered { position: EdgePosition, cursor: Point },
    /// The sender took control back.
    Restored,
    /// The pointer left, and the sender was asked to take control back.
    AskedToReturn { at: EdgeOffset },
    /// The sender agreed to take control back.
    Returned { position: EdgePosition },
    Key { usage: u16, modifiers: ModifierMask, down: bool, repeat: bool },
    Button { button: u8, down: bool },
    Wheel { x: i32, y: i32 },
    SecureDesktop { active: bool },
    /// The pointer moved on the sender's own desktop.
    LocalSample { point: Point, dx: i32, dy: i32 },
}

/// What the stand-in wants done.
#[derive(Clone, Copy, Debug, PartialEq, Eq, Structural)]
pub enum PeerAction {
    /// Work out where the pointer comes in, and report it.
    PlaceCursor { edge: ScreenEdge, position: EdgePosition },
    /// Send a request to return at the position.
    RequestReturn { generation: u64, at: EdgeOffset },
    /// Send a heartbeat.
    Heartbeat { generation: u64 },
}

/// The stand-in for the other machine.
#[derive(Debug)]
pub struct MockPeer {
    layout: DesktopLayout,
    generation: u64,
    active: bool,
    return_edge: ScreenEdge,
    cursor: Point,
    last_local_position: Option<Point>,
    last_delta: Point,
    keys: BTreeSet<u16>,
    buttons: BTreeSet<u8>,
    wheel: Point,
    note: PeerNote,
}

/// The state of the stand-in.
pub struct PeerView {
    pub displays: Seq<DisplayRect>,
    pub generation: u64,
    pub active: bool,
    pub return_edge: ScreenEdge,
    pub cursor: Point,
    pub last_local_position: Option<Point>,
    pub last_delta: Point,
    pub keys: Set<u16>,
    pub buttons: Set<u8>,
    /// All scrolling so far.
    pub wheel: Point,
    pub note: PeerNote,
}

impl View for MockPeer {
    type V = PeerView;

    closed spec fn view(&self) -> PeerView {
        PeerView {
            displays: self.layout@,
            generation: self.generation,
            active: self.active,
            return_edge: self.return_edge,
            cursor: self.cursor,
            last_local_position: self.last_local_position,
            last_delta: self.last_delta,
            keys: self.keys@,
            buttons: self.buttons@,
            wheel: self.wheel,
            note: self.note,
        }
    }
}

/// The state in which the stand-in starts.
pub open spec fn initial_peer(displays: Seq<DisplayRect>) -> PeerView {
    PeerView {
        displays,
        generation: 0,
        active: false,
        return_edge: ScreenEdge::Left,
        cursor: Point { x: 0, y: 0 },
        last_local_position: None,
        last_delta: Point { x: 0, y: 0 },
        keys: Set::empty(),
        buttons: Set::empty(),
        wheel: Point { x: 0, y: 0 },
        note: PeerNote::Waiting,
    }
}

impl PeerView {
    /// Control is gone, with nothing down.
    pub open spec fn released(self, note: PeerNote) -> PeerView {
        PeerView { active: false, keys: Set::empty(), buttons: Set::empty(), note, ..self }
    }

    /// Whether a message of the given handover counts.
    pub open spec fn accepts(self, generation: u64) -> bool {
        self.active && generation == self.generation
    }

    /// Whether a movement leaves the virtual screen through the return edge.
    pub open spec fn leaves(self, dx: int, dy: int) -> bool {
        movement::crosses_outer_edge(self.displays, self.return_edge, self.cursor, dx, dy)
    }

    /// The position on the return edge beside the pointer.
    pub open spec fn exit_offset(self) -> EdgeOffset {
        edge::offset_on_edge(self.displays, self.return_edge, self.cursor)
    }

    /// The state after a message of the sender.
    pub open spec fn after_message(self, message: MessageView) -> PeerView {
        match message {
            MessageView::Activate { generation, source_edge, pressed, .. } => PeerView {
                generation,
                active: true,
                return_edge: source_edge.opposite_edge(),
                keys: pressed.usages.to_set(),
                buttons: pressed.buttons.to_set(),
                ..self
            },
            MessageView::Deactivate { generation, .. } => if generation == self.generation {
                self.released(PeerNote::Restored)
            } else {
                self
            },
            MessageView::Return { generation, edge_position } => if self.accepts(generation) {
                self.released(PeerNote::Returned { position: edge_position })
            } else {
                self
            },
            MessageView::Motion { generation, dx, dy } => if self.accepts(generation) {
                PeerView {
                    last_delta: Point { x: dx, y: dy },
                    cursor: receiver::moved_point(self.displays, self.cursor, dx as int, dy as int),
                    note: if self.leaves(dx as int, dy as int) {
                        PeerNote::AskedToReturn { at: self.exit_offset() }
                    } else {
                        self.note
                    },
                    ..self
                }
            } else {
                self
            },
            MessageView::Key { generation, usage, modifiers, down, repeat } => if self.accepts(
                generation,
            ) {
                PeerView {
                    keys: if down {
                        self.keys.insert(usage)
                    } else {
                        self.keys.remove(usage)
                    },
                    note: PeerNote::Key { usage, modifiers, down, repeat },
                    ..self
                }
            } else {
                self
            },
            MessageView::Button { generation, button, down } => if self.accepts(generation) {
                PeerView {
                    buttons: if down {
                        self.buttons.insert(button)
                    } else {
                        self.buttons.remove(button)
                    },
                    note: PeerNote::Button { button, down },
                    ..self
                }
            } else {
                self
            },
            MessageView::Wheel { generation, x, y } => if self.accepts(generation) {
                PeerView {
                    wheel: Point {
                        x: numeric::saturate(self.wheel.x + x) as i32,
                        y: numeric::saturate(self.wheel.y + y) as i32,
                    },
                    note: PeerNote::Wheel { x, y },
                    ..self
                }
            } else {
                self
            },
            MessageView::SecureDesktop { active } => PeerView {
                note: PeerNote::SecureDesktop { active },
                ..self
            },
            _ => self,
        }
    }

    /// What is done about a message of the sender.
    pub open spec fn message_action(self, message: MessageView) -> Option<PeerAction> {
        match message {
            MessageView::Activate { source_edge, edge_position, .. } => Some(
                PeerAction::PlaceCursor {
                    edge: source_edge.opposite_edge(),
                    position: edge_position,
                },
            ),
            MessageView::Motion { generation, dx, dy } => if self.accepts(generation)
                && self.leaves(dx as int, dy as int) {
                Some(
                    PeerAction::RequestReturn {
                        generation: self.generation,
                        at: self.exit_offset(),
                    },
                )
            } else {
                None
            },
            _ => None,
        }
    }

    /// The state after a look at the sender's own pointer, which counts without control only.
    pub open spec fn after_sample(self, sample: MotionSample) -> PeerView {
        let delta = Point { x: sample.dx, y: sample.dy };
        if self.active || (delta == self.last_delta && sample.position == self.last_local_position) {
            self
        } else {
            PeerView {
                last_delta: delta,
                last_local_position: sample.position,
                note: match sample.position {
                    Some(point) => PeerNote::LocalSample { point, dx: sample.dx, dy: sample.dy },
                    None => self.note,
                },
                ..self
            }
        }
    }
}

/// What the window shows.
#[derive(Debug)]
pub struct PeerFrame {
    pub active: bool,
    pub cursor: Point,
    pub delta: Point,
    pub key_count: usize,
    pub button_mask: u32,
    pub wheel: Point,
    pub note: PeerNote,
    pub remote_keys: String,
    pub remote_buttons: String,
}

fn collect_u16(list: &Vec<u16>) -> (r: BTreeSet<u16>)
    ensures
        r@ == list@.to_set(),
{
    let mut set: BTreeSet<u16> = BTreeSet::new();
    let mut i: usize = 0;
    assert(list@.take(0).to_set() =~= Set::<u16>::empty());
    while i < list.len()
        invariant
            i <= list@.len(),
            set@ == list@.take(i as int).to_set(),
        decreases list@.len() - i,
    {
        proof {
            pressed::lemma_take_grows(list@, i as int);
        }
        set.insert(list[i]);
        i += 1;
    }
    assert(list@.take(i as int) =~= list@);
    set
}

fn collect_u8(list: &Vec<u8>) -> (r: BTreeSet<u8>)
    ensures
        r@ == list@.to_set(),
{
    let mut set: BTreeSet<u8> = BTreeSet::new();
    let mut i: usize = 0;
    assert(list@.take(0).to_set() =~= Set::<u8>::empty());
    while i < list.len()
        invariant
            i <= list@.len(),
            set@ == list@.take(i as int).to_set(),
        decreases list@.len() - i,
    {
        proof {
            pressed::lemma_take_grows(list@, i as int);
        }
        set.insert(list[i]);
        i += 1;
    }
    assert(list@.take(i as int) =~= list@);
    set
}

impl MockPeer {
    /// A stand-in on a virtual screen.
    pub fn new(layout: DesktopLayout) -> (r: Self)
        requires
            receiver::usable_desktop(layout@),
        ensures
            r@ == initial_peer(layout@),
    {
        MockPeer {
            layout,
            generation: 0,
            active: false,
            return_edge: ScreenEdge::Left,
            cursor: Point { x: 0, y: 0 },
            last_local_position: None,
            last_delta: Point { x: 0, y: 0 },
            keys: BTreeSet::new(),
            buttons: BTreeSet::new(),
            wheel: Point { x: 0, y: 0 },
            note: PeerNote::Waiting,
        }
    }

    fn release(&mut self, note: PeerNote)
        ensures
            final(self)@ == old(self)@.released(note),
    {
        self.active = false;
        self.keys.clear();
        self.buttons.clear();
        self.note = note;
    }

    /// The sender has sent a message.
    pub fn receive(&mut self, message: InputMessage) -> (r: Option<PeerAction>)
        requires
            receiver::usable_desktop(old(self)@.displays),
        ensures
            final(self)@ == old(self)@.after_message(message@),
            r == old(self)@.message_action(message@),
    {
        match message {
            InputMessage::Activate { generation, source_edge, edge_position, pressed } => {
                self.generation = generation;
                self.active = true;
                self.return_edge = source_edge.opposite();
                self.keys = collect_u16(&pressed.usages);
                self.buttons = collect_u8(&pressed.buttons);
                Some(PeerAction::PlaceCursor { edge: self.return_edge, position: edge_position })
            },
            InputMessage::Deactivate { generation, edge_position: _ } => {
                if generation == self.generation {
                    self.release(PeerNote::Restored);
                }
                None
            },
            InputMessage::Return { generation, edge_position } => {
                if self.active && generation == self.generation {
                    self.release(PeerNote::Returned { position: edge_position });
                }
                None
            },
            InputMessage::Motion { generation, dx, dy } => {
                if self.active && generation == self.generation {
                    self.last_delta = Point { x: dx, y: dy };
                    let crossed = self.layout.crossed_outer_edge_position(
                        self.return_edge,
                        self.cursor,
                        dx,
                        dy,
                    );
                    self.cursor = self.layout.move_within_layout(self.cursor, dx, dy);
                    if let Some(at) = crossed {
                        self.note = PeerNote::AskedToReturn { at };
                        return Some(PeerAction::RequestReturn { generation: self.generation, at });
                    }
                }
                None
            },
            InputMessage::Key { generation, usage, modifiers, down, repeat } => {
                if self.active && generation == self.generation {
                    if down {
                        self.keys.insert(usage);
                    } else {
                        self.keys.remove(&usage);
                    }
                    self.note = PeerNote::Key { usage, modifiers, down, repeat };
                }
                None
            },
            InputMessage::Button { generation, button, down } => {
                if self.active && generation == self.generation {
                    if down {
                        self.buttons.insert(button);
                    } else {
                        self.buttons.remove(&button);
                    }
                    self.note = PeerNote::Button { button, down };
                }
                None
            },
            InputMessage::Wheel { generation, x, y } => {
                if self.active && generation == self.generation {
                    self.wheel = Point {
                        x: numeric::saturating_sum(self.wheel.x, x),
                        y: numeric::saturating_sum(self.wheel.y, y),
                    };
                    self.note = PeerNote::Wheel { x, y };
                }
                None
            },
            InputMessage::SecureDesktop { active } => {
                self.note = PeerNote::SecureDesktop { active };
                None
            },
            _ => None,
        }
    }

    /// The point where the pointer comes in was worked out.
    pub fn placed(&mut self, position: EdgePosition, entry: Point)
        ensures
            final(self)@ == (PeerView {
                cursor: entry,
                note: PeerNote::Entered { position, cursor: entry },
                ..old(self)@
            }),
    {
        self.cursor = entry;
        self.note = PeerNote::Entered { position, cursor: entry };
    }

    /// It is time to send a heartbeat.
    pub fn heartbeat(&self) -> (r: PeerAction)
        ensures
            r == (PeerAction::Heartbeat { generation: self@.generation }),
    {
        PeerAction::Heartbeat { generation: self.generation }
    }

    /// Whether the stand-in has control.
    pub fn is_active(&self) -> (r: bool)
        ensures
            r == self@.active,
    {
        self.active
    }

    /// A look at the sender's own pointer.
    pub fn observe(&mut self, sample: MotionSample)
        ensures
            final(self)@ == old(self)@.after_sample(sample),
    {
        let delta = Point { x: sample.dx, y: sample.dy };
        if !self.active && (delta != self.last_delta || !same_position(
            sample.position,
            self.last_local_position,
        )) {
            self.last_delta = delta;
            self.last_local_position = sample.position;
            if let Some(point) = sample.position {
                self.note = PeerNote::LocalSample { point, dx: sample.dx, dy: sample.dy };
            }
        }
    }

    /// What the window shows.
    pub fn frame(&self) -> (r: PeerFrame)
        ensures
            r.active == self@.active,
            r.cursor == self@.cursor,
            r.delta == self@.last_delta,
            r.key_count == self@.keys.len(),
            r.button_mask == mask_below(self@.buttons, 32),
            r.wheel == self@.wheel,
            r.note == self@.note,
            r.remote_keys@ == key_names_text(self@.keys),
            r.remote_buttons@ == button_names_text(self@.buttons),
    {
        PeerFrame {
            active: self.active,
            cursor: self.cursor,
            delta: self.last_delta,
            key_count: self.keys.len(),
            button_mask: button_mask(&self.buttons),
            wheel: self.wheel,
            note: self.note,
            remote_keys: pressed_names(&self.keys),
            remote_buttons: pressed_button_names(&self.buttons),
        }
    }
}

fn same_position(a: Option<Point>, b: Option<Point>) -> (r: bool)
    ensures
        r == (a == b),
{
    match (a, b) {
        (Some(p), Some(q)) => p == q,
        (None, None) => true,
        _ => false,
    }
}

/// The stand-in gives control back only when the sender says so, and then has nothing down.
pub proof fn peer_keeps_control_until_told(state: PeerView, message: MessageView)
    requires
        state.active,
    ensures
        !state.after_message(message).active ==> {
            &&& message is Deactivate || message is Return
            &&& state.after_message(message).keys.is_empty()
            &&& state.after_message(message).buttons.is_empty()
        },
        state.message_action(message) is Some && message is Motion ==> state.after_message(
            message,
        ).active,
{
}

/// Wherever the pointer is moved to on the virtual screen, it stays there.
pub proof fn peer_pointer_stays_on_screen(state: PeerView, message: MessageView)
    requires
        state.displays.len() > 0,
        movement::all_visible(state.displays),
        message matches MessageView::Motion { generation, .. } && state.accepts(generation),
    ensures
        crate::geometry::on_desktop(
            state.displays,
            state.after_message(message).cursor.x as int,
            state.after_message(message).cursor.y as int,
        ),
{
    if let MessageView::Motion { generation, dx, dy } = message {
        movement::moved_pointer_stays_on_desktop(state.displays, state.cursor, dx as int, dy as int);
        movement::moved_point_fits(state.displays, state.cursor, dx as int, dy as int);
    }
}

/// A handover puts the stand-in in control under its number, with what is held down there, and
/// has the pointer put in at the edge across from where it left, at the position where it did.
pub proof fn peer_takes_a_handover(state: PeerView, message: MessageView)
    requires
        message is Activate,
    ensures
        message matches MessageView::Activate { generation, source_edge, edge_position, pressed } ==> {
            let next = state.after_message(message);
            &&& next.active && next.generation == generation
            &&& receiver_laws::across(source_edge, next.return_edge)
            &&& forall|usage: u16| #[trigger]
                next.keys.contains(usage) <==> pressed.usages.contains(usage)
            &&& forall|button: u8| #[trigger]
                next.buttons.contains(button) <==> pressed.buttons.contains(button)
            &&& state.message_action(message) == Some(
                PeerAction::PlaceCursor { edge: next.return_edge, position: edge_position },
            )
            &&& next.cursor == state.cursor && next.wheel == state.wheel
        },
{
    broadcast use vstd::seq_lib::group_seq_properties;

}

/// Input counts for the stand-in only while it is in control and only of the current handover.
/// All else leaves it as it was, and nothing is done about it.
pub proof fn peer_ignores_input_of_other_handovers(
    state: PeerView,
    message: MessageView,
    generation: u64,
)
    requires
        !state.active || generation != state.generation,
        message matches MessageView::Motion { generation: of, .. } && of == generation || (message matches MessageView::Key {
            generation: of,
            ..
        } && of == generation) || (message matches MessageView::Button { generation: of, .. } && of
            == generation) || (message matches MessageView::Wheel { generation: of, .. } && of
            == generation) || (message matches MessageView::Return { generation: of, .. } && of
            == generation),
    ensures
        state.after_message(message) == state,
        state.message_action(message) is None,
{
}

/// A key, a button or the wheel of the current handover changes what it is of, by what it says,
/// and nothing else of what is held.
pub proof fn peer_follows_input(
    state: PeerView,
    usage: u16,
    button: u8,
    modifiers: ModifierMask,
    down: bool,
    repeat: bool,
    x: i32,
    y: i32,
    other_key: u16,
    other_button: u8,
)
    requires
        state.active,
    ensures
        ({
            let generation = state.generation;
            let keyed = state.after_message(
                MessageView::Key { generation, usage, modifiers, down, repeat },
            );
            let clicked = state.after_message(MessageView::Button { generation, button, down });
            let turned = state.after_message(MessageView::Wheel { generation, x, y });
            &&& keyed.keys.contains(usage) == down
            &&& other_key != usage ==> keyed.keys.contains(other_key) == state.keys.contains(
                other_key,
            )
            &&& keyed.buttons == state.buttons && keyed.cursor == state.cursor
            &&& clicked.buttons.contains(button) == down
            &&& other_button != button ==> clicked.buttons.contains(other_button)
                == state.buttons.contains(other_button)
            &&& clicked.keys == state.keys && clicked.cursor == state.cursor
            &&& i32::MIN <= state.wheel.x + x <= i32::MAX ==> turned.wheel.x - state.wheel.x == x
            &&& i32::MIN <= state.wheel.y + y <= i32::MAX ==> turned.wheel.y - state.wheel.y == y
            &&& turned.keys == state.keys && turned.buttons == state.buttons
            &&& keyed.active && clicked.active && turned.active
        }),
{
}

/// A movement of the current handover moves the pointer by its amount where a display is, and is
/// shown as it is. Where it leaves through the return edge the sender is asked, under the number
/// of the handover, to take control back there; the stand-in keeps it until then.
pub proof fn peer_follows_movements(state: PeerView, dx: i32, dy: i32)
    requires
        state.active,
    ensures
        ({
            let message = MessageView::Motion { generation: state.generation, dx, dy };
            let next = state.after_message(message);
            let x = state.cursor.x + dx;
            let y = state.cursor.y + dy;
            &&& next.last_delta == Point { x: dx, y: dy }
            &&& next.active && next.keys == state.keys && next.buttons == state.buttons
            &&& i32::MIN <= x <= i32::MAX && i32::MIN <= y <= i32::MAX
                && crate::geometry::on_desktop(state.displays, x, y) ==> next.cursor.x == x
                && next.cursor.y == y
            &&& state.message_action(message) is Some <==> movement::crosses_outer_edge(
                state.displays,
                state.return_edge,
                state.cursor,
                dx as int,
                dy as int,
            )
            &&& state.message_action(message) matches Some(action) ==> action
                == PeerAction::RequestReturn {
                generation: state.generation,
                at: edge::offset_on_edge(state.displays, state.return_edge, state.cursor),
            }
        }),
{
}

/// A look at the sender's own pointer shows what it saw, unless the stand-in is in control; it
/// changes nothing of what is held or of the stand-in's own pointer.
pub proof fn peer_shows_what_it_sees(state: PeerView, sample: MotionSample)
    ensures
        state.active ==> state.after_sample(sample) == state,
        !state.active ==> {
            &&& state.after_sample(sample).last_delta == Point { x: sample.dx, y: sample.dy }
            &&& state.after_sample(sample).last_local_position == sample.position
        },
        state.after_sample(sample).cursor == state.cursor,
        state.after_sample(sample).keys == state.keys,
        state.after_sample(sample).buttons == state.buttons,
        state.after_sample(sample).active == state.active,
{
}

/// Every button has its bit in the mask of buttons: one that goes down adds its own and no other,
/// the first button the lowest. Buttons above the 32nd have none, and without buttons it is zero.
pub proof fn each_button_adds_its_bit(buttons: Set<u8>, button: u8, bits: nat)
    requires
        button > 0,
        !buttons.contains(button),
        button == 1 ==> !buttons.contains(0),
        bits <= 32,
    ensures
        mask_below(buttons.insert(button), bits) == mask_below(buttons, bits) + if button <= bits {
            vstd::arithmetic::power2::pow2((button - 1) as nat) as int
        } else {
            0
        },
        mask_below(Set::empty(), bits) == 0,
    decreases bits,
{
    if bits > 0 {
        each_button_adds_its_bit(buttons, button, (bits - 1) as nat);
        assert(bit_is_down(buttons.insert(button), bits - 1) == (bit_is_down(buttons, bits - 1)
            || bits == button));
    }
}

/// The window sets each setting by the control of that name, its edge by the place in the list,
/// and its hotkey by the text, white space around it or not.
pub proof fn window_sets_what_it_shows(controls: MockControls, shown: Seq<char>)
    ensures
        window_settings(controls, shown) is Ok <==> hotkey::parsed_hotkey(text::trimmed(shown)) is Ok,
        window_settings(controls, shown) matches Err(error) ==> hotkey::parsed_hotkey(
            text::trimmed(shown),
        ) == Err::<Hotkey, HotkeyError>(error),
        window_settings(controls, shown) matches Ok(settings) ==> {
            &&& Ok::<Hotkey, HotkeyError>(settings.hotkey) == hotkey::parsed_hotkey(
                text::trimmed(shown),
            )
            &&& settings.edge is Left <==> controls.edge_index == 0
            &&& settings.edge is Top <==> controls.edge_index == 2
            &&& settings.edge is Bottom <==> controls.edge_index == 3
            &&& settings.width == controls.width && settings.height == controls.height
            &&& settings.native_macos_to_windows == controls.native_macos_to_windows
            &&& settings.native_windows_to_macos == controls.native_windows_to_macos
            &&& settings.reverse_mouse_wheel == controls.reverse_mouse_wheel
            &&& settings.reverse_trackpad == controls.reverse_trackpad
            &&& settings.filter_app_events == controls.filter_app_events
        },
{
}

} // verus!
