//! Windows: what happens to the events of the system, and how capture is switched.

use crate::cursor_capture;
use crate::cursor_capture::{CapturePhase, CursorCaptureTracker, CursorMove, TrackerView};
use crate::geometry::{DesktopLayout, DisplayRect, LayoutError, Point};
use crate::hotkey::{Hotkey, ModifierMask};
use crate::macos;
use crate::movement;
use crate::platform::{NativeEvent, NativeView, ScrollSource};
use crate::pressed;
use crate::pressed::{PressedState, PressedView};
use crate::protocol::{KeySnapshot, SnapshotView};
use crate::text;
use crate::windows_keys;
use std::collections::BTreeSet;
use vstd::prelude::*;

verus! {

broadcast use vstd::std_specs::btree::group_btree_axioms;

pub const WM_KEYDOWN: u32 = 0x0100;

pub const WM_SYSKEYDOWN: u32 = 0x0104;

pub const WM_MOUSEMOVE: u32 = 0x0200;

pub const WM_LBUTTONDOWN: u32 = 0x0201;

pub const WM_LBUTTONUP: u32 = 0x0202;

pub const WM_RBUTTONDOWN: u32 = 0x0204;

pub const WM_RBUTTONUP: u32 = 0x0205;

pub const WM_MBUTTONDOWN: u32 = 0x0207;

pub const WM_MBUTTONUP: u32 = 0x0208;

pub const WM_MOUSEWHEEL: u32 = 0x020a;

pub const WM_XBUTTONDOWN: u32 = 0x020b;

pub const WM_XBUTTONUP: u32 = 0x020c;

pub const WM_MOUSEHWHEEL: u32 = 0x020e;

/// The mark on events that this program has made itself.
pub const EVENT_TAG: u64 = 0x5359_4e4c_5949_4e50;

/// How often the pointer is put somewhere before that counts as a failure.
pub const WARP_ATTEMPTS: u32 = 2;

/// How often the pointer is hidden or shown before that counts as a failure.
pub const VISIBILITY_ATTEMPTS: u32 = 10;

/// A key event of the system.
#[derive(Clone, Copy, Debug, PartialEq, Eq, Structural)]
pub struct KeyHook {
    pub message: u32,
    pub scan: u16,
    pub vk: u16,
    /// Whether another program has made the event.
    pub injected: bool,
    pub extra_info: u64,
    /// The modifiers that are down at the time.
    pub modifiers: ModifierMask,
}

/// A pointer event of the system.
#[derive(Clone, Copy, Debug, PartialEq, Eq, Structural)]
pub struct MouseHook {
    pub message: u32,
    pub point: Point,
    pub data: u32,
    /// Whether another program has made the event.
    pub injected: bool,
    /// The mark of who has made the event. Touch input leaves one too.
    pub extra_info: u64,
}

/// What becomes of a key event: whether this machine gets it, and what is reported.
#[derive(Debug)]
pub struct KeyOutcome {
    pub pass: bool,
    pub report: Option<NativeEvent>,
}

/// A pointer event, handed to the thread that deals with it.
#[derive(Clone, Copy, Debug, PartialEq, Eq, Structural)]
pub enum PointerTask {
    Move { point: Point },
    Button { button: u8, down: bool },
    Wheel { x: i32, y: i32, source: ScrollSource },
}

/// What becomes of a pointer event: whether this machine gets it, and what is dealt with later.
#[derive(Clone, Copy, Debug, PartialEq, Eq, Structural)]
pub struct MouseOutcome {
    pub pass: bool,
    pub task: Option<PointerTask>,
}

/// What a pointer event leads to.
#[derive(Debug)]
pub struct TaskOutcome {
    /// Motion to pass on, with the position where the pointer is free.
    pub motion: Option<(i32, i32, Option<Point>)>,
    pub report: Option<NativeEvent>,
    /// Where to put the pointer back to.
    pub put_back: Option<Point>,
}

/// A step of switching capture.
#[derive(Clone, Copy, Debug, PartialEq, Eq, Structural)]
pub enum SwitchAction {
    HideCursor,
    /// Show the window over the anchor.
    RaiseWindow { anchor: Point },
    WarpTo { anchor: Point },
    ShowCursor,
    LowerWindow,
    /// Switching is over. Where it has to be undone, the window is lowered and the pointer
    /// shown again.
    Finished { succeeded: bool, undo: bool, report: bool },
}

/// What follows from an attempt to put the held pointer back.
#[derive(Clone, Copy, Debug, PartialEq, Eq, Structural)]
pub struct PutBackOutcome {
    /// The first step of switching capture off, where it has to be.
    pub switch: Option<SwitchAction>,
    /// Whether a failure is reported once that is done.
    pub report: bool,
}

/// Where switching stands.
#[derive(Clone, Copy, Debug, PartialEq, Eq, Structural)]
pub enum SwitchStage {
    Resting,
    Hiding,
    Raising,
    Warping,
    Showing,
    Lowering { shown: bool },
}

/// The keyboard and pointer of a machine.
#[derive(Debug)]
pub struct WindowsCapture {
    hotkey: Hotkey,
    filter_app_events: bool,
    keyboard_capture: bool,
    phase: CapturePhase,
    stage: SwitchStage,
    cursor_hidden: bool,
    cursor: Option<CursorCaptureTracker>,
    physical: PressedState,
}

/// The state of the keyboard and pointer.
pub struct WindowsView {
    pub hotkey: Hotkey,
    /// Whether events that other programs make are left alone.
    pub filter: bool,
    /// Whether key events are reported while the pointer is free.
    pub keyboard: bool,
    pub phase: CapturePhase,
    pub stage: SwitchStage,
    /// Whether the pointer is hidden and held.
    pub hidden: bool,
    pub cursor: Option<TrackerView>,
    /// The keys and buttons that are down on this machine.
    pub physical: PressedView,
}

/// What an optional tracker knows.
pub open spec fn tracker_view(cursor: Option<CursorCaptureTracker>) -> Option<TrackerView> {
    match cursor {
        Some(cursor) => Some(cursor@),
        None => None,
    }
}

impl View for WindowsCapture {
    type V = WindowsView;

    closed spec fn view(&self) -> WindowsView {
        WindowsView {
            hotkey: self.hotkey,
            filter: self.filter_app_events,
            keyboard: self.keyboard_capture,
            phase: self.phase,
            stage: self.stage,
            hidden: self.cursor_hidden,
            cursor: tracker_view(self.cursor),
            physical: self.physical@,
        }
    }
}

/// Whether a message says that a key went down.
pub open spec fn is_key_down(message: u32) -> bool {
    message == WM_KEYDOWN || message == WM_SYSKEYDOWN
}

/// The button of an event, and whether it went down.
pub open spec fn button_of(event: MouseHook) -> Option<(u8, bool)> {
    if event.message == WM_LBUTTONDOWN {
        Some((1u8, true))
    } else if event.message == WM_LBUTTONUP {
        Some((1u8, false))
    } else if event.message == WM_RBUTTONDOWN {
        Some((3u8, true))
    } else if event.message == WM_RBUTTONUP {
        Some((3u8, false))
    } else if event.message == WM_MBUTTONDOWN {
        Some((2u8, true))
    } else if event.message == WM_MBUTTONUP {
        Some((2u8, false))
    } else if event.message == WM_XBUTTONDOWN {
        Some((windows_keys::extra_button(event.data), true))
    } else if event.message == WM_XBUTTONUP {
        Some((windows_keys::extra_button(event.data), false))
    } else {
        None
    }
}

/// The whole notches in the data of an event.
pub open spec fn notches(data: u32) -> i32 {
    windows_keys::cut_quotient(windows_keys::wheel_amount(data), 120) as i32
}

/// What is to be done about a pointer event.
pub open spec fn task_of(event: MouseHook) -> Option<PointerTask> {
    let source = windows_keys::source_of_extra_info(event.extra_info as usize);
    if event.message == WM_MOUSEMOVE {
        Some(PointerTask::Move { point: event.point })
    } else if event.message == WM_MOUSEWHEEL {
        Some(PointerTask::Wheel { x: 0, y: notches(event.data), source })
    } else if event.message == WM_MOUSEHWHEEL {
        Some(PointerTask::Wheel { x: notches(event.data), y: 0, source })
    } else {
        match button_of(event) {
            Some((button, down)) => Some(PointerTask::Button { button, down }),
            None => None,
        }
    }
}

/// What an optional event is.
pub open spec fn report_view(report: Option<NativeEvent>) -> Option<NativeView> {
    match report {
        Some(report) => Some(report@),
        None => None,
    }
}

impl WindowsView {
    /// Whether the state is one that switching can leave behind: the pointer is hidden while
    /// movements are relayed, and at no other time between two switches.
    pub open spec fn sound(self) -> bool {
        &&& self.stage is Resting ==> {
            &&& self.phase is Observing || self.phase is Relaying
            &&& self.hidden == (self.phase is Relaying)
        }
        &&& self.stage is Hiding || self.stage is Raising || self.stage is Warping ==> self.phase
            is Arming && self.cursor is Some
        &&& self.stage is Showing || self.stage is Lowering ==> self.phase is Disarming
        &&& forall|usage: u16| #[trigger]
            self.physical.keys.contains(usage) ==> 0x04 <= usage <= 0xe7
    }

    /// Whether an event is none of this program's business.
    pub open spec fn ignores(self, injected: bool, extra_info: u64) -> bool {
        extra_info == EVENT_TAG || (self.filter && injected)
    }

    /// The usage of a key event that counts.
    pub open spec fn usage_of(self, event: KeyHook) -> Option<u16> {
        if self.ignores(event.injected, event.extra_info) {
            None
        } else {
            windows_keys::usage_of_event(event.scan, event.vk)
        }
    }

    /// Whether a key event only repeats an earlier one.
    pub open spec fn repeats(self, event: KeyHook, usage: u16) -> bool {
        is_key_down(event.message) && self.physical.keys.contains(usage)
    }

    pub open spec fn after_key(self, event: KeyHook) -> WindowsView {
        match self.usage_of(event) {
            Some(usage) => WindowsView {
                physical: self.physical.with_key(usage, is_key_down(event.message), false),
                ..self
            },
            None => self,
        }
    }

    pub open spec fn is_emergency(self, event: KeyHook, usage: u16) -> bool {
        self.hotkey.key.number() == usage && self.hotkey.modifiers == event.modifiers
    }

    /// Whether this machine gets a key event. It gets modifiers in any phase.
    pub open spec fn passes_key(self, event: KeyHook) -> bool {
        match self.usage_of(event) {
            Some(usage) => !self.is_emergency(event, usage) && (self.phase is Observing
                || macos::is_modifier(usage)),
            None => true,
        }
    }

    /// What is reported of a key event.
    pub open spec fn key_report(self, event: KeyHook) -> Option<NativeView> {
        match self.usage_of(event) {
            Some(usage) => {
                let down = is_key_down(event.message);
                let repeat = self.repeats(event, usage);
                if self.is_emergency(event, usage) {
                    if down && !repeat {
                        Some(NativeView::Emergency)
                    } else {
                        None
                    }
                } else if self.phase is Relaying || self.keyboard {
                    Some(NativeView::Key { usage, modifiers: event.modifiers, down, repeat })
                } else {
                    None
                }
            },
            None => None,
        }
    }

    /// What becomes of a pointer event: it reaches this machine while the pointer is free.
    pub open spec fn mouse_outcome(self, event: MouseHook) -> MouseOutcome {
        if self.ignores(event.injected, event.extra_info) {
            MouseOutcome { pass: true, task: None }
        } else {
            MouseOutcome { pass: self.phase is Observing, task: task_of(event) }
        }
    }

    /// What a task leads to, and the state after it.
    pub open spec fn after_task(self, task: PointerTask) -> WindowsView {
        match task {
            PointerTask::Move { point } => match self.cursor {
                Some(cursor) => WindowsView { cursor: Some(cursor.moved(self.phase, point)), ..self },
                None => self,
            },
            PointerTask::Button { button, down } => WindowsView {
                physical: self.physical.with_button(button, down),
                ..self
            },
            PointerTask::Wheel { .. } => self,
        }
    }

    pub open spec fn task_motion(self, task: PointerTask) -> Option<(i32, i32, Option<Point>)> {
        match task {
            PointerTask::Move { point } => match self.cursor {
                Some(cursor) => match cursor.meaning(self.phase, point) {
                    CursorMove::Observed { point, dx, dy } => Some((dx, dy, Some(point))),
                    CursorMove::Relayed { dx, dy, bogus } => if bogus || (dx == 0 && dy == 0) {
                        None
                    } else {
                        Some((dx, dy, None))
                    },
                    CursorMove::Ignored => None,
                },
                None => None,
            },
            _ => None,
        }
    }

    pub open spec fn task_report(self, task: PointerTask) -> Option<NativeView> {
        if !(self.phase is Relaying) {
            None
        } else {
            match task {
                PointerTask::Move { .. } => None,
                PointerTask::Button { button, down } => Some(NativeView::Button { button, down }),
                PointerTask::Wheel { x, y, source } => Some(NativeView::Wheel { x, y, source }),
            }
        }
    }

    /// The held pointer is put back after each movement.
    pub open spec fn task_put_back(self, task: PointerTask) -> Option<Point> {
        match task {
            PointerTask::Move { point } => match self.cursor {
                Some(cursor) => match cursor.meaning(self.phase, point) {
                    CursorMove::Relayed { dx, dy, bogus } => if dx == 0 && dy == 0 {
                        None
                    } else {
                        Some(cursor.anchor)
                    },
                    _ => None,
                },
                None => None,
            },
            _ => None,
        }
    }

    /// The state once the displays were read again, and where the pointer has to be put then.
    pub open spec fn refreshed(self, displays: Seq<DisplayRect>, anchor: Point) -> (
        WindowsView,
        Option<Point>,
    ) {
        let known = self.cursor->0;
        (
            WindowsView { cursor: Some(TrackerView { displays, anchor, ..known }), ..self },
            if (known.anchor != anchor || known.displays != displays) && self.phase is Relaying {
                Some(anchor)
            } else {
                None
            },
        )
    }

    /// The state with capture on or off.
    pub open spec fn settled(self, captured: bool) -> WindowsView {
        WindowsView {
            phase: if captured {
                CapturePhase::Relaying
            } else {
                CapturePhase::Observing
            },
            stage: SwitchStage::Resting,
            hidden: captured,
            ..self
        }
    }

    /// Whether capture is already as it should be.
    pub open spec fn is_settled(self, active: bool) -> bool {
        if active {
            self.phase is Relaying
        } else {
            self.phase is Observing
        }
    }

    /// The first step of switching, and the state after it.
    pub open spec fn switch_begins(self, active: bool, has_window: bool) -> (WindowsView, SwitchAction) {
        if self.is_settled(active) {
            (self, SwitchAction::Finished { succeeded: true, undo: false, report: false })
        } else if !has_window {
            (self, SwitchAction::Finished { succeeded: false, undo: false, report: false })
        } else if !active {
            (
                WindowsView { phase: CapturePhase::Disarming, stage: SwitchStage::Showing, ..self },
                SwitchAction::ShowCursor,
            )
        } else if self.cursor is None {
            (
                WindowsView { phase: CapturePhase::Observing, stage: SwitchStage::Resting, ..self },
                SwitchAction::Finished { succeeded: false, undo: false, report: false },
            )
        } else {
            (
                WindowsView { phase: CapturePhase::Arming, stage: SwitchStage::Hiding, ..self },
                SwitchAction::HideCursor,
            )
        }
    }

    /// The next step of switching once the last one succeeded or failed, and the state after it.
    pub open spec fn switch_goes_on(self, succeeded: bool) -> (WindowsView, SwitchAction) {
        let failed_arming = (
            self.settled(false),
            SwitchAction::Finished { succeeded: false, undo: true, report: true },
        );
        match self.stage {
            SwitchStage::Resting => (
                self,
                SwitchAction::Finished { succeeded: false, undo: false, report: false },
            ),
            SwitchStage::Hiding => if succeeded {
                (
                    WindowsView { stage: SwitchStage::Raising, ..self },
                    SwitchAction::RaiseWindow { anchor: self.cursor->0.anchor },
                )
            } else {
                failed_arming
            },
            SwitchStage::Raising => if succeeded {
                (
                    WindowsView { stage: SwitchStage::Warping, ..self },
                    SwitchAction::WarpTo { anchor: self.cursor->0.anchor },
                )
            } else {
                failed_arming
            },
            SwitchStage::Warping => if succeeded {
                (
                    self.settled(true),
                    SwitchAction::Finished { succeeded: true, undo: false, report: false },
                )
            } else {
                failed_arming
            },
            SwitchStage::Showing => (
                WindowsView { stage: SwitchStage::Lowering { shown: succeeded }, ..self },
                SwitchAction::LowerWindow,
            ),
            SwitchStage::Lowering { shown } => if shown && succeeded {
                (
                    self.settled(false),
                    SwitchAction::Finished { succeeded: true, undo: false, report: false },
                )
            } else {
                (
                    self.settled(true),
                    SwitchAction::Finished { succeeded: false, undo: false, report: true },
                )
            },
        }
    }
}

/// The keys that are down by what the system says of each: a key that the system has no
/// virtual key for stays as it was.
pub open spec fn refreshed_keys(keys: Set<u16>, states: Seq<Option<bool>>) -> Set<u16> {
    Set::new(
        |usage: u16|
            0x04 <= usage <= 0xe7 && match states[usage - 0x04] {
                Some(down) => down,
                None => keys.contains(usage),
            },
    )
}

/// The buttons that are down by what the system says of each.
pub open spec fn refreshed_buttons(states: Seq<bool>) -> Set<u8> {
    Set::new(|button: u8| 1 <= button <= 5 && states[button - 1])
}

impl WindowsCapture {
    pub fn new(hotkey: Hotkey, filter_app_events: bool) -> (r: Self)
        ensures
            r@ == (WindowsView {
                hotkey,
                filter: filter_app_events,
                keyboard: false,
                phase: CapturePhase::Observing,
                stage: SwitchStage::Resting,
                hidden: false,
                cursor: None,
                physical: pressed::none_pressed(),
            }),
            r@.sound(),
    {
        WindowsCapture {
            hotkey,
            filter_app_events,
            keyboard_capture: false,
            phase: CapturePhase::Observing,
            stage: SwitchStage::Resting,
            cursor_hidden: false,
            cursor: None,
            physical: PressedState::default(),
        }
    }

    /// The displays were read for the first time.
    pub fn start(&mut self, layout: DesktopLayout, anchor: Point, position: Option<Point>)
        ensures
            final(self)@ == (WindowsView {
                cursor: Some(
                    TrackerView {
                        displays: layout@,
                        anchor,
                        last_point: position,
                        warping: false,
                    },
                ),
                ..old(self)@
            }),
            old(self)@.sound() ==> final(self)@.sound(),
    {
        self.cursor = Some(CursorCaptureTracker::new(layout, anchor, position));
    }

    pub fn phase(&self) -> (r: CapturePhase)
        ensures
            r == self@.phase,
    {
        self.phase
    }

    /// Whether switching capture on or off has anything to do.
    pub fn needs_switch(&self, active: bool) -> (r: bool)
        ensures
            r == !self@.is_settled(active),
    {
        if active {
            self.phase != CapturePhase::Relaying
        } else {
            self.phase != CapturePhase::Observing
        }
    }

    pub fn set_keyboard_capture(&mut self, active: bool)
        ensures
            final(self)@ == (WindowsView { keyboard: active, ..old(self)@ }),
            old(self)@.sound() ==> final(self)@.sound(),
    {
        self.keyboard_capture = active;
    }

    /// The keys and buttons that are down on this machine, with the modifiers as the system
    /// has them.
    pub fn snapshot(&self, modifiers: ModifierMask) -> (r: KeySnapshot)
        ensures
            r@ == (SnapshotView { modifiers, ..pressed::listed(self@.physical) }),
    {
        let held = self.physical.snapshot();
        KeySnapshot { usages: held.usages, modifiers, buttons: held.buttons }
    }

    /// A key event of the system.
    pub fn keyboard_callback(&mut self, event: KeyHook) -> (r: KeyOutcome)
        ensures
            r.pass == old(self)@.passes_key(event),
            report_view(r.report) == old(self)@.key_report(event),
            final(self)@ == old(self)@.after_key(event),
            old(self)@.sound() ==> final(self)@.sound(),
    {
        if event.extra_info == EVENT_TAG || (self.filter_app_events && event.injected) {
            return KeyOutcome { pass: true, report: None };
        }
        let usage: u16 = match windows_keys::windows_scan_to_hid(event.scan, event.vk) {
            Some(usage) => usage,
            None => return KeyOutcome { pass: true, report: None },
        };
        proof {
            windows_keys::event_usages_are_in_range(event.scan, event.vk);
        }
        let down = event.message == WM_KEYDOWN || event.message == WM_SYSKEYDOWN;
        let repeat = down && self.physical.holds_key(usage);
        self.physical.key(usage, down, false);
        if self.hotkey.matches(usage, event.modifiers) {
            return KeyOutcome {
                pass: false,
                report: if down && !repeat {
                    Some(NativeEvent::Emergency)
                } else {
                    None
                },
            };
        }
        let capturing = self.phase == CapturePhase::Relaying || self.keyboard_capture;
        KeyOutcome {
            pass: !self.phase.suppresses_local_input() || macos::usage_is_modifier(usage),
            report: if capturing {
                Some(NativeEvent::Key { usage, modifiers: event.modifiers, down, repeat })
            } else {
                None
            },
        }
    }

    /// A pointer event of the system.
    pub fn mouse_callback(&self, event: MouseHook) -> (r: MouseOutcome)
        ensures
            r == self@.mouse_outcome(event),
    {
        if event.extra_info == EVENT_TAG || (self.filter_app_events && event.injected) {
            return MouseOutcome { pass: true, task: None };
        }
        let extra: u8 = if event.data / 0x1_0000 == 1 {
            4
        } else {
            5
        };
        let source = windows_keys::scroll_source_from_extra_info(event.extra_info as usize);
        let task = match event.message {
            0x0200 => Some(PointerTask::Move { point: event.point }),
            0x0201 => Some(PointerTask::Button { button: 1, down: true }),
            0x0202 => Some(PointerTask::Button { button: 1, down: false }),
            0x0204 => Some(PointerTask::Button { button: 3, down: true }),
            0x0205 => Some(PointerTask::Button { button: 3, down: false }),
            0x0207 => Some(PointerTask::Button { button: 2, down: true }),
            0x0208 => Some(PointerTask::Button { button: 2, down: false }),
            0x020b => Some(PointerTask::Button { button: extra, down: true }),
            0x020c => Some(PointerTask::Button { button: extra, down: false }),
            0x020a => Some(
                PointerTask::Wheel { x: 0, y: windows_keys::wheel_notches(event.data), source },
            ),
            0x020e => Some(
                PointerTask::Wheel { x: windows_keys::wheel_notches(event.data), y: 0, source },
            ),
            _ => None,
        };
        MouseOutcome { pass: !self.phase.suppresses_local_input(), task }
    }

    fn handle_mouse_move(&mut self, point: Point) -> (r: TaskOutcome)
        ensures
            r.motion == old(self)@.task_motion(PointerTask::Move { point }),
            r.report is None,
            r.put_back == old(self)@.task_put_back(PointerTask::Move { point }),
            final(self)@ == old(self)@.after_task(PointerTask::Move { point }),
    {
        let phase = self.phase;
        match self.cursor.take() {
            None => TaskOutcome { motion: None, report: None, put_back: None },
            Some(tracker) => {
                let mut tracker = tracker;
                let movement = tracker.handle_move(phase, point);
                let anchor = tracker.anchor();
                self.cursor = Some(tracker);
                match movement {
                    CursorMove::Observed { point, dx, dy } => TaskOutcome {
                        motion: Some((dx, dy, Some(point))),
                        report: None,
                        put_back: None,
                    },
                    CursorMove::Relayed { dx, dy, bogus } => {
                        if dx == 0 && dy == 0 {
                            return TaskOutcome { motion: None, report: None, put_back: None };
                        }
                        TaskOutcome {
                            motion: if bogus {
                                None
                            } else {
                                Some((dx, dy, None))
                            },
                            report: None,
                            put_back: Some(anchor),
                        }
                    },
                    CursorMove::Ignored => TaskOutcome { motion: None, report: None, put_back: None },
                }
            },
        }
    }

    /// Deals with a pointer event.
    pub fn handle_thread_message(&mut self, task: PointerTask) -> (r: TaskOutcome)
        ensures
            r.motion == old(self)@.task_motion(task),
            report_view(r.report) == old(self)@.task_report(task),
            r.put_back == old(self)@.task_put_back(task),
            final(self)@ == old(self)@.after_task(task),
            old(self)@.sound() ==> final(self)@.sound(),
    {
        match task {
            PointerTask::Move { point } => self.handle_mouse_move(point),
            PointerTask::Button { button, down } => {
                self.physical.button(button, down);
                TaskOutcome {
                    motion: None,
                    report: if self.phase == CapturePhase::Relaying {
                        Some(NativeEvent::Button { button, down })
                    } else {
                        None
                    },
                    put_back: None,
                }
            },
            PointerTask::Wheel { x, y, source } => TaskOutcome {
                motion: None,
                report: if self.phase == CapturePhase::Relaying {
                    Some(NativeEvent::Wheel { x, y, source })
                } else {
                    None
                },
                put_back: None,
            },
        }
    }

    /// The pointer is going to be put at a point.
    pub fn begin_warp(&mut self, target: Point)
        ensures
            final(self)@ == match old(self)@.cursor {
                Some(cursor) => WindowsView {
                    cursor: Some(
                        TrackerView { warping: true, last_point: Some(target), ..cursor },
                    ),
                    ..old(self)@
                },
                None => old(self)@,
            },
            old(self)@.sound() ==> final(self)@.sound(),
    {
        if let Some(tracker) = self.cursor.take() {
            let mut tracker = tracker;
            tracker.begin_warp(target);
            self.cursor = Some(tracker);
        }
    }

    /// The pointer was put at a point.
    pub fn end_warp(&mut self, target: Point)
        ensures
            final(self)@ == match old(self)@.cursor {
                Some(cursor) => WindowsView {
                    cursor: Some(
                        TrackerView { warping: false, last_point: Some(target), ..cursor },
                    ),
                    ..old(self)@
                },
                None => old(self)@,
            },
            old(self)@.sound() ==> final(self)@.sound(),
    {
        if let Some(tracker) = self.cursor.take() {
            let mut tracker = tracker;
            tracker.end_warp(target);
            self.cursor = Some(tracker);
        }
    }

    /// The displays were read again. Gives where the pointer has to be put: the anchor, where
    /// something has changed while the pointer is held. Nothing comes of it before `start`.
    pub fn refresh_display_layout(&mut self, layout: DesktopLayout, anchor: Point) -> (r: Result<
        Option<Point>,
        (),
    >)
        ensures
            match old(self)@.cursor {
                Some(cursor) => {
                    &&& final(self)@ == (WindowsView {
                        cursor: Some(TrackerView { displays: layout@, anchor, ..cursor }),
                        ..old(self)@
                    })
                    &&& r == Ok::<Option<Point>, ()>(
                        if (cursor.anchor != anchor || cursor.displays != layout@)
                            && old(self)@.phase is Relaying {
                            Some(anchor)
                        } else {
                            None
                        },
                    )
                },
                None => r is Err && final(self)@ == old(self)@,
            },
            old(self)@.cursor is Some ==> (r matches Ok(put) && (final(self)@, put) == old(
                self,
            )@.refreshed(layout@, anchor)),
            old(self)@.sound() ==> final(self)@.sound(),
    {
        match self.cursor.take() {
            Some(tracker) => {
                let mut tracker = tracker;
                let changed = tracker.update_layout(layout, anchor);
                self.cursor = Some(tracker);
                if changed && self.phase == CapturePhase::Relaying {
                    Ok(Some(anchor))
                } else {
                    Ok(None)
                }
            },
            None => Err(()),
        }
    }

    /// Starts switching capture on or off. What it gives is done next, and its result handed to
    /// `switch_result`, until switching is finished.
    pub fn sync_cursor_capture(&mut self, active: bool, has_window: bool) -> (r: SwitchAction)
        ensures
            (final(self)@, r) == old(self)@.switch_begins(active, has_window),
            old(self)@.sound() && old(self)@.stage is Resting ==> final(self)@.sound(),
    {
        let settled = if active {
            self.phase == CapturePhase::Relaying
        } else {
            self.phase == CapturePhase::Observing
        };
        if settled {
            return SwitchAction::Finished { succeeded: true, undo: false, report: false };
        }
        if !has_window {
            return SwitchAction::Finished { succeeded: false, undo: false, report: false };
        }
        if !active {
            self.phase = CapturePhase::Disarming;
            self.stage = SwitchStage::Showing;
            return SwitchAction::ShowCursor;
        }
        if self.cursor.is_none() {
            self.phase = CapturePhase::Observing;
            self.stage = SwitchStage::Resting;
            return SwitchAction::Finished { succeeded: false, undo: false, report: false };
        }
        self.phase = CapturePhase::Arming;
        self.stage = SwitchStage::Hiding;
        SwitchAction::HideCursor
    }

    /// The pointer was put back, or could not be. Where it could not, capture is switched off, as
    /// by `sync_cursor_capture`, and the failure reported.
    pub fn put_back_result(&mut self, succeeded: bool, has_window: bool) -> (r: PutBackOutcome)
        ensures
            r.report == !succeeded,
            match r.switch {
                Some(first) => !succeeded && (final(self)@, first) == old(self)@.switch_begins(
                    false,
                    has_window,
                ),
                None => succeeded && final(self)@ == old(self)@,
            },
            old(self)@.sound() && old(self)@.stage is Resting ==> final(self)@.sound(),
    {
        if succeeded {
            return PutBackOutcome { switch: None, report: false };
        }
        let first = self.sync_cursor_capture(false, has_window);
        PutBackOutcome { switch: Some(first), report: true }
    }

    fn settle(&mut self, captured: bool)
        ensures
            final(self)@ == old(self)@.settled(captured),
    {
        self.phase = if captured {
            CapturePhase::Relaying
        } else {
            CapturePhase::Observing
        };
        self.stage = SwitchStage::Resting;
        self.cursor_hidden = captured;
    }

    fn anchor(&self) -> (r: Point)
        requires
            self@.cursor is Some,
        ensures
            r == self@.cursor->0.anchor,
    {
        match &self.cursor {
            Some(tracker) => tracker.anchor(),
            None => Point { x: 0, y: 0 },
        }
    }

    /// The last step of switching succeeded, or failed.
    pub fn switch_result(&mut self, succeeded: bool) -> (r: SwitchAction)
        requires
            old(self)@.sound(),
        ensures
            (final(self)@, r) == old(self)@.switch_goes_on(succeeded),
            final(self)@.sound(),
    {
        match self.stage {
            SwitchStage::Resting => SwitchAction::Finished {
                succeeded: false,
                undo: false,
                report: false,
            },
            SwitchStage::Hiding => {
                if succeeded {
                    self.stage = SwitchStage::Raising;
                    SwitchAction::RaiseWindow { anchor: self.anchor() }
                } else {
                    self.settle(false);
                    SwitchAction::Finished { succeeded: false, undo: true, report: true }
                }
            },
            SwitchStage::Raising => {
                if succeeded {
                    self.stage = SwitchStage::Warping;
                    SwitchAction::WarpTo { anchor: self.anchor() }
                } else {
                    self.settle(false);
                    SwitchAction::Finished { succeeded: false, undo: true, report: true }
                }
            },
            SwitchStage::Warping => {
                self.settle(succeeded);
                SwitchAction::Finished { succeeded, undo: !succeeded, report: !succeeded }
            },
            SwitchStage::Showing => {
                self.stage = SwitchStage::Lowering { shown: succeeded };
                SwitchAction::LowerWindow
            },
            SwitchStage::Lowering { shown } => {
                let done = shown && succeeded;
                self.settle(!done);
                SwitchAction::Finished { succeeded: done, undo: false, report: !done }
            },
        }
    }

    /// Takes over what the system says of the keys with usages 0x04 to 0xe7 and of the five
    /// buttons.
    pub fn refresh_pressed_state(&mut self, keys: &Vec<Option<bool>>, buttons: &[bool; 5])
        requires
            old(self)@.sound(),
            keys@.len() == 0xe4,
        ensures
            final(self)@.physical.keys == refreshed_keys(old(self)@.physical.keys, keys@),
            final(self)@.physical.buttons == refreshed_buttons(buttons@),
            final(self)@ == (WindowsView { physical: final(self)@.physical, ..old(self)@ }),
            final(self)@.sound(),
    {
        let ghost before = self@.physical.keys;
        let mut next: BTreeSet<u16> = BTreeSet::new();
        let mut usage: u16 = 0x04;
        while usage <= 0xe7
            invariant
                0x04 <= usage <= 0xe8,
                keys@.len() == 0xe4,
                before == self@.physical.keys,
                self@ == old(self)@,
                forall|u: u16| #[trigger]
                    next@.contains(u) <==> u < usage && refreshed_keys(before, keys@).contains(u),
            decreases 0xe8 - usage,
        {
            let down = match keys[(usage - 0x04) as usize] {
                Some(down) => down,
                None => self.physical.holds_key(usage),
            };
            if down {
                next.insert(usage);
            }
            usage += 1;
        }
        assert(next@ =~= refreshed_keys(before, keys@));
        let mut held: BTreeSet<u8> = BTreeSet::new();
        let mut button: u8 = 1;
        while button <= 5
            invariant
                1 <= button <= 6,
                buttons@.len() == 5,
                self@ == old(self)@,
                forall|b: u8| #[trigger]
                    held@.contains(b) <==> b < button && refreshed_buttons(buttons@).contains(b),
            decreases 6 - button,
        {
            if buttons[(button - 1) as usize] {
                held.insert(button);
            }
            button += 1;
        }
        assert(held@ =~= refreshed_buttons(buttons@));
        self.physical = PressedState::from_sets(next, held);
    }
}

/// Switching on either holds the pointer or leaves it free, with nothing in between.
pub proof fn switching_ends_settled(state: WindowsView, succeeded: bool)
    requires
        state.sound(),
        state.switch_goes_on(succeeded).1 is Finished,
    ensures
        ({
            let next = state.switch_goes_on(succeeded).0;
            &&& next.stage is Resting
            &&& next.phase is Observing || next.phase is Relaying
            &&& next.hidden == (next.phase is Relaying)
        }),
{
}

/// Switching on fails at the first step that fails, and the pointer is free again.
pub proof fn failed_arming_frees_the_pointer(state: WindowsView)
    requires
        state.stage is Hiding || state.stage is Raising || state.stage is Warping,
    ensures
        state.switch_goes_on(false).0 == state.settled(false),
        state.switch_goes_on(false).1 == (SwitchAction::Finished {
            succeeded: false,
            undo: true,
            report: true,
        }),
{
}

/// Three steps that succeed switch capture on, and two switch it off.
pub proof fn switching_succeeds_with_its_steps(state: WindowsView, active: bool)
    requires
        state.sound(),
        state.stage is Resting,
        !state.is_settled(active),
        active ==> state.cursor is Some,
    ensures
        ({
            let first = state.switch_begins(active, true).0;
            let second = first.switch_goes_on(true).0;
            let third = second.switch_goes_on(true).0;
            let last = third.switch_goes_on(true);
            if active {
                &&& last.0 == state.settled(true)
                &&& last.1 == (SwitchAction::Finished {
                    succeeded: true,
                    undo: false,
                    report: false,
                })
            } else {
                &&& second.switch_goes_on(true).0 == state.settled(false)
                &&& second.switch_goes_on(true).1 == (SwitchAction::Finished {
                    succeeded: true,
                    undo: false,
                    report: false,
                })
            }
        }),
{
}

/// While the pointer is held, this machine gets no pointer event of its user, and of the keys
/// only the modifiers.
pub proof fn captured_input_stays_away(state: WindowsView, key: KeyHook, pointer: MouseHook)
    requires
        !(state.phase is Observing),
    ensures
        state.usage_of(key) is Some && state.passes_key(key) ==> macos::is_modifier(
            state.usage_of(key)->0,
        ),
        !state.ignores(pointer.injected, pointer.extra_info) ==> !state.mouse_outcome(pointer).pass,
{
}

/// The emergency hotkey is reported in any phase, and never reaches this machine.
pub proof fn emergency_is_always_reported(state: WindowsView, event: KeyHook, usage: u16)
    requires
        state.usage_of(event) == Some(usage),
        state.is_emergency(event, usage),
    ensures
        !state.passes_key(event),
        is_key_down(event.message) && !state.physical.keys.contains(usage) ==> state.key_report(event)
            == Some(NativeView::Emergency),
{
}

/// Whether hiding or showing the pointer has come to its end, by the counter of the system.
pub fn visibility_reached(visible: bool, counter: i32) -> (r: bool)
    ensures
        r == if visible {
            counter >= 0
        } else {
            counter < 0
        },
{
    (visible && counter >= 0) || (!visible && counter < 0)
}

/// What follows an attempt at something that the system does not always do at once.
#[derive(Clone, Copy, Debug, PartialEq, Eq, Structural)]
pub enum Attempt {
    Again,
    Done,
    Failed,
}

/// What follows attempt number `tried` of at most `limit`. The last one that is not reached
/// fails.
pub open spec fn attempt_outcome(tried: int, limit: int, reached: bool) -> Attempt {
    if reached {
        Attempt::Done
    } else if tried < limit {
        Attempt::Again
    } else {
        Attempt::Failed
    }
}

/// What follows an attempt to hide or show the pointer, by the counter of the system.
pub fn visibility_attempt(visible: bool, counter: i32, tried: u32) -> (r: Attempt)
    ensures
        r == attempt_outcome(
            tried as int,
            VISIBILITY_ATTEMPTS as int,
            if visible {
                counter >= 0
            } else {
                counter < 0
            },
        ),
{
    if visibility_reached(visible, counter) {
        Attempt::Done
    } else if tried < VISIBILITY_ATTEMPTS {
        Attempt::Again
    } else {
        Attempt::Failed
    }
}

/// What follows an attempt to put the pointer somewhere, by where it is then.
pub fn warp_attempt(target: Point, found: Option<Point>, tried: u32) -> (r: Attempt)
    ensures
        r == attempt_outcome(tried as int, WARP_ATTEMPTS as int, found == Some(target)),
{
    if let Some(point) = found {
        if point == target {
            return Attempt::Done;
        }
    }
    if tried < WARP_ATTEMPTS {
        Attempt::Again
    } else {
        Attempt::Failed
    }
}

/// The sum of the bits of the modifiers whose keys are down.
pub open spec fn modifiers_held(
    control: bool,
    menu: bool,
    shift: bool,
    left_win: bool,
    right_win: bool,
) -> int {
    (if control { 1int } else { 0 }) + (if menu { 2int } else { 0 }) + (if shift { 4int } else { 0 })
        + (if left_win || right_win { 8int } else { 0 })
}

/// The modifiers that are down, from what the system says of their keys.
pub fn system_modifiers(control: bool, menu: bool, shift: bool, left_win: bool, right_win: bool) -> (r:
    ModifierMask)
    ensures
        r.0 == (if control { 1int } else { 0 }) + (if menu { 2int } else { 0 }) + (if shift {
            4int
        } else {
            0
        }) + (if left_win || right_win { 8int } else { 0 }),
        r.0 == modifiers_held(control, menu, shift, left_win, right_win),
{
    let c: u8 = if control { 1 } else { 0 };
    let a: u8 = if menu { 2 } else { 0 };
    let s: u8 = if shift { 4 } else { 0 };
    let m: u8 = if left_win || right_win { 8 } else { 0 };
    ModifierMask(c + a + s + m)
}

/// A monitor as the system describes it.
#[derive(Clone, Copy, Debug, PartialEq, Eq, Structural)]
pub struct MonitorDisplay {
    pub rect: DisplayRect,
    pub primary: bool,
}

/// The desktop, where the pointer is held on it, and the primary display.
#[derive(Debug)]
pub struct DisplaySnapshot {
    pub layout: DesktopLayout,
    pub anchor: Point,
    pub primary: Option<DisplayRect>,
}

pub open spec fn rects_of(monitors: Seq<MonitorDisplay>) -> Seq<DisplayRect> {
    monitors.map_values(|monitor: MonitorDisplay| monitor.rect)
}

/// The first primary display.
pub open spec fn primary_of(monitors: Seq<MonitorDisplay>) -> Option<DisplayRect>
    decreases monitors.len(),
{
    if monitors.len() == 0 {
        None
    } else if monitors[0].primary {
        Some(monitors[0].rect)
    } else {
        primary_of(monitors.drop_first())
    }
}

/// The monitors, or else the whole desktop as one.
pub open spec fn known_monitors(monitors: Seq<MonitorDisplay>, whole: DisplayRect) -> Seq<MonitorDisplay> {
    if monitors.len() == 0 {
        seq![MonitorDisplay { rect: whole, primary: true }]
    } else {
        monitors
    }
}

fn first_primary(monitors: &Vec<MonitorDisplay>) -> (r: Option<DisplayRect>)
    ensures
        r == primary_of(monitors@),
{
    let mut i: usize = 0;
    assert(monitors@.skip(0) =~= monitors@);
    while i < monitors.len()
        invariant
            i <= monitors@.len(),
            primary_of(monitors@) == primary_of(monitors@.skip(i as int)),
        decreases monitors@.len() - i,
    {
        assert(monitors@.skip(i as int)[0] == monitors@[i as int]);
        if monitors[i].primary {
            return Some(monitors[i].rect);
        }
        assert(monitors@.skip(i as int).drop_first() =~= monitors@.skip(i + 1));
        i += 1;
    }
    None
}

/// The desktop from its monitors, or from the rectangle of the whole where the system names
/// none.
pub fn collect_display_snapshot(monitors: Vec<MonitorDisplay>, whole: DisplayRect) -> (r: Result<
    DisplaySnapshot,
    LayoutError,
>)
    ensures
        ({
            let known = known_monitors(monitors@, whole);
            match r {
                Ok(snapshot) => {
                    &&& crate::geometry::valid_displays(rects_of(known))
                    &&& snapshot.layout@ == rects_of(known)
                    &&& Some(snapshot.anchor) == cursor_capture::capture_anchor(
                        primary_of(known),
                        rects_of(known),
                    )
                    &&& snapshot.primary == primary_of(known)
                },
                Err(error) => error is InvalidSize && !crate::geometry::valid_displays(
                    rects_of(known),
                ),
            }
        }),
{
    let ghost named = monitors@;
    let mut monitors = monitors;
    if monitors.len() == 0 {
        monitors.push(MonitorDisplay { rect: whole, primary: true });
    }
    assert(monitors@ =~= known_monitors(named, whole));
    let mut rects: Vec<DisplayRect> = Vec::new();
    let mut i: usize = 0;
    while i < monitors.len()
        invariant
            i <= monitors@.len(),
            rects@ == rects_of(monitors@.take(i as int)),
        decreases monitors@.len() - i,
    {
        rects.push(monitors[i].rect);
        assert(rects@ =~= rects_of(monitors@.take(i + 1)));
        i += 1;
    }
    assert(monitors@.take(monitors@.len() as int) =~= monitors@);
    let primary = first_primary(&monitors);
    let anchor = match cursor_capture::select_capture_anchor(primary, rects.as_slice()) {
        Some(anchor) => anchor,
        None => return Err(LayoutError::NoDisplay),
    };
    match DesktopLayout::new(rects) {
        Ok(layout) => Ok(DisplaySnapshot { layout, anchor, primary }),
        Err(error) => Err(error),
    }
}

/// Where the pointer is put for a point: on the desktop, and on the primary display while a
/// protected desktop is shown.
pub open spec fn bounded_point(
    displays: Seq<DisplayRect>,
    point: Point,
    secure_display: Option<DisplayRect>,
) -> (int, int) {
    let inside = movement::moved_within(displays, point, 0, 0);
    match secure_display {
        Some(primary) => (
            movement::held_inside(primary, true, inside.0),
            movement::held_inside(primary, false, inside.1),
        ),
        None => inside,
    }
}

/// Where the pointer is put for a point. `secure_display` is the primary display while a
/// protected desktop is shown.
pub fn bounded_cursor(layout: &DesktopLayout, point: Point, secure_display: Option<DisplayRect>) -> (r:
    Point)
    requires
        layout@.len() > 0,
    ensures
        (r.x as int, r.y as int) == bounded_point(layout@, point, secure_display),
{
    let inside = layout.move_within_layout(point, 0, 0);
    match secure_display {
        Some(primary) => Point {
            x: movement::hold_inside(primary, true, inside.x),
            y: movement::hold_inside(primary, false, inside.y),
        },
        None => inside,
    }
}

/// What was pressed by injecting input.
#[derive(Debug)]
pub struct WindowsInjector {
    injected: PressedState,
}

impl View for WindowsInjector {
    type V = PressedView;

    closed spec fn view(&self) -> PressedView {
        self.injected@
    }
}

impl WindowsInjector {
    pub fn new() -> (r: Self)
        ensures
            r@ == pressed::none_pressed(),
    {
        WindowsInjector { injected: PressedState::default() }
    }

    /// The event of a key was sent.
    pub fn key_sent(&mut self, usage: u16, down: bool)
        ensures
            final(self)@ == old(self)@.with_key(usage, down, false),
    {
        self.injected.key(usage, down, false);
    }

    /// The event of a button was sent.
    pub fn button_sent(&mut self, button: u8, down: bool)
        ensures
            final(self)@ == old(self)@.with_button(button, down),
    {
        self.injected.button(button, down);
    }

    /// Everything that injecting holds down, which is forgotten: it is to be released, keys
    /// first.
    pub fn release_all(&mut self) -> (r: KeySnapshot)
        ensures
            r@ == pressed::listed(old(self)@),
            final(self)@ == pressed::none_pressed(),
    {
        self.injected.take()
    }
}

/// What is known of the window in front.
#[derive(Clone, Copy, Debug, PartialEq, Eq, Structural)]
pub struct ForegroundState {
    pub has_window: bool,
    pub is_explorer: bool,
    /// The area that the pointer is kept in, if it could be read.
    pub clip: Option<cursor_capture::Bounds>,
    pub screen: cursor_capture::Bounds,
    /// Whether the pointer is shown, if it could be read.
    pub cursor_shown: Option<bool>,
}

/// Whether the window in front holds the pointer.
pub open spec fn holds_pointer(state: ForegroundState) -> bool {
    state.has_window && !state.is_explorer && ((state.clip is Some && state.clip->0 != state.screen)
        || state.cursor_shown == Some(false))
}

/// Whether the window in front holds the pointer: it keeps it in a part of the screen, or hides
/// it. The desktop itself never does.
pub fn foreground_cursor_captured(state: ForegroundState) -> (r: bool)
    ensures
        r == (state.has_window && !state.is_explorer && ((state.clip is Some && state.clip->0
            != state.screen) || state.cursor_shown == Some(false))),
        r == holds_pointer(state),
{
    if !state.has_window || state.is_explorer {
        return false;
    }
    if let Some(clip) = state.clip {
        if clip != state.screen {
            return true;
        }
    }
    match state.cursor_shown {
        Some(shown) => !shown,
        None => false,
    }
}

/// Whether a program is the one that shows the desktop, by the path of its file.
pub fn path_is_explorer(path: &str) -> (r: bool)
    ensures
        r == (text::lowered(text::last_part(path@, '\\')) == text::lowered("explorer.exe"@)),
{
    let file = text::after_last(&text::chars_of(path), '\\');
    text::is_text_in_any_case(&file, "explorer.exe")
}

/// Whether a desktop is the ordinary one, by its name.
pub fn desktop_is_default(name: &str) -> (r: bool)
    ensures
        r == (text::lowered(name@) == text::lowered("Default"@)),
{
    text::is_text_in_any_case(&text::chars_of(name), "Default")
}

/// Who controls input.
#[derive(Clone, Copy, Debug, PartialEq, Eq, Structural)]
pub enum InputStart {
    /// The agent with more rights, as far as it can be reached.
    Agent,
    Native,
    /// Nobody: more rights were asked for and are not there.
    Refused,
}

/// Whether input may be controlled without more rights: not where they were asked for.
pub fn allow_native_fallback(elevation_requested: bool) -> (r: bool)
    ensures
        r == !elevation_requested,
{
    !elevation_requested
}

/// Who controls input first.
pub fn plan_start(agent_ready: bool, elevation_requested: bool) -> (r: InputStart)
    ensures
        r == if agent_ready {
            InputStart::Agent
        } else if elevation_requested {
            InputStart::Refused
        } else {
            InputStart::Native
        },
{
    if agent_ready {
        InputStart::Agent
    } else if allow_native_fallback(elevation_requested) {
        InputStart::Native
    } else {
        InputStart::Refused
    }
}

/// Who controls input after the agent could not be reached.
pub fn after_agent_failure(elevation_requested: bool) -> (r: InputStart)
    ensures
        r == if elevation_requested {
            InputStart::Refused
        } else {
            InputStart::Native
        },
{
    if allow_native_fallback(elevation_requested) {
        InputStart::Native
    } else {
        InputStart::Refused
    }
}

/// A movement of a free pointer is passed on with where the pointer went and how far, as far as
/// that fits, and reported as nothing else.
pub proof fn free_movements_are_passed_on(state: WindowsView, event: MouseHook, cursor: TrackerView)
    requires
        event.message == 0x0200,
        event.extra_info != EVENT_TAG,
        !event.injected,
        state.phase is Observing,
        state.cursor == Some(cursor),
        !cursor.warping,
        cursor.last_point matches Some(last) ==> i32::MIN <= event.point.x - last.x <= i32::MAX
            && i32::MIN <= event.point.y - last.y <= i32::MAX,
    ensures
        state.mouse_outcome(event).pass,
        state.mouse_outcome(event).task matches Some(task) && (state.task_motion(task) matches Some(
            (dx, dy, there),
        ) && there == Some(event.point) && (match cursor.last_point {
            Some(last) => last.x + dx == event.point.x && last.y + dy == event.point.y,
            None => dx == 0 && dy == 0,
        }) && state.task_report(task) is None && state.task_put_back(task) is None && (
        state.after_task(task).cursor matches Some(next) && next.last_point == Some(event.point)
            && next.anchor == cursor.anchor && next.displays == cursor.displays)),
{
}

/// A movement of the held pointer is passed on as the way that it went from the anchor, without
/// a position, and the pointer is put back to the anchor. This machine does not get it. A
/// movement that no user makes is not passed on, but the pointer is put back all the same.
pub proof fn held_movements_are_passed_on(state: WindowsView, event: MouseHook, cursor: TrackerView)
    requires
        event.message == 0x0200,
        event.extra_info != EVENT_TAG,
        !event.injected,
        state.phase is Relaying,
        state.cursor == Some(cursor),
        !cursor.warping,
        cursor.last_point is None || cursor.last_point == Some(cursor.anchor),
        i32::MIN <= event.point.x - cursor.anchor.x <= i32::MAX,
        i32::MIN <= event.point.y - cursor.anchor.y <= i32::MAX,
    ensures
        !state.mouse_outcome(event).pass,
        state.mouse_outcome(event).task matches Some(task) && ({
            let dx = (event.point.x - cursor.anchor.x) as i32;
            let dy = (event.point.y - cursor.anchor.y) as i32;
            let moved = event.point != cursor.anchor;
            &&& state.task_motion(task) == if moved && !cursor.bogus(dx, dy) {
                Some((dx, dy, None::<Point>))
            } else {
                None
            }
            &&& state.task_put_back(task) == if moved {
                Some(cursor.anchor)
            } else {
                None
            }
            &&& state.task_report(task) is None
            &&& state.after_task(task).physical == state.physical
        }),
{
}

/// A button event is read as the button that injecting it would name, and followed whoever has
/// control; it is reported while movements are relayed, and then only.
pub proof fn buttons_are_followed(
    state: WindowsView,
    event: MouseHook,
    button: u8,
    down: bool,
    flags: u32,
    data: u32,
    other: u8,
)
    requires
        event.extra_info != EVENT_TAG,
        !event.injected,
        windows_keys::button_event(button, down) == Some((flags, data)),
        event.data / 0x1_0000 == data,
        flags == 0x0002 ==> event.message == 0x0201,
        flags == 0x0004 ==> event.message == 0x0202,
        flags == 0x0008 ==> event.message == 0x0204,
        flags == 0x0010 ==> event.message == 0x0205,
        flags == 0x0020 ==> event.message == 0x0207,
        flags == 0x0040 ==> event.message == 0x0208,
        flags == 0x0080 ==> event.message == 0x020b,
        flags == 0x0100 ==> event.message == 0x020c,
    ensures
        state.mouse_outcome(event).task matches Some(task) && ({
            &&& state.after_task(task).physical.buttons.contains(button) == down
            &&& other != button ==> state.after_task(task).physical.buttons.contains(other)
                == state.physical.buttons.contains(other)
            &&& state.after_task(task).physical.keys == state.physical.keys
            &&& state.after_task(task).cursor == state.cursor
            &&& state.task_report(task) == if state.phase is Relaying {
                Some(NativeView::Button { button, down })
            } else {
                None
            }
            &&& state.task_motion(task) is None
            &&& state.task_put_back(task) is None
        }),
        state.mouse_outcome(event).pass == (state.phase is Observing),
{
}

/// A wheel that turns is reported with its whole notches while movements are relayed: the
/// ordinary wheel along the vertical, the other one along the horizontal.
pub proof fn wheels_are_reported_along_their_axis(
    state: WindowsView,
    event: MouseHook,
    notches: i32,
)
    requires
        event.extra_info != EVENT_TAG,
        !event.injected,
        -273 <= notches <= 273,
        event.data as int / 0x1_0000 == windows_keys::wheel_data(notches) as int % 0x1_0000,
        event.message == 0x020a || event.message == 0x020e,
        state.phase is Relaying,
    ensures
        state.mouse_outcome(event).task matches Some(task) && (state.task_report(task) matches Some(
            NativeView::Wheel { x, y, .. },
        ) && (event.message == 0x020a ==> x == 0 && y == notches) && (event.message == 0x020e ==> x
            == notches && y == 0) && state.after_task(task) == state),
{
    windows_keys::turned_notches_are_read_back(notches, event.data);
}

/// A key event sets that key alone, and is a repetition exactly where the key was down already.
/// It is reported with its modifiers while movements are relayed or keys are listened to, unless
/// it is the emergency hotkey.
pub proof fn keys_are_followed(state: WindowsView, event: KeyHook, usage: u16, other: u16)
    requires
        event.extra_info != EVENT_TAG,
        !event.injected,
        windows_keys::usage_of_event(event.scan, event.vk) == Some(usage),
    ensures
        ({
            let down = event.message == 0x0100 || event.message == 0x0104;
            let next = state.after_key(event);
            &&& next.physical.keys.contains(usage) == down
            &&& other != usage ==> next.physical.keys.contains(other) == state.physical.keys.contains(
                other,
            )
            &&& next.physical.buttons == state.physical.buttons
            &&& next.phase == state.phase && next.cursor == state.cursor
            &&& !(state.hotkey.key.number() == usage && state.hotkey.modifiers == event.modifiers)
                ==> {
                &&& state.passes_key(event) == (state.phase is Observing || 0xe0 <= usage <= 0xe7)
                &&& state.key_report(event) == if state.phase is Relaying || state.keyboard {
                    Some(
                        NativeView::Key {
                            usage,
                            modifiers: event.modifiers,
                            down,
                            repeat: down && state.physical.keys.contains(usage),
                        },
                    )
                } else {
                    None
                }
            }
        }),
{
}

/// The emergency hotkey is reported once for each time it is pressed, in any phase: not for its
/// repetitions, and not for its release.
pub proof fn emergency_is_reported_once(state: WindowsView, press: KeyHook, usage: u16)
    requires
        press.extra_info != EVENT_TAG,
        !press.injected,
        press.message == 0x0100 || press.message == 0x0104,
        windows_keys::usage_of_event(press.scan, press.vk) == Some(usage),
        state.hotkey.key.number() == usage,
        state.hotkey.modifiers == press.modifiers,
        !state.physical.keys.contains(usage),
    ensures
        state.key_report(press) == Some(NativeView::Emergency),
        state.after_key(press).key_report(press) is None,
        state.key_report(KeyHook { message: 0x0101, ..press }) is None,
{
}

/// Events that this program has made, and those of other programs where they are filtered, reach
/// this machine and leave no trace. Without the filter those of other programs count as the
/// user's.
pub proof fn made_events_leave_no_trace(state: WindowsView, key: KeyHook, pointer: MouseHook)
    ensures
        key.extra_info == EVENT_TAG || (state.filter && key.injected) ==> {
            &&& state.passes_key(key)
            &&& state.key_report(key) is None
            &&& state.after_key(key) == state
        },
        pointer.extra_info == EVENT_TAG || (state.filter && pointer.injected) ==> {
            &&& state.mouse_outcome(pointer).pass
            &&& state.mouse_outcome(pointer).task is None
        },
        !state.filter && key.extra_info != EVENT_TAG ==> state.key_report(key) == state.key_report(
            KeyHook { injected: !key.injected, ..key },
        ),
        !state.filter && pointer.extra_info != EVENT_TAG ==> state.mouse_outcome(pointer)
            == state.mouse_outcome(MouseHook { injected: !pointer.injected, ..pointer }),
{
}

/// Capture is switched on by hiding the pointer, raising the window over the anchor and putting
/// the pointer there, and switched off by showing the pointer and lowering the window. The first
/// step that fails on the way there is the last.
pub proof fn switching_goes_in_order(state: WindowsView, active: bool)
    requires
        state.stage is Resting,
        state.cursor is Some,
        if active {
            state.phase is Observing
        } else {
            state.phase is Relaying
        },
    ensures
        ({
            let anchor = state.cursor->0.anchor;
            let first = state.switch_begins(active, true);
            let second = first.0.switch_goes_on(true);
            let third = second.0.switch_goes_on(true);
            let last = third.0.switch_goes_on(true);
            if active {
                &&& first.1 is HideCursor
                &&& second.1 == SwitchAction::RaiseWindow { anchor }
                &&& third.1 == SwitchAction::WarpTo { anchor }
                &&& last.1 matches SwitchAction::Finished { succeeded, undo, report }
                &&& succeeded && !undo && !report
                &&& last.0.phase is Relaying && last.0.hidden
                &&& last.0.cursor == state.cursor && last.0.physical == state.physical
                &&& first.0.phase is Arming && second.0.phase is Arming && third.0.phase is Arming
            } else {
                &&& first.1 is ShowCursor
                &&& second.1 is LowerWindow
                &&& third.1 matches SwitchAction::Finished { succeeded, undo, report }
                &&& succeeded && !undo && !report
                &&& third.0.phase is Observing && !third.0.hidden
                &&& third.0.cursor == state.cursor && third.0.physical == state.physical
                &&& first.0.phase is Disarming && second.0.phase is Disarming
            }
        }),
{
}

/// Switching off that fails at either step leaves the pointer held, and says so; and the window
/// is lowered even where the pointer could not be shown.
pub proof fn failed_disarming_keeps_the_pointer(state: WindowsView, shown: bool, lowered: bool)
    requires
        state.stage is Resting,
        state.phase is Relaying,
        !(shown && lowered),
    ensures
        ({
            let second = state.switch_begins(false, true).0.switch_goes_on(shown);
            let third = second.0.switch_goes_on(lowered);
            &&& second.1 is LowerWindow
            &&& third.1 matches SwitchAction::Finished { succeeded, undo, report }
            &&& !succeeded && !undo && report
            &&& third.0.phase is Relaying && third.0.hidden
        }),
{
}

/// What the system says of a key or button is what is known of it then; of a key that it says
/// nothing of, what was known before.
pub proof fn refreshed_state_is_that_of_the_system(
    keys: Set<u16>,
    states: Seq<Option<bool>>,
    buttons: Seq<bool>,
    usage: u16,
    button: u8,
)
    requires
        states.len() == 0xe4,
        buttons.len() == 5,
        0x04 <= usage <= 0xe7,
        1 <= button <= 5,
    ensures
        states[usage - 0x04] == Some(true) ==> refreshed_keys(keys, states).contains(usage),
        states[usage - 0x04] == Some(false) ==> !refreshed_keys(keys, states).contains(usage),
        states[usage - 0x04] is None ==> refreshed_keys(keys, states).contains(usage)
            == keys.contains(usage),
        refreshed_buttons(buttons).contains(button) == buttons[button - 1],
        !refreshed_buttons(buttons).contains(0),
        !refreshed_keys(keys, states).contains(0),
{
}

/// The primary display is one that the system calls primary, and the first of these. There is
/// none exactly where it calls none so.
pub proof fn primary_display_is_called_so(monitors: Seq<MonitorDisplay>)
    ensures
        match primary_of(monitors) {
            Some(rect) => exists|i: int|
                0 <= i < monitors.len() && (#[trigger] monitors[i]).primary && monitors[i].rect == rect
                    && forall|j: int| 0 <= j < i ==> !(#[trigger] monitors[j]).primary,
            None => forall|i: int| 0 <= i < monitors.len() ==> !(#[trigger] monitors[i]).primary,
        },
    decreases monitors.len(),
{
    if monitors.len() > 0 && !monitors[0].primary {
        let rest = monitors.drop_first();
        primary_display_is_called_so(rest);
        assert forall|j: int| 1 <= j < monitors.len() implies #[trigger] monitors[j] == rest[j - 1] by {
        }
        if primary_of(rest) is Some {
            let k = choose|i: int|
                0 <= i < rest.len() && (#[trigger] rest[i]).primary && rest[i].rect == primary_of(
                    rest,
                )->0 && forall|j: int| 0 <= j < i ==> !(#[trigger] rest[j]).primary;
            assert(monitors[k + 1] == rest[k]);
            assert forall|j: int| 0 <= j < k + 1 implies !(#[trigger] monitors[j]).primary by {
                if j > 0 {
                    assert(monitors[j] == rest[j - 1]);
                }
            }
        }
    }
}

/// The pointer is put where it was meant to be if a display is there and, while a protected
/// desktop is shown, if that is on the primary display. In any case it is put on the primary
/// display then.
pub proof fn pointer_is_put_inside(
    displays: Seq<DisplayRect>,
    point: Point,
    secure_display: Option<DisplayRect>,
)
    requires
        secure_display matches Some(primary) ==> primary.width > 0 && primary.height > 0
            && primary.x + primary.width <= i32::MAX && primary.y + primary.height <= i32::MAX,
    ensures
        ({
            let put = bounded_point(displays, point, secure_display);
            let there = crate::geometry::on_desktop(displays, point.x as int, point.y as int);
            match secure_display {
                Some(primary) => {
                    let inside = primary.x <= point.x < primary.x + primary.width && primary.y
                        <= point.y < primary.y + primary.height;
                    &&& primary.x <= put.0 < primary.x + primary.width
                    &&& primary.y <= put.1 < primary.y + primary.height
                    &&& there && inside ==> put == (point.x as int, point.y as int)
                },
                None => there ==> put == (point.x as int, point.y as int),
            }
        }),
{
}

/// An attempt that reaches its end is never tried again, and one that does not is tried again
/// until the last: so many attempts are made as the limit says, and no more.
pub proof fn attempts_end_at_the_limit(tried: int, limit: int, reached: bool)
    ensures
        attempt_outcome(tried, limit, reached) is Done <==> reached,
        attempt_outcome(tried, limit, false) is Again <==> tried + 1 <= limit,
        attempt_outcome(limit, limit, false) is Failed,
{
}

/// The desktop never holds the pointer, and neither does no window at all. Any other window does
/// exactly if it keeps the pointer in a part of the screen or hides it, as far as either is known;
/// each of the two is enough.
pub proof fn windows_hold_the_pointer(state: ForegroundState)
    ensures
        !state.has_window || state.is_explorer ==> !holds_pointer(state),
        state.has_window && !state.is_explorer ==> {
            &&& state.cursor_shown == Some(false) ==> holds_pointer(state)
            &&& state.cursor_shown != Some(false) ==> (holds_pointer(state) <==> state.clip is Some
                && state.clip != Some(state.screen))
        },
{
}

/// The modifiers that are down are those whose keys are: each of them alone, and the last for
/// either of its two keys.
pub proof fn modifiers_are_those_held(
    control: bool,
    menu: bool,
    shift: bool,
    left_win: bool,
    right_win: bool,
)
    ensures
        ({
            let mask = modifiers_held(control, menu, shift, left_win, right_win);
            &&& 0 <= mask < 16
            &&& mask % 2 == 1 <==> control
            &&& (mask / 2) % 2 == 1 <==> menu
            &&& (mask / 4) % 2 == 1 <==> shift
            &&& (mask / 8) % 2 == 1 <==> left_win || right_win
        }),
{
}

/// New displays are known from then on. The pointer is put at the new anchor exactly if it is
/// held and something has changed.
pub proof fn held_pointer_follows_the_displays(
    state: WindowsView,
    displays: Seq<DisplayRect>,
    anchor: Point,
)
    requires
        state.cursor is Some,
    ensures
        ({
            let (next, put) = state.refreshed(displays, anchor);
            &&& next.cursor matches Some(cursor)
            &&& cursor.displays == displays && cursor.anchor == anchor
            &&& cursor.last_point == state.cursor->0.last_point
            &&& put is Some <==> state.phase is Relaying && (state.cursor->0.anchor != anchor
                || state.cursor->0.displays != displays)
            &&& put matches Some(point) ==> point == anchor
            &&& next.phase == state.phase && next.physical == state.physical
        }),
{
}

} // verus!
