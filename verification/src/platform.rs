//! What a platform hands in, and what can be asked of it.

use crate::geometry::{DesktopLayout, DisplayRect, Point};
use crate::hotkey::ModifierMask;
use crate::protocol::KeySnapshot;
use vstd::prelude::*;

verus! {

/// How many events wait for the session before a platform reports an overflow.
pub const EVENT_QUEUE_CAPACITY: usize = 256;

/// What a scroll came from.
#[derive(Clone, Copy, Debug, PartialEq, Eq, Structural)]
pub enum ScrollSource {
    MouseWheel,
    Trackpad,
}

/// Something that happened on this machine.
#[derive(Clone, Debug)]
pub enum NativeEvent {
    Key { usage: u16, modifiers: ModifierMask, down: bool, repeat: bool },
    Button { button: u8, down: bool },
    Wheel { x: i32, y: i32, source: ScrollSource },
    /// The emergency hotkey was pressed.
    Emergency,
    /// A secure desktop has come to the front, or has gone; on it the cursor stays on the
    /// given display.
    SecureDesktop { active: bool, primary: Option<DisplayRect> },
    /// Events were lost because too many waited.
    ReliableQueueOverflow,
    /// Capturing or injecting has stopped working.
    Failed(String),
}

/// What an event holds.
pub enum NativeView {
    Key { usage: u16, modifiers: ModifierMask, down: bool, repeat: bool },
    Button { button: u8, down: bool },
    Wheel { x: i32, y: i32, source: ScrollSource },
    Emergency,
    SecureDesktop { active: bool, primary: Option<DisplayRect> },
    ReliableQueueOverflow,
    Failed(Seq<char>),
}

impl View for NativeEvent {
    type V = NativeView;

    open spec fn view(&self) -> NativeView {
        match *self {
            NativeEvent::Key { usage, modifiers, down, repeat } => NativeView::Key {
                usage,
                modifiers,
                down,
                repeat,
            },
            NativeEvent::Button { button, down } => NativeView::Button { button, down },
            NativeEvent::Wheel { x, y, source } => NativeView::Wheel { x, y, source },
            NativeEvent::Emergency => NativeView::Emergency,
            NativeEvent::SecureDesktop { active, primary } => NativeView::SecureDesktop {
                active,
                primary,
            },
            NativeEvent::ReliableQueueOverflow => NativeView::ReliableQueueOverflow,
            NativeEvent::Failed(message) => NativeView::Failed(message@),
        }
    }
}

/// Why a platform could not do what it was asked.
#[derive(Debug)]
pub struct BackendError {
    pub message: String,
}

/// What a platform can do. Platforms implement it.
pub trait InputBackend {
    /// Whether the platform still works.
    fn health_check(&self) -> (r: Result<(), BackendError>)
        default_ensures
            r is Ok,
    {
        Ok(())
    }

    /// Whether the system protects what is typed from other programs. This may change at any
    /// time; an end of a session pauses meanwhile.
    fn secure_input_state(&self) -> (r: bool)
        default_ensures
            !r,
    {
        false
    }

    fn layout(&self) -> Result<DesktopLayout, BackendError>;

    /// Whether a secure desktop is at the front, and the display that the cursor stays on.
    fn secure_desktop_state(&self) -> (r: (bool, Option<DisplayRect>))
        default_ensures
            r == (false, None::<DisplayRect>),
    {
        (false, None)
    }

    fn cursor_position(&self) -> Result<Point, BackendError>;

    fn snapshot(&self) -> KeySnapshot;

    /// The keys and buttons that are down, after asking the system where that is possible.
    fn refresh_pressed_state(&self) -> (r: Result<KeySnapshot, BackendError>)
        default_ensures
            r matches Ok(snapshot) && call_ensures(Self::snapshot, (self,), snapshot),
    {
        Ok(self.snapshot())
    }

    fn set_capture(&self, active: bool) -> Result<(), BackendError>;

    /// Listens to the keyboard alone, without taking the pointer.
    fn set_keyboard_capture(&self, active: bool) -> (r: Result<(), BackendError>)
        default_ensures
            r is Ok,
    {
        Ok(())
    }

    fn warp_cursor(&self, point: Point) -> Result<(), BackendError>;

    fn inject_key(&self, usage: u16, modifiers: ModifierMask, down: bool, repeat: bool) -> Result<
        (),
        BackendError,
    >;

    fn inject_button(&self, button: u8, down: bool) -> Result<(), BackendError>;

    fn inject_cursor(&self, point: Point) -> Result<(), BackendError>;

    /// Moves the pointer by an amount. Not every platform can.
    fn inject_motion(&self, dx: i32, dy: i32) -> (r: Result<(), BackendError>)
        default_ensures
            r matches Err(error) && error.message@ == "相对光标注入在当前平台不可用"@,
    {
        Err(BackendError { message: "相对光标注入在当前平台不可用".to_owned() })
    }

    fn inject_wheel(&self, x: i32, y: i32) -> Result<(), BackendError>;

    fn release_all(&self) -> Result<(), BackendError>;
}

/// Pointer motion since it was last asked for.
#[derive(Clone, Copy, Debug, PartialEq, Eq, Structural)]
pub struct MotionSample {
    pub dx: i32,
    pub dy: i32,
    /// The last position that was seen.
    pub position: Option<Point>,
    /// Whether a position was seen since the last sample.
    pub position_updated: bool,
}

/// Collects pointer motion between two samples, for two independent readers.
#[derive(Clone, Copy, Debug, PartialEq, Eq, Structural)]
pub struct MotionAccumulator {
    pub dx: i32,
    pub dy: i32,
    pub observed_dx: i32,
    pub observed_dy: i32,
    pub position: u64,
    pub position_valid: bool,
    pub position_updated: bool,
    pub observed_position_updated: bool,
}

/// A coordinate as an unsigned number with the same bits.
pub open spec fn raw_coordinate(v: i32) -> int {
    if v < 0 {
        v + 0x1_0000_0000
    } else {
        v as int
    }
}

/// The coordinate with the given bits.
pub open spec fn coordinate_of_raw(n: int) -> int {
    if n >= 0x8000_0000 {
        n - 0x1_0000_0000
    } else {
        n
    }
}

/// A point as one number: x in the upper half, y in the lower one.
pub open spec fn packed(point: Point) -> u64 {
    (raw_coordinate(point.x) * 0x1_0000_0000 + raw_coordinate(point.y)) as u64
}

/// The point that a number stands for.
pub open spec fn unpacked(value: u64) -> Point {
    Point {
        x: coordinate_of_raw(value as int / 0x1_0000_0000) as i32,
        y: coordinate_of_raw(value as int % 0x1_0000_0000) as i32,
    }
}

/// A coordinate as an unsigned number with the same bits.
pub(crate) fn raw_of(v: i32) -> (r: u64)
    ensures
        r == raw_coordinate(v),
{
    if v < 0 {
        (v as i64 + 0x1_0000_0000) as u64
    } else {
        v as u64
    }
}

/// The coordinate with the given bits.
pub(crate) fn coordinate_of(n: u64) -> (r: i32)
    requires
        n < 0x1_0000_0000,
    ensures
        r == coordinate_of_raw(n as int),
{
    if n >= 0x8000_0000 {
        (n as i64 - 0x1_0000_0000) as i32
    } else {
        n as i32
    }
}

/// A point as one number.
pub fn pack_point(point: Point) -> (r: u64)
    ensures
        r == packed(point),
{
    raw_of(point.x) * 0x1_0000_0000 + raw_of(point.y)
}

/// The point that a number stands for.
pub fn unpack_point(value: u64) -> (r: Point)
    ensures
        r == unpacked(value),
{
    Point { x: coordinate_of(value / 0x1_0000_0000), y: coordinate_of(value % 0x1_0000_0000) }
}

/// A packed point is unpacked as it was, and a number is packed as it was.
pub proof fn packing_round_trip(point: Point, value: u64)
    ensures
        unpacked(packed(point)) == point,
        packed(unpacked(value)) == value,
{
}

impl Default for MotionAccumulator {
    fn default() -> (r: Self)
        ensures
            r == empty_motion(),
    {
        MotionAccumulator {
            dx: 0,
            dy: 0,
            observed_dx: 0,
            observed_dy: 0,
            position: 0,
            position_valid: false,
            position_updated: false,
            observed_position_updated: false,
        }
    }
}

/// No motion, and no position seen.
pub open spec fn empty_motion() -> MotionAccumulator {
    MotionAccumulator {
        dx: 0,
        dy: 0,
        observed_dx: 0,
        observed_dy: 0,
        position: 0,
        position_valid: false,
        position_updated: false,
        observed_position_updated: false,
    }
}

impl MotionAccumulator {
    /// The last position that was seen.
    pub open spec fn last_position(self) -> Option<Point> {
        if self.position_valid {
            Some(unpacked(self.position))
        } else {
            None
        }
    }

    /// What the first reader is given, and what is left.
    pub open spec fn sampled(self) -> (MotionSample, MotionAccumulator) {
        (
            MotionSample {
                dx: self.dx,
                dy: self.dy,
                position: self.last_position(),
                position_updated: self.position_updated,
            },
            MotionAccumulator { dx: 0, dy: 0, position_updated: false, ..self },
        )
    }

    /// What the second reader is given, and what is left.
    pub open spec fn observed(self) -> (MotionSample, MotionAccumulator) {
        (
            MotionSample {
                dx: self.observed_dx,
                dy: self.observed_dy,
                position: self.last_position(),
                position_updated: self.observed_position_updated,
            },
            MotionAccumulator {
                observed_dx: 0,
                observed_dy: 0,
                observed_position_updated: false,
                ..self
            },
        )
    }

    /// With more motion, for both readers. Amounts wrap round.
    pub open spec fn with_motion(self, dx: i32, dy: i32) -> MotionAccumulator {
        MotionAccumulator {
            dx: self.dx.wrapping_add(dx),
            dy: self.dy.wrapping_add(dy),
            observed_dx: self.observed_dx.wrapping_add(dx),
            observed_dy: self.observed_dy.wrapping_add(dy),
            ..self
        }
    }

    /// With the position where the pointer is.
    pub open spec fn with_position(self, position: Point) -> MotionAccumulator {
        MotionAccumulator {
            position: packed(position),
            position_valid: true,
            position_updated: true,
            observed_position_updated: true,
            ..self
        }
    }

    /// More motion, for both readers. Amounts wrap round.
    pub fn add(&mut self, dx: i32, dy: i32)
        ensures
            *final(self) == old(self).with_motion(dx, dy),
    {
        self.dx = self.dx.wrapping_add(dx);
        self.dy = self.dy.wrapping_add(dy);
        self.observed_dx = self.observed_dx.wrapping_add(dx);
        self.observed_dy = self.observed_dy.wrapping_add(dy);
    }

    /// More motion, and the position where it ended.
    pub fn add_at(&mut self, dx: i32, dy: i32, position: Point)
        ensures
            *final(self) == old(self).with_position(position).with_motion(dx, dy),
            final(self).last_position() == Some(position),
    {
        proof {
            packing_round_trip(position, 0);
        }
        self.position = pack_point(position);
        self.position_valid = true;
        self.position_updated = true;
        self.observed_position_updated = true;
        self.add(dx, dy);
    }

    fn known_position(&self) -> (r: Option<Point>)
        ensures
            r == self.last_position(),
    {
        if self.position_valid {
            Some(unpack_point(self.position))
        } else {
            None
        }
    }

    /// The motion for the first reader, who starts anew.
    pub fn take(&mut self) -> (r: MotionSample)
        ensures
            (r, *final(self)) == old(self).sampled(),
            r == (MotionSample {
                dx: old(self).dx,
                dy: old(self).dy,
                position: old(self).last_position(),
                position_updated: old(self).position_updated,
            }),
            *final(self) == (MotionAccumulator {
                dx: 0,
                dy: 0,
                position_updated: false,
                ..*old(self)
            }),
    {
        let sample = MotionSample {
            dx: self.dx,
            dy: self.dy,
            position: self.known_position(),
            position_updated: self.position_updated,
        };
        self.dx = 0;
        self.dy = 0;
        self.position_updated = false;
        sample
    }

    /// The motion for the second reader, who starts anew.
    pub fn take_observed(&mut self) -> (r: MotionSample)
        ensures
            (r, *final(self)) == old(self).observed(),
            r == (MotionSample {
                dx: old(self).observed_dx,
                dy: old(self).observed_dy,
                position: old(self).last_position(),
                position_updated: old(self).observed_position_updated,
            }),
            *final(self) == (MotionAccumulator {
                observed_dx: 0,
                observed_dy: 0,
                observed_position_updated: false,
                ..*old(self)
            }),
    {
        let sample = MotionSample {
            dx: self.observed_dx,
            dy: self.observed_dy,
            position: self.known_position(),
            position_updated: self.observed_position_updated,
        };
        self.observed_dx = 0;
        self.observed_dy = 0;
        self.observed_position_updated = false;
        sample
    }
}

/// A piece of motion, with the position where it ended if that was seen.
pub struct MotionStep {
    pub dx: i32,
    pub dy: i32,
    pub position: Option<Point>,
}

/// What is collected after some pieces of motion.
pub open spec fn collected(start: MotionAccumulator, steps: Seq<MotionStep>) -> MotionAccumulator
    decreases steps.len(),
{
    if steps.len() == 0 {
        start
    } else {
        let before = collected(start, steps.drop_last());
        let step = steps.last();
        match step.position {
            Some(position) => before.with_position(position).with_motion(step.dx, step.dy),
            None => before.with_motion(step.dx, step.dy),
        }
    }
}

/// The motion of several pieces together.
pub open spec fn motion_sum(steps: Seq<MotionStep>) -> (int, int)
    decreases steps.len(),
{
    if steps.len() == 0 {
        (0, 0)
    } else {
        let (x, y) = motion_sum(steps.drop_last());
        (x + steps.last().dx, y + steps.last().dy)
    }
}

/// Whether two numbers have the same lower 32 bits.
pub open spec fn same_lower_half(a: int, b: int) -> bool {
    exists|k: int| a - b == #[trigger] (k * 0x1_0000_0000)
}

proof fn lemma_same_lower_half(sum: i32, start: int, moved: int, step: i32)
    requires
        same_lower_half(sum as int, start + moved),
    ensures
        same_lower_half(sum.wrapping_add(step) as int, start + moved + step),
{
    let k = choose|k: int| sum as int - (start + moved) == #[trigger] (k * 0x1_0000_0000);
    let next = sum.wrapping_add(step) as int - (start + moved + step);
    assert(next == k * 0x1_0000_0000 || next == (k + 1) * 0x1_0000_0000 || next == (k - 1)
        * 0x1_0000_0000);
}

/// However the motion comes in pieces, both readers get all of it: what is collected is the sum,
/// up to wrapping round, and exactly the sum where that is a 32-bit number.
pub proof fn collected_motion_is_the_sum(start: MotionAccumulator, steps: Seq<MotionStep>)
    ensures
        ({
            let end = collected(start, steps);
            let (x, y) = motion_sum(steps);
            &&& same_lower_half(end.dx as int, start.dx + x)
            &&& same_lower_half(end.dy as int, start.dy + y)
            &&& same_lower_half(end.observed_dx as int, start.observed_dx + x)
            &&& same_lower_half(end.observed_dy as int, start.observed_dy + y)
            &&& i32::MIN <= start.dx + x <= i32::MAX ==> end.dx == start.dx + x
            &&& i32::MIN <= start.dy + y <= i32::MAX ==> end.dy == start.dy + y
        }),
    decreases steps.len(),
{
    let (x, y) = motion_sum(steps);
    if steps.len() == 0 {
        assert(0int == 0int * 0x1_0000_0000);
    } else {
        let before = collected(start, steps.drop_last());
        let (px, py) = motion_sum(steps.drop_last());
        collected_motion_is_the_sum(start, steps.drop_last());
        let step = steps.last();
        lemma_same_lower_half(before.dx, start.dx as int, px, step.dx);
        lemma_same_lower_half(before.dy, start.dy as int, py, step.dy);
        lemma_same_lower_half(before.observed_dx, start.observed_dx as int, px, step.dx);
        lemma_same_lower_half(before.observed_dy, start.observed_dy as int, py, step.dy);
    }
    let end = collected(start, steps);
    let kx = choose|k: int| end.dx - (start.dx + x) == #[trigger] (k * 0x1_0000_0000);
    let ky = choose|k: int| end.dy - (start.dy + y) == #[trigger] (k * 0x1_0000_0000);
}

/// What became of the events of a platform: whether one reported a failure, and whether one
/// was lost.
#[derive(Clone, Copy, Debug, PartialEq, Eq, Structural)]
pub struct EventGate {
    pub failed: bool,
    pub overflowed: bool,
}

impl EventGate {
    pub fn new() -> (r: Self)
        ensures
            r == (EventGate { failed: false, overflowed: false }),
    {
        EventGate { failed: false, overflowed: false }
    }

    /// What is known after an event: whether it reports a failure, and whether it found room in
    /// the queue.
    pub open spec fn after_event(self, failed: bool, accepted: bool) -> EventGate {
        EventGate { failed: self.failed || failed, overflowed: self.overflowed || !accepted }
    }

    /// Whether the platform cannot be used any more.
    pub open spec fn terminal(self) -> bool {
        self.failed || self.overflowed
    }

    /// Notes an event that was put in the queue, or for which there was no room. Gives whether
    /// the overflow is to be reported through the queue.
    pub fn emit_reliable(&mut self, event: &NativeEvent, accepted: bool) -> (r: bool)
        ensures
            final(self).failed == (old(self).failed || *event is Failed),
            final(self).overflowed == (old(self).overflowed || !accepted),
            *final(self) == old(self).after_event(*event is Failed, accepted),
            r == !accepted,
    {
        if let NativeEvent::Failed(_) = event {
            self.failed = true;
        }
        if !accepted {
            self.overflowed = true;
        }
        !accepted
    }

    /// Whether the platform cannot be used any more.
    pub fn platform_is_terminal(&self) -> (r: bool)
        ensures
            r == (self.failed || self.overflowed),
            r == self.terminal(),
    {
        self.failed || self.overflowed
    }
}

/// The last position that was seen with some pieces of motion.
pub open spec fn last_seen(start: Option<Point>, steps: Seq<MotionStep>) -> Option<Point>
    decreases steps.len(),
{
    if steps.len() == 0 {
        start
    } else if steps.last().position is Some {
        steps.last().position
    } else {
        last_seen(start, steps.drop_last())
    }
}

/// Both readers see the position that was seen last, and whether one was seen since they last
/// asked.
pub proof fn collected_position_is_the_last_one(start: MotionAccumulator, steps: Seq<MotionStep>)
    ensures
        ({
            let end = collected(start, steps);
            let seen = exists|i: int|
                0 <= i < steps.len() && (#[trigger] steps[i]).position is Some;
            &&& end.last_position() == last_seen(start.last_position(), steps)
            &&& end.position_updated == (start.position_updated || seen)
            &&& end.observed_position_updated == (start.observed_position_updated || seen)
        }),
    decreases steps.len(),
{
    if steps.len() > 0 {
        let before = steps.drop_last();
        collected_position_is_the_last_one(start, before);
        let last = steps[steps.len() - 1];
        if let Some(position) = last.position {
            packing_round_trip(position, 0);
        } else if exists|i: int| 0 <= i < steps.len() && (#[trigger] steps[i]).position is Some {
            let i = choose|i: int| 0 <= i < steps.len() && (#[trigger] steps[i]).position is Some;
            assert(before[i].position is Some);
        }
        if exists|i: int| 0 <= i < before.len() && (#[trigger] before[i]).position is Some {
            let i = choose|i: int|
                0 <= i < before.len() && (#[trigger] before[i]).position is Some;
            assert(steps[i].position is Some);
        }
    }
}

/// What each reader is given is what was collected for that reader, and each starts anew without
/// taking anything from the other.
pub proof fn readers_do_not_disturb_each_other(state: MotionAccumulator)
    ensures
        ({
            let (sample, after) = state.sampled();
            &&& sample.dx == state.dx && sample.dy == state.dy
            &&& sample.position == state.last_position()
            &&& sample.position_updated == state.position_updated
            &&& after.dx == 0 && after.dy == 0 && !after.position_updated
            &&& after.observed_dx == state.observed_dx && after.observed_dy == state.observed_dy
            &&& after.observed_position_updated == state.observed_position_updated
            &&& after.last_position() == state.last_position()
        }),
        ({
            let (sample, after) = state.observed();
            &&& sample.dx == state.observed_dx && sample.dy == state.observed_dy
            &&& sample.position == state.last_position()
            &&& sample.position_updated == state.observed_position_updated
            &&& after.observed_dx == 0 && after.observed_dy == 0
                && !after.observed_position_updated
            &&& after.dx == state.dx && after.dy == state.dy
            &&& after.position_updated == state.position_updated
            &&& after.last_position() == state.last_position()
        }),
{
}

/// A platform that has failed once, or that has lost an event once, cannot be used any more, and
/// nothing that comes later makes it usable again. Nothing else takes it out of use.
pub proof fn platforms_do_not_recover(state: EventGate, failed: bool, accepted: bool)
    ensures
        state.terminal() ==> state.after_event(failed, accepted).terminal(),
        failed || !accepted ==> state.after_event(failed, accepted).terminal(),
        !state.terminal() && !failed && accepted ==> !state.after_event(failed, accepted).terminal(),
        !(EventGate { failed: false, overflowed: false }).terminal(),
{
}

} // verus!
