//! Holding the pointer of this machine at one point while its movements are relayed.

use crate::geometry::{DesktopLayout, DisplayRect, Point};
use crate::numeric;
use vstd::prelude::*;

verus! {

/// How close to a side of the desktop a movement from the anchor may end.
pub const BOGUS_MOTION_MARGIN: i32 = 10;

/// How far the capture of the pointer has come.
#[derive(Clone, Copy, Debug, PartialEq, Eq, Structural)]
pub enum CapturePhase {
    Observing,
    Arming,
    Relaying,
    Disarming,
}

impl CapturePhase {
    /// The phase as a number.
    pub open spec fn number(self) -> u8 {
        match self {
            CapturePhase::Observing => 0,
            CapturePhase::Arming => 1,
            CapturePhase::Relaying => 2,
            CapturePhase::Disarming => 3,
        }
    }

    /// The phase with a number. Numbers without a phase stand for the first one.
    pub open spec fn of_number(value: u8) -> CapturePhase {
        match value {
            1 => CapturePhase::Arming,
            2 => CapturePhase::Relaying,
            3 => CapturePhase::Disarming,
            _ => CapturePhase::Observing,
        }
    }

    /// The phase with a number.
    pub fn from_raw(value: u8) -> (r: Self)
        ensures
            r == CapturePhase::of_number(value),
    {
        match value {
            1 => CapturePhase::Arming,
            2 => CapturePhase::Relaying,
            3 => CapturePhase::Disarming,
            _ => CapturePhase::Observing,
        }
    }

    /// The phase as a number.
    pub fn raw(self) -> (r: u8)
        ensures
            r == self.number(),
    {
        match self {
            CapturePhase::Observing => 0,
            CapturePhase::Arming => 1,
            CapturePhase::Relaying => 2,
            CapturePhase::Disarming => 3,
        }
    }

    /// Whether input is kept from this machine.
    pub fn suppresses_local_input(self) -> (r: bool)
        ensures
            r == !(self is Observing),
    {
        match self {
            CapturePhase::Observing => false,
            _ => true,
        }
    }
}

/// A phase is found by its number again.
pub proof fn phase_number_round_trip(phase: CapturePhase)
    ensures
        CapturePhase::of_number(phase.number()) == phase,
{
}

/// What a movement of the pointer means.
#[derive(Clone, Copy, Debug, PartialEq, Eq, Structural)]
pub enum CursorMove {
    /// The pointer of this machine has moved.
    Observed { point: Point, dx: i32, dy: i32 },
    /// The held pointer was moved. A bogus amount comes from putting it back.
    Relayed { dx: i32, dy: i32, bogus: bool },
    Ignored,
}

/// The sides of the smallest rectangle round some displays.
#[derive(Clone, Copy, Debug, PartialEq, Eq, Structural)]
pub struct Bounds {
    pub left: i32,
    pub top: i32,
    pub right: i32,
    pub bottom: i32,
}

/// The rectangle round two rectangles.
pub open spec fn wider(bounds: Bounds, display: DisplayRect) -> Bounds {
    Bounds {
        left: if display.x < bounds.left {
            display.x
        } else {
            bounds.left
        },
        top: if display.y < bounds.top {
            display.y
        } else {
            bounds.top
        },
        right: if display.limit(true) > bounds.right {
            display.limit(true) as i32
        } else {
            bounds.right
        },
        bottom: if display.limit(false) > bounds.bottom {
            display.limit(false) as i32
        } else {
            bounds.bottom
        },
    }
}

/// The smallest rectangle round some displays; a single pixel without any.
pub open spec fn bounds_of(displays: Seq<DisplayRect>) -> Bounds
    decreases displays.len(),
{
    if displays.len() == 0 {
        Bounds { left: 0, top: 0, right: 1, bottom: 1 }
    } else if displays.len() == 1 {
        Bounds {
            left: displays[0].x,
            top: displays[0].y,
            right: displays[0].limit(true) as i32,
            bottom: displays[0].limit(false) as i32,
        }
    } else {
        wider(bounds_of(displays.drop_last()), displays.last())
    }
}

/// The rectangle holds every display.
pub proof fn bounds_hold_all_displays(displays: Seq<DisplayRect>, i: int)
    requires
        0 <= i < displays.len(),
    ensures
        bounds_of(displays).left <= displays[i].x,
        bounds_of(displays).top <= displays[i].y,
        displays[i].limit(true) <= bounds_of(displays).right,
        displays[i].limit(false) <= bounds_of(displays).bottom,
    decreases displays.len(),
{
    if displays.len() > 1 && i < displays.len() - 1 {
        bounds_hold_all_displays(displays.drop_last(), i);
    }
}

/// The smallest rectangle round some displays.
pub fn virtual_bounds(displays: &Vec<DisplayRect>) -> (r: Bounds)
    ensures
        r == bounds_of(displays@),
{
    if displays.len() == 0 {
        return Bounds { left: 0, top: 0, right: 1, bottom: 1 };
    }
    let mut bounds = Bounds {
        left: displays[0].x,
        top: displays[0].y,
        right: displays[0].right(),
        bottom: displays[0].bottom(),
    };
    let mut i: usize = 1;
    assert(displays@.take(1)[0] == displays@[0]);
    while i < displays.len()
        invariant
            1 <= i <= displays@.len(),
            bounds == bounds_of(displays@.take(i as int)),
        decreases displays@.len() - i,
    {
        let display = displays[i];
        assert(displays@.take(i + 1).drop_last() =~= displays@.take(i as int));
        let right: i32 = display.right();
        let bottom: i32 = display.bottom();
        bounds = Bounds {
            left: if display.x < bounds.left { display.x } else { bounds.left },
            top: if display.y < bounds.top { display.y } else { bounds.top },
            right: if right > bounds.right { right } else { bounds.right },
            bottom: if bottom > bounds.bottom { bottom } else { bounds.bottom },
        };
        i += 1;
    }
    assert(displays@.take(i as int) =~= displays@);
    bounds
}

/// Half of a length, with the fraction cut off.
pub open spec fn half(length: i32) -> int {
    if length >= 0 {
        length / 2
    } else {
        -((-length) / 2)
    }
}

/// The middle of a display.
pub open spec fn middle(display: DisplayRect) -> Point {
    Point {
        x: numeric::saturate(display.x + half(display.width)) as i32,
        y: numeric::saturate(display.y + half(display.height)) as i32,
    }
}

/// The middle of the primary display, or else of the first one.
pub open spec fn capture_anchor(primary: Option<DisplayRect>, displays: Seq<DisplayRect>) -> Option<Point> {
    if primary is Some {
        Some(middle(primary->0))
    } else if displays.len() > 0 {
        Some(middle(displays[0]))
    } else {
        None
    }
}

fn half_of(length: i32) -> (r: i32)
    ensures
        r == half(length),
{
    if length >= 0 {
        length / 2
    } else {
        let wide: i64 = -(length as i64);
        -(wide / 2) as i32
    }
}

fn middle_of(display: DisplayRect) -> (r: Point)
    ensures
        r == middle(display),
{
    Point {
        x: numeric::saturating_sum(display.x, half_of(display.width)),
        y: numeric::saturating_sum(display.y, half_of(display.height)),
    }
}

/// Where the pointer is held: in the middle of the primary display, or else of the first one.
pub fn select_capture_anchor(primary: Option<DisplayRect>, displays: &[DisplayRect]) -> (r: Option<
    Point,
>)
    ensures
        r == capture_anchor(primary, displays@),
{
    match primary {
        Some(display) => Some(middle_of(display)),
        None => if displays.len() > 0 {
            Some(middle_of(displays[0]))
        } else {
            None
        },
    }
}

/// The movements of the pointer, as far as they are of its user.
#[derive(Debug)]
pub struct CursorCaptureTracker {
    layout: DesktopLayout,
    anchor: Point,
    last_point: Option<Point>,
    warping: bool,
}

/// What is known of the pointer.
pub struct TrackerView {
    pub displays: Seq<DisplayRect>,
    /// Where the pointer is held.
    pub anchor: Point,
    pub last_point: Option<Point>,
    /// Whether the pointer is being put somewhere.
    pub warping: bool,
}

impl View for CursorCaptureTracker {
    type V = TrackerView;

    closed spec fn view(&self) -> TrackerView {
        TrackerView {
            displays: self.layout@,
            anchor: self.anchor,
            last_point: self.last_point,
            warping: self.warping,
        }
    }
}

/// How far one coordinate is from another, held inside the 32-bit range.
pub open spec fn offset(a: i32, b: i32) -> i32 {
    numeric::saturate(a - b) as i32
}

fn offset_of(a: i32, b: i32) -> (r: i32)
    ensures
        r == offset(a, b),
{
    numeric::clamp_wide(a as i64 - b as i64)
}

/// Whether an amount along one axis ends close to a side, or beyond it.
pub open spec fn near_side(amount: i32, anchor: i32, low: i32, high: i32) -> bool {
    ||| amount < 0 && numeric::saturate(numeric::saturate(-amount) + BOGUS_MOTION_MARGIN) > anchor - low
    ||| amount > 0 && numeric::saturate(amount + BOGUS_MOTION_MARGIN) > high - anchor
}

fn is_near_side(amount: i32, anchor: i32, low: i32, high: i32) -> (r: bool)
    ensures
        r == near_side(amount, anchor, low, high),
{
    if amount < 0 {
        let reach: i32 = numeric::saturating_sum(
            numeric::saturating_negation(amount),
            BOGUS_MOTION_MARGIN,
        );
        reach as i64 > anchor as i64 - low as i64
    } else if amount > 0 {
        let reach: i32 = numeric::saturating_sum(amount, BOGUS_MOTION_MARGIN);
        reach as i64 > high as i64 - anchor as i64
    } else {
        false
    }
}

impl TrackerView {
    /// Whether an amount is none that a user makes in one step from the anchor: it ends at a
    /// side of the desktop.
    pub open spec fn bogus(self, dx: i32, dy: i32) -> bool {
        let bounds = bounds_of(self.displays);
        near_side(dx, self.anchor.x, bounds.left, bounds.right) || near_side(
            dy,
            self.anchor.y,
            bounds.top,
            bounds.bottom,
        )
    }

    /// Whether a movement is not of the user.
    pub open spec fn ignores(self, phase: CapturePhase) -> bool {
        self.warping || phase is Arming || phase is Disarming
    }

    /// The amount of a movement to a point.
    pub open spec fn amount(self, phase: CapturePhase, point: Point) -> (i32, i32) {
        let previous = if self.last_point is Some {
            self.last_point->0
        } else if phase is Relaying {
            self.anchor
        } else {
            point
        };
        (offset(point.x, previous.x), offset(point.y, previous.y))
    }

    /// What a movement to a point means.
    pub open spec fn meaning(self, phase: CapturePhase, point: Point) -> CursorMove {
        let (dx, dy) = self.amount(phase, point);
        if self.ignores(phase) {
            CursorMove::Ignored
        } else if phase is Relaying {
            CursorMove::Relayed { dx, dy, bogus: self.bogus(dx, dy) }
        } else {
            CursorMove::Observed { point, dx, dy }
        }
    }

    /// What is known after a movement to a point.
    pub open spec fn moved(self, phase: CapturePhase, point: Point) -> TrackerView {
        if self.ignores(phase) {
            self
        } else if phase is Relaying {
            TrackerView { last_point: Some(self.anchor), ..self }
        } else {
            TrackerView { last_point: Some(point), ..self }
        }
    }
}

fn same_displays(a: &Vec<DisplayRect>, b: &Vec<DisplayRect>) -> (r: bool)
    ensures
        r == (a@ == b@),
{
    if a.len() != b.len() {
        return false;
    }
    let mut i: usize = 0;
    while i < a.len()
        invariant
            i <= a@.len(),
            a@.len() == b@.len(),
            forall|k: int| 0 <= k < i ==> a@[k] == b@[k],
        decreases a@.len() - i,
    {
        if a[i] != b[i] {
            assert(a@[i as int] != b@[i as int]);
            return false;
        }
        i += 1;
    }
    assert(a@ =~= b@);
    true
}

impl CursorCaptureTracker {
    pub fn new(layout: DesktopLayout, anchor: Point, initial_point: Option<Point>) -> (r: Self)
        ensures
            r@ == (TrackerView {
                displays: layout@,
                anchor,
                last_point: initial_point,
                warping: false,
            }),
    {
        CursorCaptureTracker { layout, anchor, last_point: initial_point, warping: false }
    }

    /// Where the pointer is held.
    pub fn anchor(&self) -> (r: Point)
        ensures
            r == self@.anchor,
    {
        self.anchor
    }

    /// The displays have changed, perhaps. Gives whether they, or the anchor, did.
    pub fn update_layout(&mut self, layout: DesktopLayout, anchor: Point) -> (r: bool)
        ensures
            final(self)@ == (TrackerView { displays: layout@, anchor, ..old(self)@ }),
            r == (old(self)@.anchor != anchor || old(self)@.displays != layout@),
    {
        let changed = self.anchor != anchor || !same_displays(
            &self.layout.displays,
            &layout.displays,
        );
        self.layout = layout;
        self.anchor = anchor;
        changed
    }

    /// The pointer is going to be put at a point. Movements do not count until it is there.
    pub fn begin_warp(&mut self, target: Point)
        ensures
            final(self)@ == (TrackerView { warping: true, last_point: Some(target), ..old(self)@ }),
    {
        self.warping = true;
        self.last_point = Some(target);
    }

    /// The pointer was put at a point.
    pub fn end_warp(&mut self, target: Point)
        ensures
            final(self)@ == (TrackerView { warping: false, last_point: Some(target), ..old(self)@ }),
    {
        self.warping = false;
        self.last_point = Some(target);
    }

    /// The pointer has moved to a point.
    pub fn handle_move(&mut self, phase: CapturePhase, point: Point) -> (r: CursorMove)
        ensures
            r == old(self)@.meaning(phase, point),
            final(self)@ == old(self)@.moved(phase, point),
    {
        if self.warping || phase == CapturePhase::Arming || phase == CapturePhase::Disarming {
            return CursorMove::Ignored;
        }
        if phase == CapturePhase::Relaying {
            let previous = match self.last_point {
                Some(previous) => previous,
                None => self.anchor,
            };
            let dx: i32 = offset_of(point.x, previous.x);
            let dy: i32 = offset_of(point.y, previous.y);
            self.last_point = Some(self.anchor);
            let bogus = self.is_bogus_motion(dx, dy);
            return CursorMove::Relayed { dx, dy, bogus };
        }
        let previous = match self.last_point {
            Some(previous) => previous,
            None => point,
        };
        self.last_point = Some(point);
        CursorMove::Observed {
            point,
            dx: offset_of(point.x, previous.x),
            dy: offset_of(point.y, previous.y),
        }
    }

    fn is_bogus_motion(&self, dx: i32, dy: i32) -> (r: bool)
        ensures
            r == self@.bogus(dx, dy),
    {
        let bounds = virtual_bounds(&self.layout.displays);
        is_near_side(dx, self.anchor.x, bounds.left, bounds.right) || is_near_side(
            dy,
            self.anchor.y,
            bounds.top,
            bounds.bottom,
        )
    }
}

/// Putting the held pointer back to the anchor is not taken for a movement of the user: the
/// movement there counts for nothing, and the next one counts from the anchor.
pub proof fn putting_back_is_not_relayed(state: TrackerView, echo: Point, next: Point)
    ensures
        ({
            let warping = TrackerView { warping: true, last_point: Some(state.anchor), ..state };
            let done = TrackerView { warping: false, last_point: Some(state.anchor), ..state };
            &&& warping.meaning(CapturePhase::Relaying, echo) is Ignored
            &&& warping.moved(CapturePhase::Relaying, echo) == warping
            &&& done.amount(CapturePhase::Relaying, next) == (
                offset(next.x, state.anchor.x),
                offset(next.y, state.anchor.y),
            )
        }),
{
}

/// While movements are relayed, each one counts from the anchor, wherever the one before ended.
pub proof fn relayed_moves_count_from_the_anchor(state: TrackerView, first: Point, next: Point)
    requires
        !state.warping,
    ensures
        state.moved(CapturePhase::Relaying, first).amount(CapturePhase::Relaying, next) == (
            offset(next.x, state.anchor.x),
            offset(next.y, state.anchor.y),
        ),
{
}

/// A pointer that does not move is never bogus.
pub proof fn resting_pointer_is_not_bogus(state: TrackerView)
    ensures
        !state.bogus(0, 0),
{
}

/// The rectangle round some displays is the smallest: each of its sides is a side of one of them.
pub proof fn bounds_touch_displays(displays: Seq<DisplayRect>)
    requires
        displays.len() > 0,
    ensures
        exists|i: int|
            0 <= i < displays.len() && bounds_of(displays).left == (#[trigger] displays[i]).x,
        exists|i: int|
            0 <= i < displays.len() && bounds_of(displays).top == (#[trigger] displays[i]).y,
        exists|i: int|
            0 <= i < displays.len() && bounds_of(displays).right == (#[trigger] displays[i]).limit(
                true,
            ),
        exists|i: int|
            0 <= i < displays.len() && bounds_of(displays).bottom == (#[trigger] displays[i]).limit(
                false,
            ),
    decreases displays.len(),
{
    let last = displays.len() - 1;
    if displays.len() == 1 {
        assert(displays[0] == displays.last());
    } else {
        let rest = displays.drop_last();
        bounds_touch_displays(rest);
        assert forall|i: int| 0 <= i < rest.len() implies #[trigger] rest[i] == displays[i] by {
        }
        let a = choose|i: int| 0 <= i < rest.len() && bounds_of(rest).left == (#[trigger] rest[i]).x;
        let b = choose|i: int| 0 <= i < rest.len() && bounds_of(rest).top == (#[trigger] rest[i]).y;
        let c = choose|i: int|
            0 <= i < rest.len() && bounds_of(rest).right == (#[trigger] rest[i]).limit(true);
        let d = choose|i: int|
            0 <= i < rest.len() && bounds_of(rest).bottom == (#[trigger] rest[i]).limit(false);
        assert(displays[a] == rest[a] && displays[b] == rest[b]);
        assert(displays[c] == rest[c] && displays[d] == rest[d]);
        assert(displays[last] == displays.last());
    }
}

/// The pointer is held in the middle of the primary display, whatever the others are, and of the
/// first display where none is primary: no nearer to one side than to the other, but for the
/// pixel that an even length has no half for. Without displays it is held nowhere.
pub proof fn pointer_is_held_in_the_middle(
    primary: Option<DisplayRect>,
    displays: Seq<DisplayRect>,
)
    requires
        primary matches Some(display) ==> display.width > 0 && display.height > 0,
        displays.len() > 0 ==> displays[0].width > 0 && displays[0].height > 0,
    ensures
        capture_anchor(primary, displays) is None <==> primary is None && displays.len() == 0,
        capture_anchor(primary, displays) matches Some(anchor) ==> {
            let display = if primary is Some {
                primary->0
            } else {
                displays[0]
            };
            &&& display.x + display.width <= i32::MAX ==> {
                &&& display.x <= anchor.x < display.x + display.width
                &&& 0 <= (anchor.x - display.x) - (display.x + display.width - 1 - anchor.x) <= 1
            }
            &&& display.y + display.height <= i32::MAX ==> {
                &&& display.y <= anchor.y < display.y + display.height
                &&& 0 <= (anchor.y - display.y) - (display.y + display.height - 1 - anchor.y) <= 1
            }
        },
{
}

/// Movements that are observed add up: from one point over a second to a third they amount to
/// the way from the first to the third, as far as the amounts fit.
pub proof fn observed_movements_add_up(state: TrackerView, first: Point, second: Point, third: Point)
    requires
        !state.warping,
        i32::MIN <= second.x - first.x <= i32::MAX,
        i32::MIN <= second.y - first.y <= i32::MAX,
        i32::MIN <= third.x - second.x <= i32::MAX,
        i32::MIN <= third.y - second.y <= i32::MAX,
    ensures
        ({
            let at_first = state.moved(CapturePhase::Observing, first);
            let at_second = at_first.moved(CapturePhase::Observing, second);
            &&& at_first.meaning(CapturePhase::Observing, second) matches CursorMove::Observed {
                point: there,
                dx,
                dy,
            }
            &&& at_second.meaning(CapturePhase::Observing, third) matches CursorMove::Observed {
                point: last,
                dx: dx2,
                dy: dy2,
            }
            &&& there == second && last == third
            &&& first.x + dx + dx2 == third.x
            &&& first.y + dy + dy2 == third.y
        }),
{
}

/// A movement of the held pointer is relayed as the way from the anchor to where it went, as far
/// as that fits, and the pointer counts as back at the anchor.
pub proof fn relayed_movements_leave_the_anchor(state: TrackerView, point: Point)
    requires
        !state.warping,
        state.last_point is None || state.last_point == Some(state.anchor),
        i32::MIN <= point.x - state.anchor.x <= i32::MAX,
        i32::MIN <= point.y - state.anchor.y <= i32::MAX,
    ensures
        state.meaning(CapturePhase::Relaying, point) matches CursorMove::Relayed { dx, dy, .. }
            && state.anchor.x + dx == point.x && state.anchor.y + dy == point.y,
        state.moved(CapturePhase::Relaying, point).last_point == Some(state.anchor),
        state.moved(CapturePhase::Relaying, point).anchor == state.anchor,
        state.moved(CapturePhase::Relaying, point).displays == state.displays,
        !state.moved(CapturePhase::Relaying, point).warping,
{
}

/// While capture is being switched, or the pointer put somewhere, its movements count for
/// nothing and leave nothing behind. At any other time they count.
pub proof fn movements_in_between_count_for_nothing(
    state: TrackerView,
    phase: CapturePhase,
    point: Point,
)
    ensures
        state.meaning(phase, point) is Ignored <==> state.warping || phase is Arming || phase
            is Disarming,
        state.meaning(phase, point) is Ignored ==> state.moved(phase, point) == state,
        state.meaning(phase, point) is Relayed ==> phase is Relaying,
        state.meaning(phase, point) is Observed ==> phase is Observing,
{
}

/// A movement of the held pointer is taken for no user's exactly where it would leave the desktop
/// or end within ten pixels of its sides, along the one axis or the other; a movement that stays
/// farther from all of them is the user's.
pub proof fn movements_to_the_sides_are_bogus(state: TrackerView, dx: i32, dy: i32)
    requires
        -0x4000_0000 <= dx <= 0x4000_0000,
        -0x4000_0000 <= dy <= 0x4000_0000,
    ensures
        ({
            let bounds = bounds_of(state.displays);
            let x = state.anchor.x + dx;
            let y = state.anchor.y + dy;
            state.bogus(dx, dy) <==> {
                ||| dx < 0 && x < bounds.left + 10
                ||| dx > 0 && x > bounds.right - 10
                ||| dy < 0 && y < bounds.top + 10
                ||| dy > 0 && y > bounds.bottom - 10
            }
        }),
{
}

} // verus!
