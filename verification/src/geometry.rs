//! Displays, the desktop they form, and the outer edges of that desktop.
//!
//! An edge runs along one axis and is crossed along the other. For the left and right edges the
//! crossing axis is horizontal; for the top and bottom edges it is vertical. The functions below
//! are written once for both axes: `across` is the crossing axis, `along` the other one.

use crate::numeric;
use vstd::prelude::*;

verus! {

/// A side of the desktop.
#[derive(Clone, Copy, Debug, PartialEq, Eq, Structural)]
pub enum ScreenEdge {
    Left,
    Right,
    Top,
    Bottom,
}

impl ScreenEdge {
    /// The side across the desktop.
    pub open spec fn opposite_edge(self) -> ScreenEdge {
        match self {
            ScreenEdge::Left => ScreenEdge::Right,
            ScreenEdge::Right => ScreenEdge::Left,
            ScreenEdge::Top => ScreenEdge::Bottom,
            ScreenEdge::Bottom => ScreenEdge::Top,
        }
    }

    /// Whether the edge is crossed horizontally.
    pub open spec fn horizontal(self) -> bool {
        self is Left || self is Right
    }

    /// Whether the edge lies at the low end of its crossing axis.
    pub open spec fn low_side(self) -> bool {
        self is Left || self is Top
    }

    /// The word for the edge on the command line.
    pub open spec fn arg_text(self) -> Seq<char> {
        match self {
            ScreenEdge::Left => "left"@,
            ScreenEdge::Right => "right"@,
            ScreenEdge::Top => "top"@,
            ScreenEdge::Bottom => "bottom"@,
        }
    }

    pub fn opposite(self) -> (r: Self)
        ensures
            r == self.opposite_edge(),
    {
        match self {
            ScreenEdge::Left => ScreenEdge::Right,
            ScreenEdge::Right => ScreenEdge::Left,
            ScreenEdge::Top => ScreenEdge::Bottom,
            ScreenEdge::Bottom => ScreenEdge::Top,
        }
    }

    pub fn as_arg(self) -> (r: &'static str)
        ensures
            r@ == self.arg_text(),
    {
        match self {
            ScreenEdge::Left => "left",
            ScreenEdge::Right => "right",
            ScreenEdge::Top => "top",
            ScreenEdge::Bottom => "bottom",
        }
    }

    pub(crate) fn is_horizontal(self) -> (r: bool)
        ensures
            r == self.horizontal(),
    {
        match self {
            ScreenEdge::Left | ScreenEdge::Right => true,
            ScreenEdge::Top | ScreenEdge::Bottom => false,
        }
    }

    pub(crate) fn is_low_side(self) -> (r: bool)
        ensures
            r == self.low_side(),
    {
        match self {
            ScreenEdge::Left | ScreenEdge::Top => true,
            ScreenEdge::Right | ScreenEdge::Bottom => false,
        }
    }
}

/// The opposite of the opposite is the edge itself, and both are crossed along the same axis.
pub proof fn opposite_is_an_involution(edge: ScreenEdge)
    ensures
        edge.opposite_edge() != edge,
        edge.opposite_edge().opposite_edge() == edge,
        edge.opposite_edge().horizontal() == edge.horizontal(),
        edge.opposite_edge().low_side() == !edge.low_side(),
{
}

/// A position on the desktop, in pixels.
#[derive(Clone, Copy, Debug, PartialEq, Eq, Structural)]
pub struct Point {
    pub x: i32,
    pub y: i32,
}

impl Default for Point {
    fn default() -> (r: Self)
        ensures
            r == (Point { x: 0, y: 0 }),
    {
        Point { x: 0, y: 0 }
    }
}

impl Point {
    /// The coordinate on the horizontal axis, or on the vertical one.
    pub open spec fn on_axis(self, horizontal: bool) -> int {
        if horizontal {
            self.x as int
        } else {
            self.y as int
        }
    }

    pub(crate) fn coordinate(self, horizontal: bool) -> (r: i32)
        ensures
            r == self.on_axis(horizontal),
    {
        if horizontal {
            self.x
        } else {
            self.y
        }
    }
}

/// The rectangle that a display takes up on the desktop.
#[derive(Clone, Copy, Debug, PartialEq, Eq, Structural)]
pub struct DisplayRect {
    pub x: i32,
    pub y: i32,
    pub width: i32,
    pub height: i32,
}

impl DisplayRect {
    /// The first coordinate on an axis.
    pub open spec fn first(self, horizontal: bool) -> int {
        if horizontal {
            self.x as int
        } else {
            self.y as int
        }
    }

    /// The coordinate just behind the last one on an axis.
    pub open spec fn limit(self, horizontal: bool) -> int {
        if horizontal {
            numeric::saturate(self.x + self.width)
        } else {
            numeric::saturate(self.y + self.height)
        }
    }

    /// Whether a coordinate on an axis belongs to the display.
    pub open spec fn spans(self, horizontal: bool, coordinate: int) -> bool {
        self.first(horizontal) <= coordinate < self.limit(horizontal)
    }

    /// Whether the pixel with these coordinates belongs to the display.
    pub open spec fn covers(self, x: int, y: int) -> bool {
        self.spans(true, x) && self.spans(false, y)
    }

    /// Where the edge of the display lies on the crossing axis.
    pub open spec fn boundary(self, edge: ScreenEdge) -> int {
        if edge.low_side() {
            self.first(edge.horizontal())
        } else {
            self.limit(edge.horizontal())
        }
    }

    /// The coordinate just beyond the edge.
    pub open spec fn beyond(self, edge: ScreenEdge) -> int {
        if edge.low_side() {
            self.first(edge.horizontal()) - 1
        } else {
            self.limit(edge.horizontal())
        }
    }

    /// The last coordinate before the edge.
    pub open spec fn brink(self, edge: ScreenEdge) -> int {
        if edge.low_side() {
            self.first(edge.horizontal())
        } else {
            self.limit(edge.horizontal()) - 1
        }
    }

    pub fn right(self) -> (r: i32)
        ensures
            r == self.limit(true),
    {
        numeric::saturating_sum(self.x, self.width)
    }

    pub fn bottom(self) -> (r: i32)
        ensures
            r == self.limit(false),
    {
        numeric::saturating_sum(self.y, self.height)
    }

    pub fn contains(self, point: Point) -> (r: bool)
        ensures
            r == self.covers(point.x as int, point.y as int),
    {
        point.x >= self.x && point.x < self.right() && point.y >= self.y && point.y < self.bottom()
    }

    pub(crate) fn axis_first(self, horizontal: bool) -> (r: i32)
        ensures
            r == self.first(horizontal),
    {
        if horizontal {
            self.x
        } else {
            self.y
        }
    }

    pub(crate) fn axis_limit(self, horizontal: bool) -> (r: i32)
        ensures
            r == self.limit(horizontal),
    {
        if horizontal {
            self.right()
        } else {
            self.bottom()
        }
    }

    pub(crate) fn edge_boundary(self, edge: ScreenEdge) -> (r: i32)
        ensures
            r == self.boundary(edge),
    {
        if edge.is_low_side() {
            self.axis_first(edge.is_horizontal())
        } else {
            self.axis_limit(edge.is_horizontal())
        }
    }

    pub(crate) fn edge_beyond(self, edge: ScreenEdge) -> (r: i64)
        ensures
            r == self.beyond(edge),
    {
        if edge.is_low_side() {
            self.axis_first(edge.is_horizontal()) as i64 - 1
        } else {
            self.axis_limit(edge.is_horizontal()) as i64
        }
    }

    pub(crate) fn edge_brink(self, edge: ScreenEdge) -> (r: i64)
        ensures
            r == self.brink(edge),
    {
        if edge.is_low_side() {
            self.axis_first(edge.is_horizontal()) as i64
        } else {
            self.axis_limit(edge.is_horizontal()) as i64 - 1
        }
    }
}

/// Why a list of displays does not make a desktop.
#[derive(Clone, Copy, Debug, PartialEq, Eq, Structural)]
pub enum LayoutError {
    /// There is no display.
    NoDisplay,
    /// A display has no width or no height.
    InvalidSize,
}

/// The displays that make up a desktop.
#[derive(Debug, PartialEq, Eq)]
pub struct DesktopLayout {
    pub displays: Vec<DisplayRect>,
}

impl Clone for DesktopLayout {
    fn clone(&self) -> (r: Self)
        ensures
            r@ == self@,
    {
        let displays = self.displays.clone();
        assert(displays@ =~= self.displays@);
        DesktopLayout { displays }
    }
}

impl View for DesktopLayout {
    type V = Seq<DisplayRect>;

    open spec fn view(&self) -> Seq<DisplayRect> {
        self.displays@
    }
}

/// Whether a display has no width or no height.
pub open spec fn has_no_area(display: DisplayRect) -> bool {
    display.width <= 0 || display.height <= 0
}

/// Whether the displays make a desktop: there is one, and each has a size.
pub open spec fn valid_displays(displays: Seq<DisplayRect>) -> bool {
    &&& displays.len() > 0
    &&& forall|i: int| 0 <= i < displays.len() ==> !has_no_area(#[trigger] displays[i])
}

/// Whether some display covers the pixel.
pub open spec fn on_desktop(displays: Seq<DisplayRect>, x: int, y: int) -> bool {
    exists|i: int| 0 <= i < displays.len() && (#[trigger] displays[i]).covers(x, y)
}

/// The pixel with these coordinates on the crossing axis and on the axis along an edge.
pub open spec fn covered_by_axes(
    displays: Seq<DisplayRect>,
    horizontal: bool,
    across: int,
    along: int,
) -> bool {
    if horizontal {
        on_desktop(displays, across, along)
    } else {
        on_desktop(displays, along, across)
    }
}

/// Whether the edge of a display lies open at `along`: just beyond it there is no display.
pub open spec fn exposed(
    displays: Seq<DisplayRect>,
    display: DisplayRect,
    edge: ScreenEdge,
    along: int,
) -> bool {
    !covered_by_axes(displays, edge.horizontal(), display.beyond(edge), along)
}

pub open spec fn distance(a: int, b: int) -> int {
    if a < b {
        b - a
    } else {
        a - b
    }
}

/// Whether a point is within `tolerance` of the open edge of the given display.
pub open spec fn near_exposed_edge(
    displays: Seq<DisplayRect>,
    display: DisplayRect,
    edge: ScreenEdge,
    point: Point,
    tolerance: int,
) -> bool {
    let along = point.on_axis(!edge.horizontal());
    &&& display.spans(!edge.horizontal(), along)
    &&& distance(point.on_axis(edge.horizontal()), display.brink(edge)) <= tolerance
    &&& exposed(displays, display, edge, along)
}

/// Whether a point is within `tolerance` of an outer edge of the desktop.
pub open spec fn near_outer_edge(
    displays: Seq<DisplayRect>,
    edge: ScreenEdge,
    point: Point,
    tolerance: int,
) -> bool {
    exists|i: int|
        0 <= i < displays.len() && near_exposed_edge(
            displays,
            #[trigger] displays[i],
            edge,
            point,
            tolerance,
        )
}

/// Whether a movement points out of the desktop through the edge.
pub open spec fn outward(edge: ScreenEdge, dx: int, dy: int) -> bool {
    match edge {
        ScreenEdge::Left => dx < 0,
        ScreenEdge::Right => dx > 0,
        ScreenEdge::Top => dy < 0,
        ScreenEdge::Bottom => dy > 0,
    }
}

impl DesktopLayout {
    /// A desktop from its displays. Refused without a display, and with one that has no size.
    pub fn new(displays: Vec<DisplayRect>) -> (r: Result<Self, LayoutError>)
        ensures
            match r {
                Ok(layout) => valid_displays(displays@) && layout@ == displays@,
                Err(LayoutError::NoDisplay) => displays@.len() == 0,
                Err(LayoutError::InvalidSize) => displays@.len() > 0 && !valid_displays(displays@),
            },
    {
        if displays.len() == 0 {
            return Err(LayoutError::NoDisplay);
        }
        let mut i: usize = 0;
        while i < displays.len()
            invariant
                i <= displays@.len(),
                forall|k: int| 0 <= k < i ==> !has_no_area(#[trigger] displays@[k]),
            decreases displays@.len() - i,
        {
            if displays[i].width <= 0 || displays[i].height <= 0 {
                assert(has_no_area(displays@[i as int]));
                return Err(LayoutError::InvalidSize);
            }
            i += 1;
        }
        Ok(DesktopLayout { displays })
    }

    /// Whether some display covers the pixel.
    pub(crate) fn covers_pixel(&self, x: i64, y: i64) -> (r: bool)
        ensures
            r == on_desktop(self@, x as int, y as int),
    {
        let mut i: usize = 0;
        while i < self.displays.len()
            invariant
                i <= self@.len(),
                forall|k: int| 0 <= k < i ==> !(#[trigger] self@[k]).covers(x as int, y as int),
            decreases self@.len() - i,
        {
            let display = self.displays[i];
            let inside = x >= display.x as i64 && x < display.right() as i64 && y
                >= display.y as i64 && y < display.bottom() as i64;
            if inside {
                assert(self@[i as int].covers(x as int, y as int));
                return true;
            }
            i += 1;
        }
        false
    }

    /// Whether the edge of a display lies open at the point.
    pub fn edge_is_exposed(&self, display: DisplayRect, edge: ScreenEdge, point: Point) -> (r: bool)
        ensures
            r == exposed(self@, display, edge, point.on_axis(!edge.horizontal())),
    {
        let beyond: i64 = display.edge_beyond(edge);
        if edge.is_horizontal() {
            !self.covers_pixel(beyond, point.y as i64)
        } else {
            !self.covers_pixel(point.x as i64, beyond)
        }
    }

    /// Whether a point is within `tolerance` of an outer edge of the desktop.
    pub fn is_outer_edge_point(&self, edge: ScreenEdge, point: Point, tolerance: i32) -> (r: bool)
        ensures
            r == near_outer_edge(self@, edge, point, tolerance as int),
    {
        let horizontal = edge.is_horizontal();
        let across: i64 = point.coordinate(horizontal) as i64;
        let along: i32 = point.coordinate(!horizontal);
        let mut i: usize = 0;
        while i < self.displays.len()
            invariant
                i <= self@.len(),
                horizontal == edge.horizontal(),
                across == point.on_axis(horizontal),
                along == point.on_axis(!horizontal),
                forall|k: int|
                    0 <= k < i ==> !near_exposed_edge(
                        self@,
                        #[trigger] self@[k],
                        edge,
                        point,
                        tolerance as int,
                    ),
            decreases self@.len() - i,
        {
            let display = self.displays[i];
            let brink: i64 = display.edge_brink(edge);
            let gap: i64 = if across < brink {
                brink - across
            } else {
                across - brink
            };
            if along >= display.axis_first(!horizontal) && along < display.axis_limit(!horizontal)
                && gap <= tolerance as i64 && self.edge_is_exposed(display, edge, point) {
                assert(near_exposed_edge(self@, self@[i as int], edge, point, tolerance as int));
                return true;
            }
            i += 1;
        }
        false
    }

    /// Whether a movement from a point beside an outer edge points out of the desktop there.
    pub fn movement_crosses_edge(&self, edge: ScreenEdge, point: Point, dx: i32, dy: i32) -> (r: bool)
        ensures
            r == (near_outer_edge(self@, edge, point, 2) && outward(edge, dx as int, dy as int)),
    {
        self.is_outer_edge_point(edge, point, 2) && is_outward(edge, dx, dy)
    }
}

fn is_outward(edge: ScreenEdge, dx: i32, dy: i32) -> (r: bool)
    ensures
        r == outward(edge, dx as int, dy as int),
{
    match edge {
        ScreenEdge::Left => dx < 0,
        ScreenEdge::Right => dx > 0,
        ScreenEdge::Top => dy < 0,
        ScreenEdge::Bottom => dy > 0,
    }
}

/// A display starts at its coordinates and ends where its size takes it, held inside the 32-bit
/// range. Its edges lie at those four places, each with the last pixel on one side and what is
/// beyond on the other.
pub proof fn edges_lie_where_the_display_ends(display: DisplayRect, point: Point)
    ensures
        ({
            let right = numeric::saturate(display.x + display.width);
            let bottom = numeric::saturate(display.y + display.height);
            &&& display.covers(point.x as int, point.y as int) <==> display.x <= point.x < right
                && display.y <= point.y < bottom
            &&& display.boundary(ScreenEdge::Left) == display.x
            &&& display.brink(ScreenEdge::Left) == display.x
            &&& display.beyond(ScreenEdge::Left) == display.x - 1
            &&& display.boundary(ScreenEdge::Right) == right
            &&& display.brink(ScreenEdge::Right) == right - 1
            &&& display.beyond(ScreenEdge::Right) == right
            &&& display.boundary(ScreenEdge::Top) == display.y
            &&& display.brink(ScreenEdge::Top) == display.y
            &&& display.beyond(ScreenEdge::Top) == display.y - 1
            &&& display.boundary(ScreenEdge::Bottom) == bottom
            &&& display.brink(ScreenEdge::Bottom) == bottom - 1
            &&& display.beyond(ScreenEdge::Bottom) == bottom
        }),
{
}

/// The edge of a display is open at a point exactly when no display has the pixel just beyond
/// it: to the left or right of the display in the row of the point, above or below it in the
/// column of the point.
pub proof fn open_edges_have_nothing_beyond(
    displays: Seq<DisplayRect>,
    display: DisplayRect,
    point: Point,
)
    ensures
        ({
            let right = numeric::saturate(display.x + display.width);
            let bottom = numeric::saturate(display.y + display.height);
            let open = |edge: ScreenEdge|
                exposed(displays, display, edge, point.on_axis(!edge.horizontal()));
            &&& open(ScreenEdge::Left) <==> !on_desktop(displays, display.x - 1, point.y as int)
            &&& open(ScreenEdge::Right) <==> !on_desktop(displays, right, point.y as int)
            &&& open(ScreenEdge::Top) <==> !on_desktop(displays, point.x as int, display.y - 1)
            &&& open(ScreenEdge::Bottom) <==> !on_desktop(displays, point.x as int, bottom)
        }),
{
}

/// A point is near an outer edge when it lies beside an open edge of some display, at most as
/// far from the last pixel there as is asked for.
pub proof fn near_points_lie_beside_an_open_edge(
    displays: Seq<DisplayRect>,
    edge: ScreenEdge,
    point: Point,
    tolerance: int,
)
    ensures
        near_outer_edge(displays, edge, point, tolerance) <==> exists|i: int|
            #![trigger displays[i]]
            0 <= i < displays.len() && {
                let display = displays[i];
                let right = numeric::saturate(display.x + display.width);
                let bottom = numeric::saturate(display.y + display.height);
                let inside = if edge is Left || edge is Right {
                    display.y <= point.y < bottom
                } else {
                    display.x <= point.x < right
                };
                let away = match edge {
                    ScreenEdge::Left => point.x - display.x,
                    ScreenEdge::Right => point.x - (right - 1),
                    ScreenEdge::Top => point.y - display.y,
                    ScreenEdge::Bottom => point.y - (bottom - 1),
                };
                &&& inside
                &&& -tolerance <= away <= tolerance
                &&& exposed(displays, display, edge, point.on_axis(!edge.horizontal()))
            },
{
    if near_outer_edge(displays, edge, point, tolerance) {
        let i = choose|i: int|
            0 <= i < displays.len() && near_exposed_edge(
                displays,
                #[trigger] displays[i],
                edge,
                point,
                tolerance,
            );
        assert(near_exposed_edge(displays, displays[i], edge, point, tolerance));
    }
    if exists|i: int|
        #![trigger displays[i]]
        0 <= i < displays.len() && {
            let display = displays[i];
            let right = numeric::saturate(display.x + display.width);
            let bottom = numeric::saturate(display.y + display.height);
            let inside = if edge is Left || edge is Right {
                display.y <= point.y < bottom
            } else {
                display.x <= point.x < right
            };
            let away = match edge {
                ScreenEdge::Left => point.x - display.x,
                ScreenEdge::Right => point.x - (right - 1),
                ScreenEdge::Top => point.y - display.y,
                ScreenEdge::Bottom => point.y - (bottom - 1),
            };
            &&& inside
            &&& -tolerance <= away <= tolerance
            &&& exposed(displays, display, edge, point.on_axis(!edge.horizontal()))
        } {
        let i = choose|i: int|
            #![trigger displays[i]]
            0 <= i < displays.len() && {
                let display = displays[i];
                let right = numeric::saturate(display.x + display.width);
                let bottom = numeric::saturate(display.y + display.height);
                let inside = if edge is Left || edge is Right {
                    display.y <= point.y < bottom
                } else {
                    display.x <= point.x < right
                };
                let away = match edge {
                    ScreenEdge::Left => point.x - display.x,
                    ScreenEdge::Right => point.x - (right - 1),
                    ScreenEdge::Top => point.y - display.y,
                    ScreenEdge::Bottom => point.y - (bottom - 1),
                };
                &&& inside
                &&& -tolerance <= away <= tolerance
                &&& exposed(displays, display, edge, point.on_axis(!edge.horizontal()))
            };
        assert(near_exposed_edge(displays, displays[i], edge, point, tolerance));
    }
}

/// A movement points out of an edge exactly when the movement the other way round points out of
/// the opposite edge, and only the axis that crosses the edge counts.
pub proof fn outward_depends_on_the_crossing_axis(edge: ScreenEdge, dx: int, dy: int, other: int)
    ensures
        outward(edge, dx, dy) <==> outward(edge.opposite_edge(), -dx, -dy),
        outward(edge, dx, dy) ==> !outward(edge.opposite_edge(), dx, dy),
        edge is Left || edge is Right ==> outward(edge, dx, dy) == outward(edge, dx, other),
        edge is Top || edge is Bottom ==> outward(edge, dx, dy) == outward(edge, other, dy),
        outward(ScreenEdge::Right, dx, dy) <==> dx > 0,
        outward(ScreenEdge::Bottom, dx, dy) <==> dy > 0,
{
}

/// Displays make a desktop exactly if there are any and each of them has a pixel.
pub proof fn displays_need_pixels(displays: Seq<DisplayRect>)
    ensures
        valid_displays(displays) <==> displays.len() > 0 && forall|i: int|
            0 <= i < displays.len() ==> (#[trigger] displays[i]).width >= 1 && displays[i].height
                >= 1,
{
    if valid_displays(displays) {
        assert forall|i: int| 0 <= i < displays.len() implies (#[trigger] displays[i]).width >= 1
            && displays[i].height >= 1 by {
            assert(!has_no_area(displays[i]));
        }
    }
}

} // verus!
