//! Pointer movement on the desktop: reaching an outer edge, crossing it, and staying inside.

use crate::edge;
use crate::edge::EdgeOffset;
use crate::geometry;
use crate::geometry::{DesktopLayout, DisplayRect, Point, ScreenEdge};
use crate::numeric;
use vstd::prelude::*;

verus! {

/// Whether a movement from a point of the display ends beyond that display's edge.
pub open spec fn leaves(display: DisplayRect, edge: ScreenEdge, point: Point, dx: int, dy: int) -> bool {
    let moved = point.on_axis(edge.horizontal()) + if edge.horizontal() {
        dx
    } else {
        dy
    };
    if edge.low_side() {
        moved < display.first(edge.horizontal())
    } else {
        moved >= display.limit(edge.horizontal())
    }
}

/// Whether a movement from a point of the display leaves the desktop through the display's edge.
pub open spec fn crosses_display_edge(
    displays: Seq<DisplayRect>,
    display: DisplayRect,
    edge: ScreenEdge,
    point: Point,
    dx: int,
    dy: int,
) -> bool {
    &&& display.covers(point.x as int, point.y as int)
    &&& leaves(display, edge, point, dx, dy)
    &&& geometry::exposed(displays, display, edge, point.on_axis(!edge.horizontal()))
}

/// Whether a movement leaves the desktop through the edge.
pub open spec fn crosses_outer_edge(
    displays: Seq<DisplayRect>,
    edge: ScreenEdge,
    point: Point,
    dx: int,
    dy: int,
) -> bool {
    exists|i: int|
        0 <= i < displays.len() && crosses_display_edge(
            displays,
            #[trigger] displays[i],
            edge,
            point,
            dx,
            dy,
        )
}

/// The first display that covers the point, or the first display.
pub open spec fn home_display(displays: Seq<DisplayRect>, point: Point) -> DisplayRect
    decreases displays.len(),
{
    if displays.len() <= 1 || displays[0].covers(point.x as int, point.y as int) {
        displays[0]
    } else {
        let rest = displays.drop_first();
        if geometry::on_desktop(rest, point.x as int, point.y as int) {
            home_display(rest, point)
        } else {
            displays[0]
        }
    }
}

/// The coordinate of the display that is nearest to `v`.
pub open spec fn held_inside(display: DisplayRect, horizontal: bool, v: int) -> int {
    edge::larger(
        edge::smaller(v, display.limit(horizontal) - 1),
        display.first(horizontal),
    )
}

/// Where a movement ends: at its target if a display is there, and otherwise at the nearest
/// point of the display that it started on.
pub open spec fn moved_within(displays: Seq<DisplayRect>, point: Point, dx: int, dy: int) -> (int, int) {
    let x = numeric::saturate(point.x + dx);
    let y = numeric::saturate(point.y + dy);
    if geometry::on_desktop(displays, x, y) {
        (x, y)
    } else {
        let home = home_display(displays, point);
        (held_inside(home, true, x), held_inside(home, false, y))
    }
}

/// The coordinate of the display that is nearest to `v`.
pub(crate) fn hold_inside(display: DisplayRect, horizontal: bool, v: i32) -> (r: i32)
    ensures
        r == held_inside(display, horizontal, v as int),
{
    let first: i32 = display.axis_first(horizontal);
    let last: i64 = display.axis_limit(horizontal) as i64 - 1;
    let low: i64 = if (v as i64) < last {
        v as i64
    } else {
        last
    };
    if low < first as i64 {
        first
    } else {
        low as i32
    }
}

impl DesktopLayout {
    /// Whether a point lies in the outermost `size` pixels before an outer edge.
    pub fn is_jump_zone_point(&self, edge: ScreenEdge, point: Point, size: i32) -> (r: bool)
        ensures
            r == geometry::near_outer_edge(self@, edge, point, numeric::saturate(size - 1)),
    {
        self.is_outer_edge_point(edge, point, numeric::saturating_sum(size, -1))
    }

    /// The position on the edge through which a movement leaves the desktop, if it does.
    pub fn crossed_outer_edge_position(&self, edge: ScreenEdge, point: Point, dx: i32, dy: i32) -> (r: Option<EdgeOffset>)
        requires
            edge::edge_extent(self@, edge) <= i32::MAX,
        ensures
            r == if crosses_outer_edge(self@, edge, point, dx as int, dy as int) {
                Some(edge::offset_on_edge(self@, edge, point))
            } else {
                None
            },
    {
        let horizontal = edge.is_horizontal();
        let step: i32 = if horizontal {
            dx
        } else {
            dy
        };
        let moved: i64 = point.coordinate(horizontal) as i64 + step as i64;
        let mut i: usize = 0;
        while i < self.displays.len()
            invariant
                i <= self@.len(),
                horizontal == edge.horizontal(),
                moved == point.on_axis(horizontal) + if horizontal {
                    dx
                } else {
                    dy
                },
                edge::edge_extent(self@, edge) <= i32::MAX,
                forall|k: int|
                    0 <= k < i ==> !crosses_display_edge(
                        self@,
                        #[trigger] self@[k],
                        edge,
                        point,
                        dx as int,
                        dy as int,
                    ),
            decreases self@.len() - i,
        {
            let display = self.displays[i];
            let beyond = if edge.is_low_side() {
                moved < display.axis_first(horizontal) as i64
            } else {
                moved >= display.axis_limit(horizontal) as i64
            };
            if display.contains(point) && beyond && self.edge_is_exposed(display, edge, point) {
                assert(crosses_display_edge(self@, self@[i as int], edge, point, dx as int, dy as int));
                return Some(self.normalized_edge_position(edge, point));
            }
            i += 1;
        }
        None
    }

    /// The first display that covers the point, or the first display.
    fn home_of(&self, point: Point) -> (r: DisplayRect)
        requires
            self@.len() > 0,
        ensures
            r == home_display(self@, point),
    {
        let mut i: usize = 0;
        assert(self@.skip(0) =~= self@);
        while i < self.displays.len()
            invariant
                i <= self@.len(),
                self@.len() > 0,
                forall|k: int| 0 <= k < i ==> !(#[trigger] self@[k]).covers(point.x as int, point.y as int),
            decreases self@.len() - i,
        {
            let display = self.displays[i];
            if display.contains(point) {
                proof {
                    lemma_home_is_first_cover(self@, point, i as int);
                }
                return display;
            }
            i += 1;
        }
        proof {
            assert(!geometry::on_desktop(self@, point.x as int, point.y as int));
            if self@.len() > 1 {
                let rest = self@.drop_first();
                assert forall|k: int| 0 <= k < rest.len() implies !(#[trigger] rest[k]).covers(point.x as int, point.y as int) by {
                    assert(rest[k] == self@[k + 1]);
                }
            }
        }
        self.displays[0]
    }

    /// Moves a point and keeps it on the desktop.
    pub fn move_within_layout(&self, point: Point, dx: i32, dy: i32) -> (r: Point)
        requires
            self@.len() > 0,
        ensures
            (r.x as int, r.y as int) == moved_within(self@, point, dx as int, dy as int),
    {
        let target = Point {
            x: numeric::saturating_sum(point.x, dx),
            y: numeric::saturating_sum(point.y, dy),
        };
        if self.covers_pixel(target.x as i64, target.y as i64) {
            target
        } else {
            let home = self.home_of(point);
            Point { x: hold_inside(home, true, target.x), y: hold_inside(home, false, target.y) }
        }
    }
}

proof fn lemma_home_is_first_cover(displays: Seq<DisplayRect>, point: Point, i: int)
    requires
        0 <= i < displays.len(),
        displays[i].covers(point.x as int, point.y as int),
        forall|k: int| 0 <= k < i ==> !(#[trigger] displays[k]).covers(point.x as int, point.y as int),
    ensures
        home_display(displays, point) == displays[i],
    decreases displays.len(),
{
    if i > 0 {
        let rest = displays.drop_first();
        assert(rest[i - 1] == displays[i]);
        assert forall|k: int| 0 <= k < i - 1 implies !(#[trigger] rest[k]).covers(point.x as int, point.y as int) by {
            assert(rest[k] == displays[k + 1]);
        }
        lemma_home_is_first_cover(rest, point, i - 1);
        assert(!displays[0].covers(point.x as int, point.y as int));
    }
}

proof fn lemma_home_is_a_display(displays: Seq<DisplayRect>, point: Point)
    requires
        displays.len() > 0,
    ensures
        exists|i: int| 0 <= i < displays.len() && #[trigger] displays[i] == home_display(displays, point),
    decreases displays.len(),
{
    if displays.len() <= 1 || displays[0].covers(point.x as int, point.y as int) {
        assert(displays[0] == home_display(displays, point));
    } else {
        let rest = displays.drop_first();
        if geometry::on_desktop(rest, point.x as int, point.y as int) {
            lemma_home_is_a_display(rest, point);
            let i = choose|i: int| 0 <= i < rest.len() && #[trigger] rest[i] == home_display(rest, point);
            assert(displays[i + 1] == home_display(displays, point));
        } else {
            assert(displays[0] == home_display(displays, point));
        }
    }
}

/// Whether every display covers at least one pixel. A display that starts at the last
/// coordinate of the 32-bit range covers none.
pub open spec fn all_visible(displays: Seq<DisplayRect>) -> bool {
    forall|i: int|
        0 <= i < displays.len() ==> (#[trigger] displays[i]).first(true) < displays[i].limit(true)
            && displays[i].first(false) < displays[i].limit(false)
}

/// A pointer that is moved inside the desktop ends on a display, wherever it started.
pub proof fn moved_pointer_stays_on_desktop(displays: Seq<DisplayRect>, point: Point, dx: int, dy: int)
    requires
        displays.len() > 0,
        all_visible(displays),
    ensures
        ({
            let (x, y) = moved_within(displays, point, dx, dy);
            geometry::on_desktop(displays, x, y)
        }),
{
    let (x, y) = moved_within(displays, point, dx, dy);
    lemma_home_is_a_display(displays, point);
    let i = choose|i: int| 0 <= i < displays.len() && #[trigger] displays[i] == home_display(displays, point);
    if !geometry::on_desktop(displays, numeric::saturate(point.x + dx), numeric::saturate(point.y + dy)) {
        assert(displays[i].covers(x, y));
    }
}

/// A movement that crosses an outer edge points outward there, and starts inside the desktop.
pub proof fn crossing_points_outward(displays: Seq<DisplayRect>, edge: ScreenEdge, point: Point, dx: int, dy: int)
    requires
        crosses_outer_edge(displays, edge, point, dx, dy),
    ensures
        geometry::outward(edge, dx, dy),
        geometry::on_desktop(displays, point.x as int, point.y as int),
{
    let i = choose|i: int|
        0 <= i < displays.len() && crosses_display_edge(displays, #[trigger] displays[i], edge, point, dx, dy);
    assert(displays[i].covers(point.x as int, point.y as int));
}

/// Where a movement ends can be written as a point.
pub proof fn moved_point_fits(displays: Seq<DisplayRect>, point: Point, dx: int, dy: int)
    ensures
        ({
            let (x, y) = moved_within(displays, point, dx, dy);
            i32::MIN <= x <= i32::MAX && i32::MIN <= y <= i32::MAX
        }),
{
}

/// A movement leaves the desktop through an edge exactly when it starts on a display, ends
/// beyond the edge of that display, and has nothing beyond the edge where it starts.
pub proof fn crossing_means_leaving_a_display(
    displays: Seq<DisplayRect>,
    edge: ScreenEdge,
    point: Point,
    dx: int,
    dy: int,
)
    ensures
        crosses_outer_edge(displays, edge, point, dx, dy) <==> exists|i: int|
            #![trigger displays[i]]
            0 <= i < displays.len() && displays[i].covers(point.x as int, point.y as int)
                && geometry::exposed(
                displays,
                displays[i],
                edge,
                point.on_axis(!edge.horizontal()),
            ) && match edge {
                ScreenEdge::Left => point.x + dx < displays[i].x,
                ScreenEdge::Right => point.x + dx >= numeric::saturate(
                    displays[i].x + displays[i].width,
                ),
                ScreenEdge::Top => point.y + dy < displays[i].y,
                ScreenEdge::Bottom => point.y + dy >= numeric::saturate(
                    displays[i].y + displays[i].height,
                ),
            },
{
    if crosses_outer_edge(displays, edge, point, dx, dy) {
        let i = choose|i: int|
            0 <= i < displays.len() && crosses_display_edge(
                displays,
                #[trigger] displays[i],
                edge,
                point,
                dx,
                dy,
            );
        assert(crosses_display_edge(displays, displays[i], edge, point, dx, dy));
    }
    assert forall|i: int|
        #![trigger displays[i]]
        0 <= i < displays.len() && displays[i].covers(point.x as int, point.y as int)
            && geometry::exposed(displays, displays[i], edge, point.on_axis(!edge.horizontal()))
            && (match edge {
            ScreenEdge::Left => point.x + dx < displays[i].x,
            ScreenEdge::Right => point.x + dx >= numeric::saturate(
                displays[i].x + displays[i].width,
            ),
            ScreenEdge::Top => point.y + dy < displays[i].y,
            ScreenEdge::Bottom => point.y + dy >= numeric::saturate(
                displays[i].y + displays[i].height,
            ),
        }) implies crosses_display_edge(displays, displays[i], edge, point, dx, dy) by {
    }
}

/// A movement whose target is on the desktop ends there.
pub proof fn movement_reaches_its_target(
    displays: Seq<DisplayRect>,
    point: Point,
    dx: int,
    dy: int,
)
    requires
        geometry::on_desktop(displays, point.x + dx, point.y + dy),
        i32::MIN <= point.x + dx <= i32::MAX,
        i32::MIN <= point.y + dy <= i32::MAX,
    ensures
        moved_within(displays, point, dx, dy) == (point.x + dx, point.y + dy),
{
}

/// A movement whose target is off the desktop ends on the display that it started on, nearer to
/// the target than any other pixel of that display, on either axis.
pub proof fn stopped_movement_ends_nearest_to_its_target(
    displays: Seq<DisplayRect>,
    point: Point,
    dx: int,
    dy: int,
    k: int,
    x: int,
    y: int,
)
    requires
        0 <= k < displays.len(),
        displays[k].covers(point.x as int, point.y as int),
        forall|i: int| 0 <= i < k ==> !(#[trigger] displays[i]).covers(point.x as int, point.y as int),
        !geometry::on_desktop(
            displays,
            numeric::saturate(point.x + dx),
            numeric::saturate(point.y + dy),
        ),
        displays[k].covers(x, y),
    ensures
        ({
            let (ex, ey) = moved_within(displays, point, dx, dy);
            &&& displays[k].covers(ex, ey)
            &&& geometry::distance(ex, point.x + dx) <= geometry::distance(x, point.x + dx)
            &&& geometry::distance(ey, point.y + dy) <= geometry::distance(y, point.y + dy)
        }),
{
    lemma_home_is_first_cover(displays, point, k);
}

} // verus!
