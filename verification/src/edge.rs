//! The open stretches along an outer edge of the desktop, and positions on them.
//!
//! A stretch is a run of coordinates along the edge on which no other display continues the
//! desktop. A position on the edge is the number of pixels that lie before it, all stretches laid
//! end to end.

use crate::geometry;
use crate::geometry::{DesktopLayout, DisplayRect, Point, ScreenEdge};
use vstd::prelude::*;

verus! {

/// A run of coordinates along an edge, and where that edge lies on the crossing axis.
#[derive(Clone, Copy, Debug, PartialEq, Eq, Structural)]
pub struct EdgeSegment {
    pub start: i32,
    pub end: i32,
    pub boundary: i32,
}

/// The order by start, then end, then boundary.
pub open spec fn precedes(a: EdgeSegment, b: EdgeSegment) -> bool {
    a.start < b.start || (a.start == b.start && (a.end < b.end || (a.end == b.end && a.boundary
        <= b.boundary)))
}

/// A sorted list with one more segment put at its place.
pub open spec fn insert_in_order(list: Seq<EdgeSegment>, segment: EdgeSegment) -> Seq<EdgeSegment>
    decreases list.len(),
{
    if list.len() == 0 || precedes(list.last(), segment) {
        list.push(segment)
    } else {
        insert_in_order(list.drop_last(), segment).push(list.last())
    }
}

/// The segments in order.
pub open spec fn in_order(list: Seq<EdgeSegment>) -> Seq<EdgeSegment>
    decreases list.len(),
{
    if list.len() == 0 {
        list
    } else {
        insert_in_order(in_order(list.drop_last()), list.last())
    }
}

/// Whether `candidate` continues the desktop where `display` ends.
pub open spec fn continues(candidate: DisplayRect, display: DisplayRect, edge: ScreenEdge) -> bool {
    &&& candidate.spans(edge.horizontal(), display.beyond(edge))
    &&& candidate.first(edge.horizontal()) != display.first(edge.horizontal())
}

pub open spec fn larger(a: int, b: int) -> int {
    if a < b {
        b
    } else {
        a
    }
}

pub open spec fn smaller(a: int, b: int) -> int {
    if a < b {
        a
    } else {
        b
    }
}

/// Where two displays share coordinates along an edge: the first, and the one behind the last.
pub open spec fn shared_from(a: DisplayRect, b: DisplayRect, edge: ScreenEdge) -> int {
    larger(a.first(!edge.horizontal()), b.first(!edge.horizontal()))
}

pub open spec fn shared_to(a: DisplayRect, b: DisplayRect, edge: ScreenEdge) -> int {
    smaller(a.limit(!edge.horizontal()), b.limit(!edge.horizontal()))
}

/// The runs on which the given candidates continue the desktop beyond a display.
pub open spec fn blocked_runs(
    candidates: Seq<DisplayRect>,
    display: DisplayRect,
    edge: ScreenEdge,
) -> Seq<EdgeSegment>
    decreases candidates.len(),
{
    if candidates.len() == 0 {
        Seq::empty()
    } else {
        let before = blocked_runs(candidates.drop_last(), display, edge);
        let candidate = candidates.last();
        let from = shared_from(display, candidate, edge);
        let to = shared_to(display, candidate, edge);
        if continues(candidate, display, edge) && from < to {
            before.push(EdgeSegment { start: from as i32, end: to as i32, boundary: 0 })
        } else {
            before
        }
    }
}

/// What is left of the run from `from` to `to` without the blocked runs, which come in order.
pub open spec fn gaps(from: int, to: int, boundary: int, blocked: Seq<EdgeSegment>) -> Seq<
    EdgeSegment,
>
    decreases blocked.len(),
{
    if blocked.len() == 0 {
        open_run(from, to, boundary)
    } else {
        open_run(from, blocked[0].start as int, boundary) + gaps(
            larger(from, blocked[0].end as int),
            to,
            boundary,
            blocked.drop_first(),
        )
    }
}

/// The run from `from` to `to`, or nothing when it is empty.
pub open spec fn open_run(from: int, to: int, boundary: int) -> Seq<EdgeSegment> {
    if from < to {
        seq![EdgeSegment { start: from as i32, end: to as i32, boundary: boundary as i32 }]
    } else {
        Seq::empty()
    }
}

/// The open stretches of one display.
pub open spec fn display_stretches(
    displays: Seq<DisplayRect>,
    display: DisplayRect,
    edge: ScreenEdge,
) -> Seq<EdgeSegment> {
    gaps(
        display.first(!edge.horizontal()),
        display.limit(!edge.horizontal()),
        display.boundary(edge),
        in_order(blocked_runs(displays, display, edge)),
    )
}

/// The open stretches of the first `count` displays, one display after the other.
pub open spec fn stretches_of(displays: Seq<DisplayRect>, count: nat, edge: ScreenEdge) -> Seq<
    EdgeSegment,
>
    decreases count,
{
    if count == 0 {
        Seq::empty()
    } else {
        stretches_of(displays, (count - 1) as nat, edge) + display_stretches(
            displays,
            displays[count - 1],
            edge,
        )
    }
}

/// The segments with each one joined to its predecessor where it continues it.
pub open spec fn joined(list: Seq<EdgeSegment>) -> Seq<EdgeSegment>
    decreases list.len(),
{
    if list.len() == 0 {
        list
    } else {
        let before = joined(list.drop_last());
        let segment = list.last();
        if before.len() > 0 && before.last().end == segment.start && before.last().boundary
            == segment.boundary {
            before.drop_last().push(
                EdgeSegment {
                    start: before.last().start,
                    end: segment.end,
                    boundary: segment.boundary,
                },
            )
        } else {
            before.push(segment)
        }
    }
}

/// The open stretches along an edge of the desktop.
pub open spec fn outer_segments(displays: Seq<DisplayRect>, edge: ScreenEdge) -> Seq<EdgeSegment> {
    joined(in_order(stretches_of(displays, displays.len(), edge)))
}

proof fn lemma_insert_splits(list: Seq<EdgeSegment>, segment: EdgeSegment, k: int)
    requires
        0 <= k <= list.len(),
        k == 0 || precedes(list[k - 1], segment),
        forall|i: int| k <= i < list.len() ==> !precedes(#[trigger] list[i], segment),
    ensures
        insert_in_order(list, segment) == list.insert(k, segment),
    decreases list.len(),
{
    if list.len() == 0 || precedes(list.last(), segment) {
        assert(k == list.len());
        assert(list.insert(k, segment) =~= list.push(segment));
    } else {
        assert(k < list.len());
        lemma_insert_splits(list.drop_last(), segment, k);
        assert(list.drop_last().insert(k, segment).push(list.last()) =~= list.insert(k, segment));
    }
}

fn is_before(a: EdgeSegment, b: EdgeSegment) -> (r: bool)
    ensures
        r == precedes(a, b),
{
    a.start < b.start || (a.start == b.start && (a.end < b.end || (a.end == b.end && a.boundary
        <= b.boundary)))
}

/// Puts the segments in order.
fn sort_segments(list: &Vec<EdgeSegment>) -> (r: Vec<EdgeSegment>)
    ensures
        r@ == in_order(list@),
{
    let mut sorted: Vec<EdgeSegment> = Vec::new();
    let mut i: usize = 0;
    assert(list@.take(0) =~= Seq::<EdgeSegment>::empty());
    while i < list.len()
        invariant
            i <= list@.len(),
            sorted@ == in_order(list@.take(i as int)),
        decreases list@.len() - i,
    {
        let segment = list[i];
        let mut k: usize = sorted.len();
        while k > 0 && !is_before(sorted[k - 1], segment)
            invariant
                k <= sorted@.len(),
                forall|j: int| k <= j < sorted@.len() ==> !precedes(#[trigger] sorted@[j], segment),
            decreases k,
        {
            k -= 1;
        }
        proof {
            lemma_insert_splits(sorted@, segment, k as int);
            assert(list@.take(i + 1).drop_last() =~= list@.take(i as int));
        }
        sorted.insert(k, segment);
        i += 1;
    }
    assert(list@.take(list@.len() as int) =~= list@);
    sorted
}

/// Pushes the run from `from` to `to`, unless it is empty.
fn push_run(list: &mut Vec<EdgeSegment>, from: i32, to: i32, boundary: i32)
    ensures
        final(list)@ == old(list)@ + open_run(from as int, to as int, boundary as int),
{
    if from < to {
        list.push(EdgeSegment { start: from, end: to, boundary });
    }
}

fn is_continuation(candidate: DisplayRect, display: DisplayRect, edge: ScreenEdge) -> (r: bool)
    ensures
        r == continues(candidate, display, edge),
{
    let horizontal = edge.is_horizontal();
    let beyond: i64 = display.edge_beyond(edge);
    (candidate.axis_first(horizontal) as i64) <= beyond && beyond < candidate.axis_limit(
        horizontal,
    ) as i64 && candidate.axis_first(horizontal) != display.axis_first(horizontal)
}

impl DesktopLayout {
    fn blocked_segments(&self, display: DisplayRect, edge: ScreenEdge) -> (r: Vec<EdgeSegment>)
        ensures
            r@ == blocked_runs(self@, display, edge),
    {
        let along = !edge.is_horizontal();
        let mut blocked: Vec<EdgeSegment> = Vec::new();
        let mut i: usize = 0;
        assert(self@.take(0) =~= Seq::<DisplayRect>::empty());
        while i < self.displays.len()
            invariant
                i <= self@.len(),
                along == !edge.horizontal(),
                blocked@ == blocked_runs(self@.take(i as int), display, edge),
            decreases self@.len() - i,
        {
            let candidate = self.displays[i];
            proof {
                assert(self@.take(i + 1).drop_last() =~= self@.take(i as int));
                assert(self@.take(i + 1).last() == candidate);
            }
            if is_continuation(candidate, display, edge) {
                let a: i32 = display.axis_first(along);
                let b: i32 = candidate.axis_first(along);
                let c: i32 = display.axis_limit(along);
                let d: i32 = candidate.axis_limit(along);
                let from: i32 = if a < b { b } else { a };
                let to: i32 = if c < d { c } else { d };
                push_run(&mut blocked, from, to, 0);
                assert(blocked@ =~= blocked_runs(self@.take(i + 1), display, edge));
            }
            i += 1;
        }
        assert(self@.take(self@.len() as int) =~= self@);
        blocked
    }

    /// The open stretches along an edge, in order, with runs that continue one another joined.
    pub fn outer_edge_segments(&self, edge: ScreenEdge) -> (r: Vec<EdgeSegment>)
        ensures
            r@ == outer_segments(self@, edge),
    {
        let along = !edge.is_horizontal();
        let mut segments: Vec<EdgeSegment> = Vec::new();
        let mut i: usize = 0;
        while i < self.displays.len()
            invariant
                i <= self@.len(),
                along == !edge.horizontal(),
                segments@ == stretches_of(self@, i as nat, edge),
            decreases self@.len() - i,
        {
            let display = self.displays[i];
            let boundary: i32 = display.edge_boundary(edge);
            let to: i32 = display.axis_limit(along);
            let blocked = sort_segments(&self.blocked_segments(display, edge));
            let mut cursor: i32 = display.axis_first(along);
            let mut k: usize = 0;
            let ghost before = segments@;
            let ghost found = display_stretches(self@, display, edge);
            assert(blocked@.skip(0) =~= blocked@);
            while k < blocked.len()
                invariant
                    k <= blocked@.len(),
                    before + found == segments@ + gaps(
                        cursor as int,
                        to as int,
                        boundary as int,
                        blocked@.skip(k as int),
                    ),
                decreases blocked@.len() - k,
            {
                let run = blocked[k];
                let ghost next = larger(cursor as int, run.end as int);
                proof {
                    assert(blocked@.skip(k as int)[0] == run);
                    assert(blocked@.skip(k as int).drop_first() =~= blocked@.skip(k + 1));
                }
                push_run(&mut segments, cursor, run.start, boundary);
                if cursor < run.end {
                    cursor = run.end;
                }
                proof {
                    let tail = gaps(next, to as int, boundary as int, blocked@.skip(k + 1));
                    assert(segments@ + tail =~= before + found);
                }
                k += 1;
            }
            proof {
                assert(blocked@.skip(k as int).len() == 0);
            }
            push_run(&mut segments, cursor, to, boundary);
            assert(segments@ =~= before + found);
            i += 1;
        }
        let sorted = sort_segments(&segments);
        join_segments(&sorted)
    }
}

/// Joins each segment to its predecessor where it continues it.
fn join_segments(list: &Vec<EdgeSegment>) -> (r: Vec<EdgeSegment>)
    ensures
        r@ == joined(list@),
{
    let mut merged: Vec<EdgeSegment> = Vec::new();
    let mut i: usize = 0;
    assert(list@.take(0) =~= Seq::<EdgeSegment>::empty());
    while i < list.len()
        invariant
            i <= list@.len(),
            merged@ == joined(list@.take(i as int)),
        decreases list@.len() - i,
    {
        let segment = list[i];
        proof {
            assert(list@.take(i + 1).drop_last() =~= list@.take(i as int));
            assert(list@.take(i + 1).last() == segment);
        }
        let count: usize = merged.len();
        if count > 0 && merged[count - 1].end == segment.start && merged[count - 1].boundary
            == segment.boundary {
            let last = merged[count - 1];
            merged.pop();
            merged.push(
                EdgeSegment { start: last.start, end: segment.end, boundary: segment.boundary },
            );
        } else {
            merged.push(segment);
        }
        i += 1;
    }
    assert(list@.take(list@.len() as int) =~= list@);
    merged
}

/// The number of coordinates in a segment.
pub open spec fn run_length(segment: EdgeSegment) -> int {
    segment.end - segment.start
}

/// The number of coordinates in all segments.
pub open spec fn total_length(list: Seq<EdgeSegment>) -> int
    decreases list.len(),
{
    if list.len() == 0 {
        0
    } else {
        run_length(list[0]) + total_length(list.drop_first())
    }
}

/// The length of an edge of the desktop. An edge without an open stretch counts as one pixel.
pub open spec fn edge_extent(displays: Seq<DisplayRect>, edge: ScreenEdge) -> int {
    larger(total_length(outer_segments(displays, edge)), 1)
}

/// How many coordinates of the segments lie before `coordinate`, up to the first segment that
/// starts behind it.
pub open spec fn length_before(list: Seq<EdgeSegment>, coordinate: int) -> int
    decreases list.len(),
{
    if list.len() == 0 || coordinate < list[0].start {
        0
    } else if coordinate < list[0].end {
        coordinate - list[0].start
    } else {
        run_length(list[0]) + length_before(list.drop_first(), coordinate)
    }
}

/// The segment that stands for an edge without an open stretch.
pub open spec fn no_segment() -> EdgeSegment {
    EdgeSegment { start: 0, end: 1, boundary: 0 }
}

/// The segment that holds the coordinate number `target`, or the last one when there are fewer.
pub open spec fn segment_at(list: Seq<EdgeSegment>, target: int) -> EdgeSegment
    decreases list.len(),
{
    if list.len() == 0 {
        no_segment()
    } else if target < run_length(list[0]) || list.len() == 1 {
        list[0]
    } else {
        segment_at(list.drop_first(), target - run_length(list[0]))
    }
}

/// What is left of `target` once the segments before the chosen one are taken off. When there
/// are fewer coordinates, all of them are taken off.
pub open spec fn remainder_at(list: Seq<EdgeSegment>, target: int) -> int
    decreases list.len(),
{
    if list.len() == 0 || target < run_length(list[0]) {
        target
    } else {
        remainder_at(list.drop_first(), target - run_length(list[0]))
    }
}

/// The coordinate along the edge for `target`, held inside the chosen segment.
pub open spec fn coordinate_at(list: Seq<EdgeSegment>, target: int) -> int {
    let segment = segment_at(list, target);
    segment.start + smaller(remainder_at(list, target), larger(run_length(segment) - 1, 0))
}

/// The coordinate that lies `inset` pixels inside an edge.
pub open spec fn inside_of(boundary: int, edge: ScreenEdge, inset: int) -> int {
    if edge.low_side() {
        boundary + inset
    } else {
        boundary - inset - 1
    }
}

/// The crossing coordinate of the point `inset` pixels inside the edge, for `target`.
pub open spec fn inside_coordinate(
    displays: Seq<DisplayRect>,
    edge: ScreenEdge,
    target: int,
    inset: int,
) -> int {
    inside_of(segment_at(outer_segments(displays, edge), target).boundary as int, edge, inset)
}

pub open spec fn fits_i32(v: int) -> bool {
    i32::MIN <= v <= i32::MAX
}

/// Whether every segment holds a coordinate.
pub open spec fn all_nonempty(list: Seq<EdgeSegment>) -> bool {
    forall|i: int| 0 <= i < list.len() ==> (#[trigger] list[i]).start < list[i].end
}

/// A position on an edge: `offset` pixels of `total` lie before it.
#[derive(Clone, Copy, Debug, PartialEq, Eq, Structural)]
pub struct EdgeOffset {
    pub offset: i32,
    pub total: i32,
}

/// The position on an edge beside a point.
pub open spec fn offset_on_edge(displays: Seq<DisplayRect>, edge: ScreenEdge, point: Point) -> EdgeOffset {
    EdgeOffset {
        offset: length_before(
            outer_segments(displays, edge),
            point.on_axis(!edge.horizontal()),
        ) as i32,
        total: edge_extent(displays, edge) as i32,
    }
}

proof fn lemma_total_of_suffix(list: Seq<EdgeSegment>, k: int)
    requires
        all_nonempty(list),
        0 <= k < list.len(),
    ensures
        total_length(list.skip(k)) == run_length(list[k]) + total_length(list.skip(k + 1)),
        run_length(list[k]) > 0,
{
    assert(list.skip(k).drop_first() =~= list.skip(k + 1));
}

proof fn lemma_total_nonnegative(list: Seq<EdgeSegment>)
    requires
        all_nonempty(list),
    ensures
        total_length(list) >= list.len(),
    decreases list.len(),
{
    if list.len() > 0 {
        assert forall|i: int| 0 <= i < list.drop_first().len() implies (#[trigger] list.drop_first()[i]).start
            < list.drop_first()[i].end by {
            assert(list.drop_first()[i] == list[i + 1]);
        }
        lemma_total_nonnegative(list.drop_first());
    }
}

proof fn lemma_length_before_bounds(list: Seq<EdgeSegment>, coordinate: int)
    requires
        all_nonempty(list),
    ensures
        0 <= length_before(list, coordinate) <= total_length(list),
    decreases list.len(),
{
    if list.len() > 0 {
        assert forall|i: int| 0 <= i < list.drop_first().len() implies (#[trigger] list.drop_first()[i]).start
            < list.drop_first()[i].end by {
            assert(list.drop_first()[i] == list[i + 1]);
        }
        lemma_length_before_bounds(list.drop_first(), coordinate);
        lemma_total_nonnegative(list.drop_first());
        assert(list[0].start < list[0].end);
    }
}

proof fn lemma_gaps_nonempty(from: int, to: int, boundary: int, blocked: Seq<EdgeSegment>)
    requires
        fits_i32(from),
        fits_i32(to),
    ensures
        all_nonempty(gaps(from, to, boundary, blocked)),
    decreases blocked.len(),
{
    if blocked.len() > 0 {
        lemma_gaps_nonempty(larger(from, blocked[0].end as int), to, boundary, blocked.drop_first());
    }
}

proof fn lemma_stretches_nonempty(displays: Seq<DisplayRect>, count: nat, edge: ScreenEdge)
    requires
        count <= displays.len(),
    ensures
        all_nonempty(stretches_of(displays, count, edge)),
    decreases count,
{
    if count > 0 {
        lemma_stretches_nonempty(displays, (count - 1) as nat, edge);
        let display = displays[count - 1];
        lemma_gaps_nonempty(
            display.first(!edge.horizontal()),
            display.limit(!edge.horizontal()),
            display.boundary(edge),
            in_order(blocked_runs(displays, display, edge)),
        );
    }
}

proof fn lemma_insert_nonempty(list: Seq<EdgeSegment>, segment: EdgeSegment)
    requires
        all_nonempty(list),
        segment.start < segment.end,
    ensures
        all_nonempty(insert_in_order(list, segment)),
    decreases list.len(),
{
    if list.len() > 0 && !precedes(list.last(), segment) {
        lemma_insert_nonempty(list.drop_last(), segment);
    }
}

proof fn lemma_in_order_nonempty(list: Seq<EdgeSegment>)
    requires
        all_nonempty(list),
    ensures
        all_nonempty(in_order(list)),
    decreases list.len(),
{
    if list.len() > 0 {
        lemma_in_order_nonempty(list.drop_last());
        lemma_insert_nonempty(in_order(list.drop_last()), list.last());
    }
}

proof fn lemma_joined_nonempty(list: Seq<EdgeSegment>)
    requires
        all_nonempty(list),
    ensures
        all_nonempty(joined(list)),
    decreases list.len(),
{
    if list.len() > 0 {
        lemma_joined_nonempty(list.drop_last());
        let before = joined(list.drop_last());
        let segment = list.last();
        assert(segment == list[list.len() - 1]);
        if before.len() > 0 {
            assert(before.last() == before[before.len() - 1]);
        }
    }
}

/// Every stretch of an edge holds at least one coordinate.
pub proof fn outer_segments_are_nonempty(displays: Seq<DisplayRect>, edge: ScreenEdge)
    ensures
        all_nonempty(outer_segments(displays, edge)),
        0 <= total_length(outer_segments(displays, edge)),
{
    lemma_stretches_nonempty(displays, displays.len(), edge);
    lemma_in_order_nonempty(stretches_of(displays, displays.len(), edge));
    lemma_joined_nonempty(in_order(stretches_of(displays, displays.len(), edge)));
    lemma_total_nonnegative(outer_segments(displays, edge));
}

/// The length of all segments, or nothing when it does not fit.
fn checked_length(list: &Vec<EdgeSegment>) -> (r: Option<i32>)
    requires
        all_nonempty(list@),
    ensures
        r == if total_length(list@) <= i32::MAX {
            Some(total_length(list@) as i32)
        } else {
            None
        },
{
    let mut total: i32 = 0;
    let mut k: usize = 0;
    assert(list@.skip(0) =~= list@);
    while k < list.len()
        invariant
            k <= list@.len(),
            all_nonempty(list@),
            total >= 0,
            total + total_length(list@.skip(k as int)) == total_length(list@),
        decreases list@.len() - k,
    {
        let run: i64 = list[k].end as i64 - list[k].start as i64;
        let sum: i64 = total as i64 + run;
        proof {
            lemma_total_of_suffix(list@, k as int);
            assert(all_nonempty(list@.skip(k + 1))) by {
                assert forall|i: int| 0 <= i < list@.skip(k + 1).len() implies (#[trigger] list@.skip(k + 1)[i]).start
                    < list@.skip(k + 1)[i].end by {
                    assert(list@.skip(k + 1)[i] == list@[i + k + 1]);
                }
            }
            lemma_total_nonnegative(list@.skip(k + 1));
        }
        if sum > 2147483647 {
            return None;
        }
        total = sum as i32;
        k += 1;
    }
    assert(list@.skip(k as int).len() == 0);
    Some(total)
}

impl DesktopLayout {
    /// The length of an edge in pixels, or nothing when it does not fit into 32 bits.
    pub fn edge_length(&self, edge: ScreenEdge) -> (r: Option<i32>)
        ensures
            r == if edge_extent(self@, edge) <= i32::MAX {
                Some(edge_extent(self@, edge) as i32)
            } else {
                None
            },
    {
        let segments = self.outer_edge_segments(edge);
        proof {
            outer_segments_are_nonempty(self@, edge);
        }
        match checked_length(&segments) {
            Some(total) => Some(if total < 1 { 1 } else { total }),
            None => None,
        }
    }

    /// The position on the edge beside a point.
    pub fn normalized_edge_position(&self, edge: ScreenEdge, point: Point) -> (r: EdgeOffset)
        requires
            edge_extent(self@, edge) <= i32::MAX,
        ensures
            r.offset == length_before(
                outer_segments(self@, edge),
                point.on_axis(!edge.horizontal()),
            ),
            r.total == edge_extent(self@, edge),
            r == offset_on_edge(self@, edge, point),
            0 <= r.offset <= r.total,
    {
        let segments = self.outer_edge_segments(edge);
        let ghost list = segments@;
        proof {
            outer_segments_are_nonempty(self@, edge);
        }
        let total: i32 = match checked_length(&segments) {
            Some(total) => if total < 1 { 1 } else { total },
            None => 1,
        };
        let coordinate: i32 = point.coordinate(!edge.is_horizontal());
        let mut offset: i32 = 0;
        let mut k: usize = 0;
        let mut open = true;
        proof {
            assert(list.skip(0) =~= list);
            lemma_length_before_bounds(list, coordinate as int);
        }
        while open && k < segments.len()
            invariant
                k <= list.len(),
                list == segments@,
                all_nonempty(list),
                0 <= length_before(list, coordinate as int) <= total_length(list) <= i32::MAX,
                offset >= 0,
                open ==> offset + length_before(list.skip(k as int), coordinate as int)
                    == length_before(list, coordinate as int),
                !open ==> offset == length_before(list, coordinate as int),
            decreases list.len() - k, if open { 1int } else { 0int },
        {
            let segment = segments[k];
            proof {
                assert(list.skip(k as int)[0] == segment);
                assert(list.skip(k as int).drop_first() =~= list.skip(k + 1));
                assert(all_nonempty(list.skip(k + 1))) by {
                    assert forall|i: int| 0 <= i < list.skip(k + 1).len() implies (#[trigger] list.skip(k + 1)[i]).start
                        < list.skip(k + 1)[i].end by {
                        assert(list.skip(k + 1)[i] == list[i + k + 1]);
                    }
                }
                lemma_length_before_bounds(list.skip(k + 1), coordinate as int);
            }
            if coordinate < segment.start {
                open = false;
            } else if coordinate < segment.end {
                offset = (offset as i64 + (coordinate as i64 - segment.start as i64)) as i32;
                open = false;
            } else {
                offset = (offset as i64 + (segment.end as i64 - segment.start as i64)) as i32;
                k += 1;
            }
        }
        EdgeOffset { offset, total }
    }

    /// The point `inset` pixels inside the edge, beside the coordinate number `target` on it.
    pub fn point_inside_edge(&self, edge: ScreenEdge, target: i32, inset: i32) -> (r: Point)
        requires
            target >= 0,
            fits_i32(inside_coordinate(self@, edge, target as int, inset as int)),
        ensures
            r.on_axis(edge.horizontal()) == inside_coordinate(
                self@,
                edge,
                target as int,
                inset as int,
            ),
            r.on_axis(!edge.horizontal()) == coordinate_at(
                outer_segments(self@, edge),
                target as int,
            ),
    {
        let segments = self.outer_edge_segments(edge);
        let ghost list = segments@;
        let mut selected = EdgeSegment { start: 0, end: 1, boundary: 0 };
        let mut left: i32 = target;
        let mut k: usize = 0;
        let mut open = true;
        proof {
            outer_segments_are_nonempty(self@, edge);
            assert(list.skip(0) =~= list);
        }
        while open && k < segments.len()
            invariant
                k <= list.len(),
                list == segments@,
                all_nonempty(list),
                left >= 0,
                selected.start < selected.end,
                open ==> remainder_at(list.skip(k as int), left as int) == remainder_at(
                    list,
                    target as int,
                ),
                open && k < list.len() ==> segment_at(list.skip(k as int), left as int)
                    == segment_at(list, target as int),
                open && k == list.len() ==> selected == segment_at(list, target as int),
                !open ==> selected == segment_at(list, target as int) && left == remainder_at(
                    list,
                    target as int,
                ),
            decreases list.len() - k, if open { 1int } else { 0int },
        {
            let segment = segments[k];
            let run: i64 = segment.end as i64 - segment.start as i64;
            proof {
                assert(list.skip(k as int)[0] == segment);
                assert(list.skip(k as int).drop_first() =~= list.skip(k + 1));
            }
            selected = segment;
            if (left as i64) < run {
                open = false;
            } else {
                left = (left as i64 - run) as i32;
                k += 1;
            }
        }
        let last: i64 = selected.end as i64 - selected.start as i64 - 1;
        let step: i64 = if (left as i64) < last { left as i64 } else { last };
        let along: i32 = (selected.start as i64 + step) as i32;
        let across: i32 = if edge.is_low_side() {
            (selected.boundary as i64 + inset as i64) as i32
        } else {
            (selected.boundary as i64 - inset as i64 - 1) as i32
        };
        if edge.is_horizontal() {
            Point { x: across, y: along }
        } else {
            Point { x: along, y: across }
        }
    }
}

/// Whether some segment on the given boundary holds the coordinate.
pub open spec fn stretch_holds(list: Seq<EdgeSegment>, boundary: int, coordinate: int) -> bool {
    exists|i: int| 0 <= i < list.len() && segment_holds(#[trigger] list[i], boundary, coordinate)
}

pub open spec fn segment_holds(segment: EdgeSegment, boundary: int, coordinate: int) -> bool {
    segment.boundary == boundary && segment.start <= coordinate < segment.end
}

/// Whether the desktop ends at this coordinate of the display's edge: it belongs to the display,
/// and no other display that continues the desktop there has it.
pub open spec fn ends_at(
    displays: Seq<DisplayRect>,
    display: DisplayRect,
    edge: ScreenEdge,
    coordinate: int,
) -> bool {
    &&& display.spans(!edge.horizontal(), coordinate)
    &&& !continued_at(displays, display, edge, coordinate)
}

/// Whether a display continues the desktop beyond the given one at this coordinate.
pub open spec fn continued_at(
    displays: Seq<DisplayRect>,
    display: DisplayRect,
    edge: ScreenEdge,
    coordinate: int,
) -> bool {
    exists|j: int|
        0 <= j < displays.len() && continues(#[trigger] displays[j], display, edge)
            && displays[j].spans(!edge.horizontal(), coordinate)
}

/// Whether every run of the list starts no later than the following ones.
pub open spec fn starts_ascend(list: Seq<EdgeSegment>) -> bool {
    forall|i: int, j: int| 0 <= i < j < list.len() ==> (#[trigger] list[i]).start <= (#[trigger] list[j]).start
}

proof fn lemma_insert_holds(list: Seq<EdgeSegment>, segment: EdgeSegment, boundary: int, c: int)
    ensures
        stretch_holds(insert_in_order(list, segment), boundary, c) <==> (stretch_holds(
            list,
            boundary,
            c,
        ) || segment_holds(segment, boundary, c)),
    decreases list.len(),
{
    if list.len() == 0 || precedes(list.last(), segment) {
        lemma_push_holds(list, segment, boundary, c);
    } else {
        lemma_insert_holds(list.drop_last(), segment, boundary, c);
        lemma_push_holds(insert_in_order(list.drop_last(), segment), list.last(), boundary, c);
        lemma_push_holds(list.drop_last(), list.last(), boundary, c);
        assert(list.drop_last().push(list.last()) =~= list);
    }
}

proof fn lemma_push_holds(list: Seq<EdgeSegment>, segment: EdgeSegment, boundary: int, c: int)
    ensures
        stretch_holds(list.push(segment), boundary, c) <==> (stretch_holds(list, boundary, c)
            || segment_holds(segment, boundary, c)),
{
    let pushed = list.push(segment);
    if stretch_holds(list, boundary, c) {
        let i = choose|i: int| 0 <= i < list.len() && segment_holds(#[trigger] list[i], boundary, c);
        assert(pushed[i] == list[i]);
    }
    if segment_holds(segment, boundary, c) {
        assert(pushed[list.len() as int] == segment);
    }
    if stretch_holds(pushed, boundary, c) && !segment_holds(segment, boundary, c) {
        let i = choose|i: int| 0 <= i < pushed.len() && segment_holds(#[trigger] pushed[i], boundary, c);
        assert(list[i] == pushed[i]);
    }
}

proof fn lemma_concat_holds(a: Seq<EdgeSegment>, b: Seq<EdgeSegment>, boundary: int, c: int)
    ensures
        stretch_holds(a + b, boundary, c) <==> (stretch_holds(a, boundary, c) || stretch_holds(
            b,
            boundary,
            c,
        )),
{
    if stretch_holds(a, boundary, c) {
        let i = choose|i: int| 0 <= i < a.len() && segment_holds(#[trigger] a[i], boundary, c);
        assert((a + b)[i] == a[i]);
    }
    if stretch_holds(b, boundary, c) {
        let i = choose|i: int| 0 <= i < b.len() && segment_holds(#[trigger] b[i], boundary, c);
        assert((a + b)[a.len() + i] == b[i]);
    }
    if stretch_holds(a + b, boundary, c) {
        let i = choose|i: int| 0 <= i < (a + b).len() && segment_holds(#[trigger] (a + b)[i], boundary, c);
        if i < a.len() {
            assert(a[i] == (a + b)[i]);
        } else {
            assert(b[i - a.len()] == (a + b)[i]);
        }
    }
}

proof fn lemma_in_order_holds(list: Seq<EdgeSegment>, boundary: int, c: int)
    ensures
        stretch_holds(in_order(list), boundary, c) <==> stretch_holds(list, boundary, c),
    decreases list.len(),
{
    if list.len() > 0 {
        lemma_in_order_holds(list.drop_last(), boundary, c);
        lemma_insert_holds(in_order(list.drop_last()), list.last(), boundary, c);
        lemma_push_holds(list.drop_last(), list.last(), boundary, c);
        assert(list.drop_last().push(list.last()) =~= list);
    }
}

proof fn lemma_insert_ascends(list: Seq<EdgeSegment>, segment: EdgeSegment)
    requires
        starts_ascend(list),
    ensures
        starts_ascend(insert_in_order(list, segment)),
        forall|i: int|
            0 <= i < insert_in_order(list, segment).len() ==> (#[trigger] insert_in_order(
                list,
                segment,
            )[i]).start <= segment.start || (list.len() > 0 && insert_in_order(list, segment)[i].start
                <= list.last().start),
    decreases list.len(),
{
    let grown = insert_in_order(list, segment);
    if list.len() == 0 || precedes(list.last(), segment) {
        assert forall|i: int, j: int| 0 <= i < j < grown.len() implies (#[trigger] grown[i]).start <= (#[trigger] grown[j]).start by {
            if j == list.len() {
                assert(list[i].start <= list.last().start || i == list.len() - 1);
            }
        }
        assert forall|i: int| 0 <= i < grown.len() implies (#[trigger] grown[i]).start <= segment.start || (list.len()
            > 0 && grown[i].start <= list.last().start) by {
            if i < list.len() {
                assert(i < list.len() - 1 ==> list[i].start <= list[list.len() - 1].start);
            }
        }
    } else {
        let inner = list.drop_last();
        lemma_insert_ascends(inner, segment);
        let mid = insert_in_order(inner, segment);
        assert forall|i: int| 0 <= i < mid.len() implies (#[trigger] mid[i]).start <= list.last().start by {
            if inner.len() > 0 {
                assert(list[inner.len() - 1].start <= list[inner.len() as int].start);
            }
        }
    }
}

proof fn lemma_in_order_ascends(list: Seq<EdgeSegment>)
    ensures
        starts_ascend(in_order(list)),
    decreases list.len(),
{
    if list.len() > 0 {
        lemma_in_order_ascends(list.drop_last());
        lemma_insert_ascends(in_order(list.drop_last()), list.last());
    }
}

proof fn lemma_gaps_hold(from: int, to: int, boundary: int, blocked: Seq<EdgeSegment>, c: int)
    requires
        fits_i32(from),
        fits_i32(to),
        fits_i32(boundary),
        starts_ascend(blocked),
        forall|i: int| 0 <= i < blocked.len() ==> (#[trigger] blocked[i]).boundary == 0,
        forall|i: int| 0 <= i < blocked.len() ==> (#[trigger] blocked[i]).end <= to,
        all_nonempty(blocked),
    ensures
        stretch_holds(gaps(from, to, boundary, blocked), boundary, c) <==> (from <= c < to
            && !stretch_holds(blocked, 0, c)),
        forall|b: int| b != boundary ==> !stretch_holds(gaps(from, to, boundary, blocked), b, c),
    decreases blocked.len(),
{
    if blocked.len() == 0 {
        lemma_open_run_holds(from, to, boundary, c);
    } else {
        let first = blocked[0];
        let rest = blocked.drop_first();
        let head = open_run(from, first.start as int, boundary);
        let next = larger(from, first.end as int);
        assert forall|i: int| 0 <= i < rest.len() implies (#[trigger] rest[i]).boundary == 0 && rest[i].end <= to
            && rest[i].start < rest[i].end by {
            assert(rest[i] == blocked[i + 1]);
        }
        assert(starts_ascend(rest)) by {
            assert forall|i: int, j: int| 0 <= i < j < rest.len() implies (#[trigger] rest[i]).start <= (#[trigger] rest[j]).start by {
                assert(rest[i] == blocked[i + 1] && rest[j] == blocked[j + 1]);
            }
        }
        lemma_gaps_hold(next, to, boundary, rest, c);
        let tail = gaps(next, to, boundary, rest);
        lemma_open_run_holds(from, first.start as int, boundary, c);
        lemma_concat_holds(head, tail, boundary, c);
        assert forall|b: int| b != boundary implies !stretch_holds(gaps(from, to, boundary, blocked), b, c) by {
            lemma_concat_holds(head, tail, b, c);
        }
        lemma_concat_holds(seq![first], rest, 0, c);
        assert(seq![first] + rest =~= blocked);
        assert(stretch_holds(seq![first], 0, c) <==> segment_holds(first, 0, c)) by {
            if segment_holds(first, 0, c) {
                assert(seq![first][0] == first);
            }
        }
        if c < first.start && stretch_holds(rest, 0, c) {
            let i = choose|i: int| 0 <= i < rest.len() && segment_holds(#[trigger] rest[i], 0, c);
            assert(rest[i] == blocked[i + 1]);
            assert(blocked[0].start <= blocked[i + 1].start);
        }
        assert(blocked[0].end <= to && blocked[0].start < blocked[0].end);
    }
}

proof fn lemma_open_run_holds(from: int, to: int, boundary: int, c: int)
    requires
        fits_i32(from),
        fits_i32(to),
        fits_i32(boundary),
    ensures
        stretch_holds(open_run(from, to, boundary), boundary, c) <==> from <= c < to,
        forall|b: int| b != boundary ==> !stretch_holds(open_run(from, to, boundary), b, c),
{
    let run = open_run(from, to, boundary);
    if from <= c < to {
        assert(segment_holds(run[0], boundary, c));
    }
}

proof fn lemma_blocked_runs(candidates: Seq<DisplayRect>, display: DisplayRect, edge: ScreenEdge, c: int)
    ensures
        all_nonempty(blocked_runs(candidates, display, edge)),
        forall|i: int|
            0 <= i < blocked_runs(candidates, display, edge).len() ==> (#[trigger] blocked_runs(
                candidates,
                display,
                edge,
            )[i]).boundary == 0 && blocked_runs(candidates, display, edge)[i].end <= display.limit(
                !edge.horizontal(),
            ),
        display.spans(!edge.horizontal(), c) ==> (stretch_holds(
            blocked_runs(candidates, display, edge),
            0,
            c,
        ) <==> continued_at(candidates, display, edge, c)),
    decreases candidates.len(),
{
    if candidates.len() > 0 {
        let inner = candidates.drop_last();
        lemma_blocked_runs(inner, display, edge, c);
        let candidate = candidates.last();
        let from = shared_from(display, candidate, edge);
        let to = shared_to(display, candidate, edge);
        let before = blocked_runs(inner, display, edge);
        if continues(candidate, display, edge) && from < to {
            let run = EdgeSegment { start: from as i32, end: to as i32, boundary: 0 };
            lemma_push_holds(before, run, 0, c);
        }
        if display.spans(!edge.horizontal(), c) {
            if continued_at(inner, display, edge, c) {
                let j = choose|j: int|
                    0 <= j < inner.len() && continues(#[trigger] inner[j], display, edge)
                        && inner[j].spans(!edge.horizontal(), c);
                assert(candidates[j] == inner[j]);
            }
            if continued_at(candidates, display, edge, c) {
                let j = choose|j: int|
                    0 <= j < candidates.len() && continues(#[trigger] candidates[j], display, edge)
                        && candidates[j].spans(!edge.horizontal(), c);
                if j < inner.len() {
                    assert(inner[j] == candidates[j]);
                }
            }
            if continues(candidate, display, edge) && candidate.spans(!edge.horizontal(), c) {
                assert(candidates[candidates.len() - 1] == candidate);
            }
        }
    }
}

proof fn lemma_display_stretches_hold(
    displays: Seq<DisplayRect>,
    display: DisplayRect,
    edge: ScreenEdge,
    boundary: int,
    c: int,
)
    ensures
        stretch_holds(display_stretches(displays, display, edge), boundary, c) <==> (boundary
            == display.boundary(edge) && ends_at(displays, display, edge, c)),
{
    let runs = blocked_runs(displays, display, edge);
    lemma_blocked_runs(displays, display, edge, c);
    lemma_in_order_ascends(runs);
    lemma_in_order_nonempty(runs);
    lemma_in_order_holds(runs, 0, c);
    lemma_in_order_members(runs, display.limit(!edge.horizontal()));
    lemma_gaps_hold(
        display.first(!edge.horizontal()),
        display.limit(!edge.horizontal()),
        display.boundary(edge),
        in_order(runs),
        c,
    );
}

proof fn lemma_in_order_members(list: Seq<EdgeSegment>, limit: int)
    requires
        forall|i: int| 0 <= i < list.len() ==> (#[trigger] list[i]).boundary == 0 && list[i].end <= limit,
    ensures
        forall|i: int|
            0 <= i < in_order(list).len() ==> (#[trigger] in_order(list)[i]).boundary == 0 && in_order(
                list,
            )[i].end <= limit,
    decreases list.len(),
{
    if list.len() > 0 {
        lemma_in_order_members(list.drop_last(), limit);
        lemma_insert_members(in_order(list.drop_last()), list.last(), limit);
    }
}

proof fn lemma_insert_members(list: Seq<EdgeSegment>, segment: EdgeSegment, limit: int)
    requires
        forall|i: int| 0 <= i < list.len() ==> (#[trigger] list[i]).boundary == 0 && list[i].end <= limit,
        segment.boundary == 0,
        segment.end <= limit,
    ensures
        forall|i: int|
            0 <= i < insert_in_order(list, segment).len() ==> (#[trigger] insert_in_order(
                list,
                segment,
            )[i]).boundary == 0 && insert_in_order(list, segment)[i].end <= limit,
    decreases list.len(),
{
    let grown = insert_in_order(list, segment);
    if list.len() > 0 && !precedes(list.last(), segment) {
        lemma_insert_members(list.drop_last(), segment, limit);
        let inner = insert_in_order(list.drop_last(), segment);
        assert forall|i: int| 0 <= i < grown.len() implies (#[trigger] grown[i]).boundary == 0 && grown[i].end
            <= limit by {
            if i < inner.len() {
                assert(grown[i] == inner[i]);
            } else {
                assert(grown[i] == list[list.len() - 1]);
            }
        }
    }
}

proof fn lemma_stretches_hold(displays: Seq<DisplayRect>, count: nat, edge: ScreenEdge, boundary: int, c: int)
    requires
        count <= displays.len(),
    ensures
        stretch_holds(stretches_of(displays, count, edge), boundary, c) <==> exists|i: int|
            0 <= i < count && (#[trigger] displays[i]).boundary(edge) == boundary && ends_at(
                displays,
                displays[i],
                edge,
                c,
            ),
    decreases count,
{
    if count > 0 {
        lemma_stretches_hold(displays, (count - 1) as nat, edge, boundary, c);
        lemma_display_stretches_hold(displays, displays[count - 1], edge, boundary, c);
        lemma_concat_holds(
            stretches_of(displays, (count - 1) as nat, edge),
            display_stretches(displays, displays[count - 1], edge),
            boundary,
            c,
        );
    }
}

proof fn lemma_joined_holds(list: Seq<EdgeSegment>, boundary: int, c: int)
    requires
        all_nonempty(list),
    ensures
        stretch_holds(joined(list), boundary, c) <==> stretch_holds(list, boundary, c),
    decreases list.len(),
{
    if list.len() > 0 {
        let inner = list.drop_last();
        lemma_joined_holds(inner, boundary, c);
        lemma_joined_nonempty(inner);
        let before = joined(inner);
        let segment = list.last();
        assert(segment == list[list.len() - 1]);
        lemma_push_holds(inner, segment, boundary, c);
        assert(inner.push(segment) =~= list);
        if before.len() > 0 && before.last().end == segment.start && before.last().boundary
            == segment.boundary {
            let last = before[before.len() - 1];
            let both = EdgeSegment {
                start: last.start,
                end: segment.end,
                boundary: segment.boundary,
            };
            lemma_push_holds(before.drop_last(), both, boundary, c);
            lemma_push_holds(before.drop_last(), last, boundary, c);
            assert(before.drop_last().push(last) =~= before);
        } else {
            lemma_push_holds(before, segment, boundary, c);
        }
    }
}

/// The stretches of an edge hold exactly the coordinates at which the desktop ends: one of a
/// display that no other display continues.
pub proof fn outer_segments_are_the_open_edge(
    displays: Seq<DisplayRect>,
    edge: ScreenEdge,
    boundary: int,
    coordinate: int,
)
    ensures
        stretch_holds(outer_segments(displays, edge), boundary, coordinate) <==> exists|i: int|
            0 <= i < displays.len() && (#[trigger] displays[i]).boundary(edge) == boundary
                && ends_at(displays, displays[i], edge, coordinate),
{
    let raw = stretches_of(displays, displays.len(), edge);
    lemma_stretches_nonempty(displays, displays.len(), edge);
    lemma_in_order_nonempty(raw);
    lemma_joined_holds(in_order(raw), boundary, coordinate);
    lemma_in_order_holds(raw, boundary, coordinate);
    lemma_stretches_hold(displays, displays.len(), edge, boundary, coordinate);
}

proof fn lemma_joined_ascends(list: Seq<EdgeSegment>)
    requires
        starts_ascend(list),
    ensures
        starts_ascend(joined(list)),
        list.len() > 0 ==> joined(list).len() > 0 && joined(list).last().start <= list.last().start,
    decreases list.len(),
{
    if list.len() > 0 {
        let shorter = list.drop_last();
        assert forall|i: int, j: int| 0 <= i < j < shorter.len() implies (#[trigger] shorter[i]).start
            <= (#[trigger] shorter[j]).start by {
            assert(shorter[i] == list[i] && shorter[j] == list[j]);
        }
        lemma_joined_ascends(shorter);
        let before = joined(shorter);
        let all = joined(list);
        if shorter.len() > 0 {
            assert(list[shorter.len() - 1].start <= list[shorter.len() as int].start);
        }
        assert forall|i: int, j: int| 0 <= i < j < all.len() implies (#[trigger] all[i]).start
            <= (#[trigger] all[j]).start by {
            if j < before.len() {
                assert(before[i].start <= before[j].start);
            } else {
                assert(i < before.len());
                assert(before[i].start <= before[before.len() - 1].start);
            }
        }
    }
}

/// The stretches of an edge come in the order in which they start.
pub proof fn outer_segments_ascend(displays: Seq<DisplayRect>, edge: ScreenEdge)
    ensures
        starts_ascend(outer_segments(displays, edge)),
{
    let raw = stretches_of(displays, displays.len(), edge);
    lemma_in_order_ascends(raw);
    lemma_joined_ascends(in_order(raw));
}

proof fn lemma_length_before_grows(list: Seq<EdgeSegment>, first: int, second: int)
    requires
        all_nonempty(list),
        first <= second,
    ensures
        0 <= length_before(list, first) <= length_before(list, second),
    decreases list.len(),
{
    if list.len() > 0 {
        lemma_drop_first_nonempty(list);
        lemma_length_before_grows(list.drop_first(), first, second);
        lemma_length_before_grows(list.drop_first(), second, second);
    }
}

/// Of two points, the one further along an edge has no smaller position on it.
pub proof fn edge_position_is_ordered(displays: Seq<DisplayRect>, edge: ScreenEdge, first: Point, second: Point)
    requires
        edge_extent(displays, edge) <= i32::MAX,
        first.on_axis(!edge.horizontal()) <= second.on_axis(!edge.horizontal()),
    ensures
        0 <= offset_on_edge(displays, edge, first).offset <= offset_on_edge(
            displays,
            edge,
            second,
        ).offset,
{
    let list = outer_segments(displays, edge);
    outer_segments_are_nonempty(displays, edge);
    lemma_length_before_grows(
        list,
        first.on_axis(!edge.horizontal()),
        second.on_axis(!edge.horizontal()),
    );
    lemma_length_before_bounds(list, second.on_axis(!edge.horizontal()));
}

/// Whether every segment ends before the next one starts.
pub open spec fn apart(list: Seq<EdgeSegment>) -> bool {
    forall|i: int, j: int| 0 <= i < j < list.len() ==> (#[trigger] list[i]).end <= (#[trigger] list[j]).start
}

/// The coordinate chosen for a position lies in the chosen segment.
pub proof fn coordinate_lies_in_its_segment(list: Seq<EdgeSegment>, target: int)
    requires
        list.len() > 0,
        all_nonempty(list),
        0 <= target,
    ensures
        ({
            let segment = segment_at(list, target);
            segment_holds(segment, segment.boundary as int, coordinate_at(list, target))
        }),
        list.contains(segment_at(list, target)),
    decreases list.len(),
{
    lemma_remainder_nonnegative(list, target);
    lemma_segment_is_member(list, target);
    let segment = segment_at(list, target);
    let i = choose|i: int| 0 <= i < list.len() && #[trigger] list[i] == segment;
    assert(list[i].start < list[i].end);
}

proof fn lemma_drop_first_nonempty(list: Seq<EdgeSegment>)
    requires
        list.len() > 0,
        all_nonempty(list),
    ensures
        all_nonempty(list.drop_first()),
        run_length(list[0]) > 0,
{
    assert forall|i: int| 0 <= i < list.drop_first().len() implies (#[trigger] list.drop_first()[i]).start
        < list.drop_first()[i].end by {
        assert(list.drop_first()[i] == list[i + 1]);
    }
    assert(list[0].start < list[0].end);
}

proof fn lemma_remainder_nonnegative(list: Seq<EdgeSegment>, target: int)
    requires
        all_nonempty(list),
        0 <= target,
    ensures
        0 <= remainder_at(list, target),
    decreases list.len(),
{
    if list.len() > 0 && target >= run_length(list[0]) {
        lemma_drop_first_nonempty(list);
        lemma_remainder_nonnegative(list.drop_first(), target - run_length(list[0]));
    }
}

proof fn lemma_segment_is_member(list: Seq<EdgeSegment>, target: int)
    requires
        list.len() > 0,
    ensures
        list.contains(segment_at(list, target)),
    decreases list.len(),
{
    if target < run_length(list[0]) || list.len() == 1 {
        assert(list[0] == segment_at(list, target));
    } else {
        let rest = list.drop_first();
        lemma_segment_is_member(rest, target - run_length(list[0]));
        let i = choose|i: int| 0 <= i < rest.len() && rest[i] == segment_at(list, target);
        assert(list[i + 1] == segment_at(list, target));
    }
}

/// Where the stretches of an edge do not overlap, the position read at the coordinate of a
/// position is that position again.
pub proof fn edge_position_round_trip(list: Seq<EdgeSegment>, target: int)
    requires
        all_nonempty(list),
        apart(list),
        0 <= target < total_length(list),
    ensures
        length_before(list, coordinate_at(list, target)) == target,
        list[0].start <= coordinate_at(list, target),
    decreases list.len(),
{
    lemma_drop_first_nonempty(list);
    let rest = list.drop_first();
    let run = run_length(list[0]);
    if target >= run {
        assert(rest.len() > 0) by {
            if rest.len() == 0 {
                assert(total_length(rest) == 0);
            }
        }
        assert(apart(rest)) by {
            assert forall|i: int, j: int| 0 <= i < j < rest.len() implies (#[trigger] rest[i]).end <= (#[trigger] rest[j]).start by {
                assert(rest[i] == list[i + 1] && rest[j] == list[j + 1]);
            }
        }
        edge_position_round_trip(rest, target - run);
        assert(rest[0] == list[1]);
        assert(list[0].end <= list[1].start);
        assert(coordinate_at(list, target) == coordinate_at(rest, target - run));
    }
}

/// Whether some segment of a list has a coordinate.
pub open spec fn has_coordinate(list: Seq<EdgeSegment>, coordinate: int) -> bool {
    exists|i: int|
        0 <= i < list.len() && (#[trigger] list[i]).start <= coordinate < list[i].end
}

proof fn lemma_apart_rest(list: Seq<EdgeSegment>)
    requires
        list.len() > 0,
        apart(list),
    ensures
        apart(list.drop_first()),
{
    let rest = list.drop_first();
    assert forall|i: int, j: int| 0 <= i < j < rest.len() implies (#[trigger] rest[i]).end
        <= (#[trigger] rest[j]).start by {
        assert(rest[i] == list[i + 1] && rest[j] == list[j + 1]);
    }
}

/// Where the stretches of an edge do not overlap, the position on the edge is the number of
/// pixels of the edge that lie before it: it starts at zero, goes up by one behind each pixel of
/// the edge, stands still elsewhere, and ends with the length of the edge.
pub proof fn position_counts_the_pixels_before_it(list: Seq<EdgeSegment>, coordinate: int)
    requires
        all_nonempty(list),
        apart(list),
    ensures
        length_before(list, coordinate + 1) - length_before(list, coordinate) == if has_coordinate(
            list,
            coordinate,
        ) {
            1int
        } else {
            0
        },
        (forall|i: int| 0 <= i < list.len() ==> coordinate <= (#[trigger] list[i]).start)
            ==> length_before(list, coordinate) == 0,
        (forall|i: int| 0 <= i < list.len() ==> (#[trigger] list[i]).end <= coordinate)
            ==> length_before(list, coordinate) == total_length(list),
    decreases list.len(),
{
    if list.len() > 0 {
        let rest = list.drop_first();
        lemma_drop_first_nonempty(list);
        lemma_apart_rest(list);
        position_counts_the_pixels_before_it(rest, coordinate);
        assert(has_coordinate(list, coordinate) <==> list[0].start <= coordinate < list[0].end
            || has_coordinate(rest, coordinate)) by {
            if has_coordinate(rest, coordinate) {
                let i = choose|i: int|
                    0 <= i < rest.len() && (#[trigger] rest[i]).start <= coordinate < rest[i].end;
                assert(list[i + 1] == rest[i]);
            }
            if has_coordinate(list, coordinate) {
                let i = choose|i: int|
                    0 <= i < list.len() && (#[trigger] list[i]).start <= coordinate < list[i].end;
                if i > 0 {
                    assert(rest[i - 1] == list[i]);
                }
            }
        }
        if rest.len() > 0 {
            assert(list[0].end <= list[1].start);
            assert(rest[0] == list[1]);
        }
        assert forall|i: int| 0 <= i < rest.len() implies (#[trigger] rest[i]).start
            >= list[0].end by {
            assert(rest[i] == list[i + 1]);
            assert(list[0].end <= list[i + 1].start);
        }
        if coordinate < list[0].end {
            if has_coordinate(rest, coordinate) {
                let i = choose|i: int|
                    0 <= i < rest.len() && (#[trigger] rest[i]).start <= coordinate < rest[i].end;
                assert(rest[i].start >= list[0].end);
            }
        }
        if coordinate + 1 == list[0].end && rest.len() > 0 {
            assert(rest[0].start >= list[0].end);
            lemma_nothing_before(rest, coordinate + 1);
        }
        assert forall|i: int| 0 <= i < rest.len() && (forall|m: int|
            0 <= m < list.len() ==> (#[trigger] list[m]).end <= coordinate) implies (
        #[trigger] rest[i]).end <= coordinate by {
            assert(rest[i] == list[i + 1]);
        }
        if forall|i: int| 0 <= i < list.len() ==> coordinate <= (#[trigger] list[i]).start {
            assert(coordinate <= list[0].start);
        }
        if forall|i: int| 0 <= i < list.len() ==> (#[trigger] list[i]).end <= coordinate {
            assert(list[0].end <= coordinate);
        }
    }
}

proof fn lemma_nothing_before(list: Seq<EdgeSegment>, coordinate: int)
    requires
        list.len() > 0,
        all_nonempty(list),
        list[0].start >= coordinate,
    ensures
        length_before(list, coordinate) == 0,
{
    assert(list[0].start < list[0].end);
}

/// A position at the end of an edge or behind it lies in the last stretch: there, what is over
/// is counted from the start, up to the last pixel.
pub proof fn positions_behind_the_edge_count_in_its_last_stretch(
    list: Seq<EdgeSegment>,
    target: int,
)
    requires
        list.len() > 0,
        all_nonempty(list),
        target >= total_length(list),
    ensures
        ({
            let last = list[list.len() - 1];
            let over = target - total_length(list);
            &&& segment_at(list, target) == last
            &&& over < last.end - last.start ==> coordinate_at(list, target) == last.start + over
            &&& over >= last.end - last.start ==> coordinate_at(list, target) == last.end - 1
        }),
        remainder_at(list, target) == target - total_length(list),
    decreases list.len(),
{
    let rest = list.drop_first();
    lemma_drop_first_nonempty(list);
    lemma_total_nonnegative(rest);
    if list.len() > 1 {
        positions_behind_the_edge_count_in_its_last_stretch(rest, target - run_length(list[0]));
        assert(rest[rest.len() - 1] == list[list.len() - 1]);
    } else {
        reveal_with_fuel(remainder_at, 2);
        reveal_with_fuel(total_length, 2);
        assert(rest.len() == 0);
        assert(list[0].start < list[0].end);
    }
}

/// The pointer comes in as many pixels inside the edge as is asked for, counted from the last
/// pixel before the edge: to its right or below it at the left and at the top, to its left or
/// above it at the right and at the bottom.
pub proof fn pointer_comes_in_at_the_inset(boundary: int, inset: int)
    ensures
        inside_of(boundary, ScreenEdge::Left, inset) == boundary + inset,
        inside_of(boundary, ScreenEdge::Top, inset) == boundary + inset,
        inside_of(boundary, ScreenEdge::Right, inset) == boundary - 1 - inset,
        inside_of(boundary, ScreenEdge::Bottom, inset) == boundary - 1 - inset,
{
}

/// The length of an edge is the number of its pixels, and one where it has none. A position on
/// it is counted in that length.
pub proof fn edge_length_is_that_of_its_stretches(
    displays: Seq<DisplayRect>,
    edge: ScreenEdge,
    point: Point,
)
    requires
        edge_extent(displays, edge) <= i32::MAX,
    ensures
        ({
            let list = outer_segments(displays, edge);
            let at = offset_on_edge(displays, edge, point);
            let along = if edge is Left || edge is Right {
                point.y as int
            } else {
                point.x as int
            };
            &&& total_length(list) > 0 ==> at.total == total_length(list)
            &&& total_length(list) == 0 ==> at.total == 1
            &&& at.offset == length_before(list, along)
            &&& 0 <= at.offset <= at.total
        }),
{
    let list = outer_segments(displays, edge);
    outer_segments_are_nonempty(displays, edge);
    lemma_length_before_bounds(list, point.on_axis(!edge.horizontal()));
}

/// A stretch of an edge ends where its display does, or where another display takes over just
/// beyond the edge: that display has the pixel beyond, in the row or column of the coordinate.
pub proof fn desktop_goes_on_beyond_a_covered_edge(
    displays: Seq<DisplayRect>,
    display: DisplayRect,
    edge: ScreenEdge,
    coordinate: int,
)
    ensures
        continued_at(displays, display, edge, coordinate) <==> exists|i: int|
            #![trigger displays[i]]
            0 <= i < displays.len() && match edge {
                ScreenEdge::Left => displays[i].covers(display.beyond(edge), coordinate)
                    && displays[i].x != display.x,
                ScreenEdge::Right => displays[i].covers(display.beyond(edge), coordinate)
                    && displays[i].x != display.x,
                ScreenEdge::Top => displays[i].covers(coordinate, display.beyond(edge))
                    && displays[i].y != display.y,
                ScreenEdge::Bottom => displays[i].covers(coordinate, display.beyond(edge))
                    && displays[i].y != display.y,
            },
{
}

} // verus!
