use synly::edge::{EdgeOffset, EdgeSegment};
use synly::geometry::{DesktopLayout, DisplayRect, LayoutError, Point, ScreenEdge};

fn rect(x: i32, y: i32, width: i32, height: i32) -> DisplayRect {
    DisplayRect { x, y, width, height }
}

fn layout() -> DesktopLayout {
    DesktopLayout::new(vec![rect(0, 0, 1920, 1080), rect(1920, 200, 1280, 1024)]).unwrap()
}

fn target(layout: &DesktopLayout, edge: ScreenEdge, position: f32) -> i32 {
    let total = layout.edge_length(edge).unwrap().max(1);
    (position.clamp(0.0, 1.0) * total as f32) as i32
}

#[test]
fn internal_monitor_edges_do_not_trigger() {
    let layout = layout();
    assert!(!layout.is_outer_edge_point(ScreenEdge::Right, Point { x: 1919, y: 500 }, 2));
    assert!(layout.is_outer_edge_point(ScreenEdge::Right, Point { x: 3199, y: 500 }, 2));
    assert!(layout.is_outer_edge_point(ScreenEdge::Right, Point { x: 1919, y: 100 }, 2));
}

#[test]
fn edge_mapping_handles_negative_coordinates() {
    let layout = DesktopLayout::new(vec![rect(-1200, -400, 1200, 900)]).unwrap();
    let point = layout.point_inside_edge(
        ScreenEdge::Right,
        target(&layout, ScreenEdge::Right, 0.5),
        8,
    );
    assert_eq!(point, Point { x: -9, y: 50 });
}

#[test]
fn edge_mapping_uses_real_segments_in_irregular_layout() {
    let layout =
        DesktopLayout::new(vec![rect(0, 0, 100, 100), rect(200, 50, 100, 100)]).unwrap();
    assert_eq!(
        layout.point_inside_edge(
            ScreenEdge::Right,
            target(&layout, ScreenEdge::Right, 0.75),
            8
        ),
        Point { x: 291, y: 100 }
    );
}

#[test]
fn layouts_without_displays_or_area_are_refused() {
    assert_eq!(DesktopLayout::new(vec![]).unwrap_err(), LayoutError::NoDisplay);
    assert_eq!(
        DesktopLayout::new(vec![rect(0, 0, 100, 0)]).unwrap_err(),
        LayoutError::InvalidSize
    );
    assert_eq!(
        DesktopLayout::new(vec![rect(0, 0, 100, 100), rect(0, 0, -1, 5)]).unwrap_err(),
        LayoutError::InvalidSize
    );
}

#[test]
fn opposite_edges_pair_up() {
    assert_eq!(ScreenEdge::Left.opposite(), ScreenEdge::Right);
    assert_eq!(ScreenEdge::Top.opposite(), ScreenEdge::Bottom);
    for edge in [ScreenEdge::Left, ScreenEdge::Right, ScreenEdge::Top, ScreenEdge::Bottom] {
        assert_eq!(edge.opposite().opposite(), edge);
    }
    assert_eq!(ScreenEdge::Left.as_arg(), "left");
    assert_eq!(ScreenEdge::Right.as_arg(), "right");
    assert_eq!(ScreenEdge::Top.as_arg(), "top");
    assert_eq!(ScreenEdge::Bottom.as_arg(), "bottom");
}

#[test]
fn rectangles_know_their_sides() {
    let display = rect(-10, 20, 100, 50);
    assert_eq!(display.right(), 90);
    assert_eq!(display.bottom(), 70);
    assert!(display.contains(Point { x: -10, y: 69 }));
    assert!(!display.contains(Point { x: 90, y: 20 }));
    assert_eq!(rect(i32::MAX - 5, 0, 100, 1).right(), i32::MAX);
}

#[test]
fn outer_edge_segments_follow_the_open_edge() {
    let layout = layout();
    let segments = layout.outer_edge_segments(ScreenEdge::Right);
    assert_eq!(
        segments,
        vec![
            EdgeSegment { start: 0, end: 200, boundary: 1920 },
            EdgeSegment { start: 200, end: 1224, boundary: 3200 },
        ]
    );
    assert_eq!(layout.edge_length(ScreenEdge::Right), Some(1224));
}

#[test]
fn edge_positions_round_trip() {
    let layout = layout();
    let point = Point { x: 3199, y: 700 };
    let at = layout.normalized_edge_position(ScreenEdge::Right, point);
    assert_eq!(at, EdgeOffset { offset: 700, total: 1224 });
    let inside = layout.point_inside_edge(ScreenEdge::Right, at.offset, 8);
    assert_eq!(inside, Point { x: 3191, y: 700 });
    assert_eq!(layout.normalized_edge_position(ScreenEdge::Right, inside), at);
}

#[test]
fn movements_cross_outer_edges_only() {
    let layout = layout();
    assert!(layout.movement_crosses_edge(ScreenEdge::Right, Point { x: 3199, y: 500 }, 3, 0));
    assert!(!layout.movement_crosses_edge(ScreenEdge::Right, Point { x: 3199, y: 500 }, -3, 0));
    assert!(layout
        .crossed_outer_edge_position(ScreenEdge::Right, Point { x: 1919, y: 500 }, 4, 0)
        .is_none());
    assert!(layout
        .crossed_outer_edge_position(ScreenEdge::Right, Point { x: 3198, y: 500 }, 4, 0)
        .is_some());
}

#[test]
fn moved_pointers_stay_on_the_desktop() {
    let layout = layout();
    assert_eq!(
        layout.move_within_layout(Point { x: 1919, y: 500 }, 10, 0),
        Point { x: 1929, y: 500 }
    );
    assert_eq!(
        layout.move_within_layout(Point { x: 3190, y: 500 }, 100, 0),
        Point { x: 3199, y: 500 }
    );
    assert_eq!(
        layout.move_within_layout(Point { x: 10, y: 10 }, -100, -100),
        Point { x: 0, y: 0 }
    );
}

#[test]
fn stretches_and_positions_ascend() {
    let layout = layout();
    for edge in [ScreenEdge::Left, ScreenEdge::Right, ScreenEdge::Top, ScreenEdge::Bottom] {
        let starts: Vec<i32> =
            layout.outer_edge_segments(edge).iter().map(|segment| segment.start).collect();
        let mut sorted = starts.clone();
        sorted.sort();
        assert_eq!(starts, sorted);
    }
    let offset = |y: i32| {
        layout.normalized_edge_position(ScreenEdge::Right, Point { x: 3199, y }).offset
    };
    assert!(offset(100) < offset(200));
    assert!(offset(200) < offset(1000));
}
