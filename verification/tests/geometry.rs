use wl_translate::geom::{
    corners, from_corners, is_usable, nearest_corner, nearest_edge, opposite, overlap, resize_edge,
    round, sidebar_anchor, surround, to_pixels, toolbar_anchor, Anchor, Corner, Edge, Point, Rect,
    Side, Size, COORD_LIMIT, SCALE_ONE, SUBPIXELS, UNITS,
};

/// A length in points as coordinate units.
fn units(points: f64) -> i64 {
    (points * UNITS as f64).round() as i64
}

fn point(x: f64, y: f64) -> Point {
    Point::new(units(x), units(y))
}

fn size(width: f64, height: f64) -> Size {
    Size::new(units(width), units(height))
}

fn rect(x: f64, y: f64, width: f64, height: f64) -> Rect {
    Rect::new(point(x, y), size(width, height))
}

fn at(x: f64, y: f64, w: f64, h: f64) -> Option<Rect> {
    Some(rect(x, y, w, h))
}

fn scale(factor: f64) -> u16 {
    (factor * SCALE_ONE as f64).round() as u16
}

fn screen() -> Size {
    size(1920.0, 1080.0)
}

const BAR: f64 = 72.0;

#[test]
fn a_rectangle_comes_out_the_same_whichever_corner_you_drag_from() {
    let downhill = from_corners(point(10.0, 10.0), point(40.0, 50.0));
    let uphill = from_corners(point(40.0, 50.0), point(10.0, 10.0));

    assert_eq!(downhill, uphill);
    assert_eq!(downhill.width, units(30.0));
    assert_eq!(downhill.height, units(40.0));
}

#[test]
fn dimming_covers_everything_except_the_selection() {
    let full = rect(0.0, 0.0, 100.0, 100.0);
    let hole = rect(20.0, 30.0, 40.0, 20.0);

    let covered: i64 = surround(full, hole).iter().map(|r| r.width * r.height).sum();

    assert_eq!(
        covered as f64 / (UNITS * UNITS) as f64,
        100.0 * 100.0 - 40.0 * 20.0
    );
}

#[test]
fn dimming_starts_where_the_dimmed_area_starts() {
    let full = rect(10.0, 10.0, 100.0, 100.0);
    let hole = rect(20.0, 30.0, 40.0, 20.0);

    assert_eq!(
        surround(full, hole),
        vec![
            rect(10.0, 10.0, 100.0, 20.0),
            rect(10.0, 50.0, 100.0, 60.0),
            rect(10.0, 30.0, 10.0, 20.0),
            rect(60.0, 30.0, 50.0, 20.0),
        ]
    );
    assert!(surround(full, full).is_empty());
}

#[test]
fn a_selection_flush_with_an_edge_produces_no_zero_sized_dimming() {
    let full = rect(0.0, 0.0, 100.0, 100.0);
    let hole = rect(0.0, 0.0, 100.0, 40.0);

    assert!(surround(full, hole).iter().all(|r| r.width > 0 && r.height > 0));
}

#[test]
fn scaling_to_pixels_respects_the_output_scale() {
    let selection = rect(10.0, 20.0, 30.0, 40.0);

    assert_eq!(
        to_pixels(selection, scale(2.0), (1000, 1000)),
        Some((20, 40, 60, 80))
    );
}

#[test]
fn a_selection_running_past_the_edge_is_clamped_into_the_image() {
    let selection = rect(90.0, 0.0, 40.0, 10.0);
    let (x, _, w, _) = to_pixels(selection, scale(1.0), (100, 100)).expect("non-empty");

    assert_eq!((x, w), (90, 10));
}

#[test]
fn corners_are_found_within_the_grab_radius_and_not_beyond_it() {
    let selection = rect(100.0, 100.0, 200.0, 200.0);

    assert!(nearest_corner(selection, point(104.0, 104.0)).is_some());
    assert!(nearest_corner(selection, point(200.0, 200.0)).is_none());
}

#[test]
fn the_toolbar_sits_at_the_bottom_when_nothing_is_in_the_way() {
    assert_eq!(toolbar_anchor(None, screen(), units(BAR)), Anchor::Bottom);
    assert_eq!(
        toolbar_anchor(at(100.0, 100.0, 400.0, 300.0), screen(), units(BAR)),
        Anchor::Bottom
    );
}

#[test]
fn it_moves_to_the_top_when_the_selection_reaches_the_bottom() {
    assert_eq!(
        toolbar_anchor(at(100.0, 900.0, 400.0, 180.0), screen(), units(BAR)),
        Anchor::Top
    );
}

#[test]
fn the_tool_strip_moves_off_whichever_side_is_covered() {
    assert_eq!(sidebar_anchor(None, screen(), units(190.0)), Side::Left);
    assert_eq!(
        sidebar_anchor(at(0.0, 0.0, 300.0, 1080.0), screen(), units(190.0)),
        Side::Right
    );
    assert_eq!(
        sidebar_anchor(at(1600.0, 0.0, 320.0, 1080.0), screen(), units(190.0)),
        Side::Left
    );
}

#[test]
fn each_edge_is_grabbable_and_the_middle_is_not() {
    let selection = rect(100.0, 100.0, 200.0, 200.0);

    assert_eq!(nearest_edge(selection, point(200.0, 102.0)), Some(Edge::Top));
    assert_eq!(
        nearest_edge(selection, point(200.0, 298.0)),
        Some(Edge::Bottom)
    );
    assert_eq!(nearest_edge(selection, point(102.0, 200.0)), Some(Edge::Left));
    assert_eq!(
        nearest_edge(selection, point(298.0, 200.0)),
        Some(Edge::Right)
    );
    assert_eq!(nearest_edge(selection, point(200.0, 200.0)), None);
}

#[test]
fn dragging_an_edge_moves_only_that_side() {
    let selection = rect(100.0, 100.0, 200.0, 200.0);
    let widened = resize_edge(selection, Edge::Right, point(400.0, 999.0));

    assert_eq!(widened.x, units(100.0));
    assert_eq!(widened.y, units(100.0));
    assert_eq!(widened.height, units(200.0), "the other axis must not move");
    assert_eq!(widened.width, units(300.0));
}

#[test]
fn dragging_an_edge_past_its_opposite_flips_instead_of_going_negative() {
    let selection = rect(100.0, 100.0, 200.0, 200.0);
    let flipped = resize_edge(selection, Edge::Left, point(400.0, 0.0));

    assert_eq!(flipped.x, units(300.0));
    assert_eq!(flipped.width, units(100.0));
}

#[test]
fn a_stray_click_is_not_a_usable_selection() {
    assert!(!is_usable(at(0.0, 0.0, 1.0, 1.0)));
    assert!(!is_usable(None));
    assert!(is_usable(at(0.0, 0.0, 40.0, 30.0)));
}

#[test]
fn every_edge_can_be_dragged() {
    let selection = rect(100.0, 100.0, 200.0, 200.0);

    assert_eq!(
        resize_edge(selection, Edge::Top, point(0.0, 50.0)),
        rect(100.0, 50.0, 200.0, 250.0)
    );
    assert_eq!(
        resize_edge(selection, Edge::Bottom, point(0.0, 350.0)),
        rect(100.0, 100.0, 200.0, 250.0)
    );
    assert_eq!(
        resize_edge(selection, Edge::Left, point(50.0, 0.0)),
        rect(50.0, 100.0, 250.0, 200.0)
    );
}

#[test]
fn a_corner_is_resized_against_the_opposite_one() {
    let selection = rect(100.0, 100.0, 200.0, 100.0);

    assert_eq!(opposite(selection, Corner::TopLeft), point(300.0, 200.0));
    assert_eq!(opposite(selection, Corner::BottomLeft), point(300.0, 100.0));
    assert_eq!(nearest_corner(selection, point(296.0, 104.0)), Some(Corner::TopRight));
    for corner in corners(selection) {
        assert!(nearest_corner(selection, corner).is_some());
    }
}

#[test]
fn the_shared_area_is_that_of_the_overlap() {
    let a = Rect::new(Point::new(0, 0), Size::new(10, 10));
    let b = Rect::new(Point::new(6, 7), Size::new(10, 10));

    assert_eq!(overlap(a, b), 12);
    assert_eq!(overlap(a, Rect::new(Point::new(10, 0), Size::new(5, 5))), 0);
}

#[test]
fn halves_round_away_from_zero() {
    assert_eq!(round(SUBPIXELS / 2), 1);
    assert_eq!(round(SUBPIXELS / 2 - 1), 0);
    assert_eq!(round(-SUBPIXELS / 2), -1);
    assert_eq!(round(5 * SUBPIXELS), 5);
}

#[test]
fn fractional_scales_land_on_whole_pixels() {
    assert_eq!(
        to_pixels(rect(10.0, 0.0, 100.0, 100.0), scale(1.25), (1000, 1000)),
        Some((13, 0, 125, 125))
    );
    assert_eq!(to_pixels(rect(1000.0, 0.0, 10.0, 10.0), scale(1.0), (1000, 1000)), None);
    assert_eq!(
        to_pixels(rect(-5.0, -5.0, 10.0, 10.0), scale(1.0), (1000, 1000)),
        Some((0, 0, 10, 10))
    );
}

#[test]
fn the_largest_coordinates_still_work() {
    let far = Rect::new(Point::new(-COORD_LIMIT, -COORD_LIMIT), Size::new(0, 0));

    assert_eq!(to_pixels(far, u16::MAX, (100, 100)), None);
    assert_eq!(
        from_corners(
            Point::new(-COORD_LIMIT, 0),
            Point::new(COORD_LIMIT, 0)
        )
        .width,
        2 * COORD_LIMIT
    );
}
