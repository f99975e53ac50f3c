//! Tests of the quadratic solver, the circle/line intersector, the
//! half-plane arc clamp, and the bounding-geometry calculator.

use ruler::fx::Fx;
use ruler::geom::{
    arc_clamp_with_outcome, circle_intersect, closest_point_below_line_on_circle,
    solve_quadratic, ArcClampOutcome,
};
use ruler::point::Pt;
use ruler::window::compute_window_geometry;

fn px(p: i64) -> i128 {
    (p as i128) * 65536
}

#[test]
fn solve_two_real_roots() {
    // t^2 - 4 == 0 has roots -2 and 2.
    let a = Fx::from_pixels(1);
    let b = Fx::from_pixels(0);
    let c = Fx::from_pixels(-4);
    let (t1, t2) = solve_quadratic(a, b, c).expect("roots exist");
    assert_eq!(t1.raw, px(-2));
    assert_eq!(t2.raw, px(2));
    assert!(t1.raw <= t2.raw);
}

#[test]
fn solve_no_real_roots() {
    // t^2 + 4 == 0 has no real root.
    let a = Fx::from_pixels(1);
    let b = Fx::from_pixels(0);
    let c = Fx::from_pixels(4);
    assert!(solve_quadratic(a, b, c).is_none());
}

#[test]
fn intersect_crossing_line() {
    // The x axis crosses the circle of radius 5 around the origin at
    // (-5, 0) and (5, 0); the order of the two points is incidental.
    let center = Pt::from_pixels(0, 0);
    let radius = Fx::from_pixels(5);
    let start = Pt::from_pixels(-10, 0);
    let dir = Pt::from_pixels(1, 0);
    let (p1, p2) = circle_intersect(center, radius, start, dir).expect("intersections exist");
    let got = [(p1.x.raw, p1.y.raw), (p2.x.raw, p2.y.raw)];
    let want_a = (px(-5), px(0));
    let want_b = (px(5), px(0));
    assert!(
        (got[0] == want_a && got[1] == want_b) || (got[0] == want_b && got[1] == want_a),
        "unexpected intersections: {:?}",
        got
    );
}

#[test]
fn intersect_missing_line() {
    // A horizontal line far above the circle misses it entirely.
    let center = Pt::from_pixels(0, 0);
    let radius = Fx::from_pixels(5);
    let start = Pt::from_pixels(-10, 100);
    let dir = Pt::from_pixels(1, 0);
    assert!(circle_intersect(center, radius, start, dir).is_none());
}

#[test]
fn clamp_moves_crossed_point_to_nearer_intersection() {
    // The line y == -20 cuts the radius-25 circle at (-15, -20) and
    // (15, -20); a point on the forbidden side comes back at the
    // intersection nearer to it.
    let center = Pt::from_pixels(0, 0);
    let radius = Fx::from_pixels(25);
    let start = Pt::from_pixels(0, -20);
    let dir = Pt::from_pixels(1, 0);
    let point = Pt::from_pixels(100, -30);
    let r = closest_point_below_line_on_circle(center, radius, start, dir, point);
    assert_eq!((r.x.raw, r.y.raw), (px(15), px(-20)));
}

#[test]
fn clamp_keeps_point_on_permitted_side() {
    let center = Pt::from_pixels(0, 0);
    let radius = Fx::from_pixels(25);
    let start = Pt::from_pixels(0, -20);
    let dir = Pt::from_pixels(1, 0);
    let point = Pt::from_pixels(0, 0);
    let r = closest_point_below_line_on_circle(center, radius, start, dir, point);
    assert_eq!((r.x.raw, r.y.raw), (px(0), px(0)));
}

#[test]
fn clamp_fail_soft_when_line_misses_circle() {
    // The boundary line does not cross the small circle at all: the
    // fail-soft branch hands the point back unchanged.
    let center = Pt::from_pixels(0, 0);
    let radius = Fx::from_pixels(5);
    let start = Pt::from_pixels(0, -20);
    let dir = Pt::from_pixels(1, 0);
    let point = Pt::from_pixels(3, -21);
    let r = closest_point_below_line_on_circle(center, radius, start, dir, point);
    assert_eq!((r.x.raw, r.y.raw), (px(3), px(-21)));
}

#[test]
fn bounds_margin_expanded_rectangle() {
    // A horizontal segment from (100, 100) to (300, 100) with margin 40.
    let from = Pt::from_pixels(100, 100);
    let to = Pt::from_pixels(300, 100);
    let g = compute_window_geometry(from, to);
    assert_eq!((g.x, g.y, g.w, g.h), (60, 60, 280, 80));
}

#[test]
fn bounds_is_idempotent() {
    // A pure function: recomputing for the same endpoints yields the
    // identical rectangle.
    let from = Pt::from_pixels(12, -7);
    let to = Pt::from_pixels(-150, 431);
    let g1 = compute_window_geometry(from, to);
    let g2 = compute_window_geometry(from, to);
    assert_eq!(g1, g2);
}

#[test]
fn bounds_orientation_independent_size() {
    // Swapping the endpoints keeps the rectangle.
    let from = Pt::from_pixels(300, 100);
    let to = Pt::from_pixels(100, 100);
    let g = compute_window_geometry(from, to);
    assert_eq!((g.x, g.y, g.w, g.h), (60, 60, 280, 80));
}

#[test]
fn control_rect_box_around_endpoint() {
    let g = ruler::window::control_rect(Pt::from_pixels(500, 300));
    assert_eq!((g.x, g.y, g.w, g.h), (480, 280, 40, 40));
}

#[test]
fn clamp_line_through_center_forbids_nothing() {
    // A boundary line through the circle's center divides the circle in
    // half; neither side is forbidden, so every point comes back
    // unchanged.
    let center = Pt::from_pixels(0, 0);
    let radius = Fx::from_pixels(100);
    let start = Pt::from_pixels(0, 0);
    let dir = Pt::from_pixels(0, 1);
    let point = Pt::from_pixels(89, 44);
    let r = closest_point_below_line_on_circle(center, radius, start, dir, point);
    assert_eq!((r.x.raw, r.y.raw), (px(89), px(44)));
    let mirrored = Pt::from_pixels(-89, 44);
    let r2 = closest_point_below_line_on_circle(center, radius, start, dir, mirrored);
    assert_eq!((r2.x.raw, r2.y.raw), (px(-89), px(44)));
}

#[test]
fn clamp_outcome_reports_each_branch() {
    let center = Pt::from_pixels(0, 0);
    let start = Pt::from_pixels(0, -20);
    let dir = Pt::from_pixels(1, 0);
    // A point on the permitted side is kept.
    let (r, o) = arc_clamp_with_outcome(
        center, Fx::from_pixels(25), start, dir, Pt::from_pixels(0, 0));
    assert_eq!((r.x.raw, r.y.raw), (px(0), px(0)));
    assert_eq!(o, ArcClampOutcome::Permitted);
    // A point that crossed over is moved to the nearer intersection.
    let (r, o) = arc_clamp_with_outcome(
        center, Fx::from_pixels(25), start, dir, Pt::from_pixels(100, -30));
    assert_eq!((r.x.raw, r.y.raw), (px(15), px(-20)));
    assert_eq!(o, ArcClampOutcome::Moved);
    // The boundary misses the circle entirely: the fail-soft anomaly is
    // reported and the point comes back unchanged.
    let (r, o) = arc_clamp_with_outcome(
        center, Fx::from_pixels(5), start, dir, Pt::from_pixels(3, -21));
    assert_eq!((r.x.raw, r.y.raw), (px(3), px(-21)));
    assert_eq!(o, ArcClampOutcome::BoundaryMissedCircle);
}
