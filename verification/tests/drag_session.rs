//! Tests of the drag constraint solver and the drag-session state machine.

use ruler::drag::handle_drag;
use ruler::point::Pt;
use ruler::session::{on_button_press, on_button_release, Dragging};

fn px(p: i64) -> i128 {
    (p as i128) * 65536
}

fn pixels(raw: i128) -> f64 {
    (raw as f64) / 65536.0
}

#[test]
fn drag_distance_lock_keeps_old_distance() {
    // With the distance lock held, the endpoint stays at its pre-drag
    // distance (300) from the anchor, along the cursor's direction
    // normalize(100, 50), away from every screen edge.
    let mut p = Pt::from_pixels(800, 500);
    let anchor = Pt::from_pixels(500, 500);
    let cursor = Pt::from_pixels(600, 550);
    let screen = Pt::from_pixels(2000, 2000);
    handle_drag(&mut p, anchor, cursor, screen, true, false);
    let ex = 500.0 + 300.0 * (100.0 / 12500f64.sqrt());
    let ey = 500.0 + 300.0 * (50.0 / 12500f64.sqrt());
    assert!((pixels(p.x.raw) - ex).abs() < 0.05, "x: {} vs {}", pixels(p.x.raw), ex);
    assert!((pixels(p.y.raw) - ey).abs() < 0.05, "y: {} vs {}", pixels(p.y.raw), ey);
}

#[test]
fn drag_minimum_length_along_cursor_direction() {
    // No locks: a cursor closer to the anchor than the minimum length
    // (200) lands at the minimum length along its own direction.
    let mut p = Pt::from_pixels(200, 0);
    let anchor = Pt::from_pixels(0, 0);
    let cursor = Pt::from_pixels(1, 0);
    let screen = Pt::from_pixels(1000, 1000);
    handle_drag(&mut p, anchor, cursor, screen, false, false);
    assert_eq!((p.x.raw, p.y.raw), (px(200), px(0)));
}

#[test]
fn drag_unconstrained_follows_cursor() {
    let mut p = Pt::from_pixels(800, 500);
    let anchor = Pt::from_pixels(100, 100);
    let cursor = Pt::from_pixels(640, 480);
    let screen = Pt::from_pixels(1000, 1000);
    handle_drag(&mut p, anchor, cursor, screen, false, false);
    assert_eq!((p.x.raw, p.y.raw), (px(640), px(480)));
}

#[test]
fn drag_screen_clamp_is_last_resort() {
    // A cursor far outside the screen is clamped componentwise.
    let mut p = Pt::from_pixels(500, 500);
    let anchor = Pt::from_pixels(100, 100);
    let cursor = Pt::from_pixels(5000, -300);
    let screen = Pt::from_pixels(1000, 1000);
    handle_drag(&mut p, anchor, cursor, screen, false, false);
    assert_eq!((p.x.raw, p.y.raw), (px(1000), px(0)));
}

#[test]
fn drag_angle_lock_keeps_direction() {
    // With the angle lock held, the endpoint stays on the pre-drag
    // direction (along +x from the anchor) at the cursor's distance.
    let mut p = Pt::from_pixels(800, 500);
    let anchor = Pt::from_pixels(500, 500);
    let cursor = Pt::from_pixels(510, 740);
    let screen = Pt::from_pixels(2000, 2000);
    handle_drag(&mut p, anchor, cursor, screen, false, true);
    let ex = 500.0 + (10.0f64 * 10.0 + 240.0 * 240.0).sqrt();
    assert!((pixels(p.x.raw) - ex).abs() < 0.05, "x: {} vs {}", pixels(p.x.raw), ex);
    assert_eq!(p.y.raw, px(500));
}

#[test]
fn drag_zero_direction_falls_back_to_unit_x() {
    // Cursor on the anchor: the distance lock's direction falls back to
    // (1, 0), so the endpoint lands east of the anchor.
    let mut p = Pt::from_pixels(800, 500);
    let anchor = Pt::from_pixels(500, 500);
    let cursor = Pt::from_pixels(500, 500);
    let screen = Pt::from_pixels(2000, 2000);
    handle_drag(&mut p, anchor, cursor, screen, true, false);
    assert_eq!((p.x.raw, p.y.raw), (px(800), px(500)));
}

#[test]
fn drag_distance_lock_slides_along_screen_edge() {
    // The distance-locked endpoint would leave the screen at the top
    // (candidate near (515, -50)); it slides along the arc of radius 450
    // around the anchor to the nearer top-edge crossing, at
    // (500 + sqrt(450^2 - 400^2), 0).
    let mut p = Pt::from_pixels(500, 850);
    let anchor = Pt::from_pixels(500, 400);
    let cursor = Pt::from_pixels(510, 100);
    let screen = Pt::from_pixels(1000, 1000);
    handle_drag(&mut p, anchor, cursor, screen, true, false);
    assert_eq!(p.y.raw, 0);
    let ex = 500.0 + (450.0f64 * 450.0 - 400.0 * 400.0).sqrt();
    assert!((pixels(p.x.raw) - ex).abs() < 0.05, "x: {} vs {}", pixels(p.x.raw), ex);
    let dist = ((pixels(p.x.raw) - 500.0).powi(2) + (pixels(p.y.raw) - 400.0).powi(2)).sqrt();
    assert!((dist - 450.0).abs() < 0.05, "distance: {}", dist);
}

#[test]
fn drag_result_stays_inside_screen() {
    // The two output invariants, across lock-flag combinations: the
    // result is inside the screen, and (with no boundary interference)
    // no closer to the anchor than the minimum length.
    let screen = Pt::from_pixels(1000, 1000);
    let anchor = Pt::from_pixels(480, 510);
    let flags = [(false, false), (true, false), (false, true), (true, true)];
    let cursors = [(-50, -50), (2000, 400), (481, 510), (900, 900)];
    for (fd, fa) in flags {
        for (cx, cy) in cursors {
            let mut p = Pt::from_pixels(700, 510);
            let cursor = Pt::from_pixels(cx, cy);
            handle_drag(&mut p, anchor, cursor, screen, fd, fa);
            assert!(0 <= p.x.raw && p.x.raw <= px(1000), "x out: {}", pixels(p.x.raw));
            assert!(0 <= p.y.raw && p.y.raw <= px(1000), "y out: {}", pixels(p.y.raw));
            let dist = ((pixels(p.x.raw) - 480.0).powi(2)
                + (pixels(p.y.raw) - 510.0).powi(2))
                .sqrt();
            assert!(dist >= 199.9, "minimum length violated: {}", dist);
        }
    }
}

#[test]
fn press_near_from_grabs_anchor_end() {
    let from = Pt::from_pixels(100, 100);
    let to = Pt::from_pixels(500, 100);
    let cursor = Pt::from_pixels(130, 70);
    let r = on_button_press(Dragging::Idle, 1, cursor, from, to);
    assert_eq!(r, Dragging::AnchorEnd);
}

#[test]
fn press_near_to_grabs_other_end() {
    let from = Pt::from_pixels(100, 100);
    let to = Pt::from_pixels(500, 100);
    let cursor = Pt::from_pixels(479, 121);
    let r = on_button_press(Dragging::Idle, 1, cursor, from, to);
    assert_eq!(r, Dragging::OtherEnd);
}

#[test]
fn press_far_from_both_changes_nothing() {
    let from = Pt::from_pixels(100, 100);
    let to = Pt::from_pixels(500, 100);
    let cursor = Pt::from_pixels(300, 400);
    let r = on_button_press(Dragging::Idle, 1, cursor, from, to);
    assert_eq!(r, Dragging::Idle);
}

#[test]
fn secondary_button_press_changes_nothing() {
    let from = Pt::from_pixels(100, 100);
    let to = Pt::from_pixels(500, 100);
    let cursor = Pt::from_pixels(100, 100);
    let r = on_button_press(Dragging::OtherEnd, 3, cursor, from, to);
    assert_eq!(r, Dragging::OtherEnd);
}

#[test]
fn primary_release_returns_to_idle() {
    assert_eq!(on_button_release(Dragging::AnchorEnd, 1), Dragging::Idle);
    assert_eq!(on_button_release(Dragging::OtherEnd, 1), Dragging::Idle);
    assert_eq!(on_button_release(Dragging::OtherEnd, 2), Dragging::OtherEnd);
}

#[test]
fn drag_distance_lock_with_anchor_on_screen_corner() {
    // An anchor exactly on the screen corner lies on two of the four
    // boundary lines; those lines run through the circle's center and
    // forbid nothing, so the distance lock yields its plain result,
    // 100 * normalize(100, 50) ~ (89.44, 44.72).  Minimum-length
    // enforcement (200 > 100) then extends that candidate to twice the
    // distance along the same direction.
    let mut p = Pt::from_pixels(100, 0);
    let anchor = Pt::from_pixels(0, 0);
    let cursor = Pt::from_pixels(100, 50);
    let screen = Pt::from_pixels(1000, 1000);
    handle_drag(&mut p, anchor, cursor, screen, true, false);
    let ex = 200.0 * (100.0 / 12500f64.sqrt());
    let ey = 200.0 * (50.0 / 12500f64.sqrt());
    assert!((pixels(p.x.raw) - ex).abs() < 0.05, "x: {} vs {}", pixels(p.x.raw), ex);
    assert!((pixels(p.y.raw) - ey).abs() < 0.05, "y: {} vs {}", pixels(p.y.raw), ey);
}

#[test]
fn drag_distance_lock_from_corner_anchor_keeps_distance() {
    // The same corner anchor with a pre-drag distance above the minimum
    // length: the result is exactly the distance lock's point, at the
    // old distance (300) along normalize(cursor - anchor).
    let mut p = Pt::from_pixels(300, 0);
    let anchor = Pt::from_pixels(0, 0);
    let cursor = Pt::from_pixels(100, 50);
    let screen = Pt::from_pixels(1000, 1000);
    handle_drag(&mut p, anchor, cursor, screen, true, false);
    let ex = 300.0 * (100.0 / 12500f64.sqrt());
    let ey = 300.0 * (50.0 / 12500f64.sqrt());
    assert!((pixels(p.x.raw) - ex).abs() < 0.05, "x: {} vs {}", pixels(p.x.raw), ex);
    assert!((pixels(p.y.raw) - ey).abs() < 0.05, "y: {} vs {}", pixels(p.y.raw), ey);
}

#[test]
fn drag_at_coordinate_limit() {
    // The largest coordinates the resolver accepts: 16384 pixels.
    let mut p = Pt::from_pixels(16384, 16384);
    let anchor = Pt::from_pixels(8192, 8192);
    let cursor = Pt::from_pixels(-16384, -16384);
    let screen = Pt::from_pixels(16384, 16384);
    handle_drag(&mut p, anchor, cursor, screen, false, false);
    assert_eq!((p.x.raw, p.y.raw), (px(0), px(0)));
}
