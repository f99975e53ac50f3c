//! Tests of session setup: initial placement and version negotiation.

use ruler::point::Pt;
use ruler::session::initial_placement;
use ruler::session::should_update;
use ruler::versions::check_versions;

fn px(p: i64) -> i128 {
    (p as i128) * 65536
}

#[test]
fn initial_placement_centers_the_segment() {
    // Screen 1920 x 1080: from at ((1920 - 400) / 2 + 40, 1080 / 2 + 40),
    // to at 400 pixels east of it.
    let (from, to) = initial_placement(Pt::from_pixels(1920, 1080));
    assert_eq!((from.x.raw, from.y.raw), (px(800), px(580)));
    assert_eq!((to.x.raw, to.y.raw), (px(1200), px(580)));
}

#[test]
fn matching_major_versions_are_accepted() {
    assert!(check_versions(0, 11, 0, 11).is_ok());
    assert!(check_versions(0, 11, 0, 9).is_ok());
}

#[test]
fn mismatched_major_versions_are_reported() {
    let e = check_versions(0, 11, 2, 1).unwrap_err();
    assert_eq!(e.client_major_version, 0);
    assert_eq!(e.client_minor_version, 11);
    assert_eq!(e.server_major_version, 2);
    assert_eq!(e.server_minor_version, 1);
}

#[test]
fn update_throttle_passes_forced_and_late_updates() {
    assert!(should_update(true, 0));
    assert!(!should_update(false, 0));
    assert!(!should_update(false, 16));
    assert!(should_update(false, 17));
}
