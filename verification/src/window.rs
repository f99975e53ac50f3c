//! The bounding-geometry calculator.
//!
//! [`compute_window_geometry`] derives the margin-expanded bounding
//! rectangle of the segment's two endpoints, in whole pixels, truncating
//! toward zero, for window placement and resizing.

use vstd::prelude::*;
use crate::fx::{Fx, tdiv, lemma_tdiv_range};
use crate::point::{Pt, within};
use vstd::arithmetic::div_mod::lemma_div_pos_is_pos;

verus! {

/// Half the ruler's visual width, in pixels: the margin added around the
/// segment's bounding box.
pub const RULER_HALF_WIDTH: i64 = 40;

/// The margin in raw fixed-point units.
pub const RULER_HALF_WIDTH_RAW: i128 = 40 * 65536;

/// A window rectangle: position and size in whole pixels.
#[derive(Clone, Copy, PartialEq, Eq, Structural, Debug)]
pub struct WindowGeometry {
    pub x: i64,
    pub y: i64,
    pub w: i64,
    pub h: i64,
}

pub open spec fn imin(a: int, b: int) -> int {
    if a < b { a } else { b }
}

pub open spec fn imax(a: int, b: int) -> int {
    if a < b { b } else { a }
}

/// The rectangle around the two endpoints, expanded by the margin on
/// every side, with each edge truncated toward zero to whole pixels.
pub open spec fn spec_window_geometry(from: (int, int), to: (int, int)) -> (int, int, int, int) {
    let min_x = imin(from.0, to.0) - RULER_HALF_WIDTH_RAW as int;
    let max_x = imax(from.0, to.0) + RULER_HALF_WIDTH_RAW as int;
    let min_y = imin(from.1, to.1) - RULER_HALF_WIDTH_RAW as int;
    let max_y = imax(from.1, to.1) + RULER_HALF_WIDTH_RAW as int;
    (
        tdiv(min_x, 65536),
        tdiv(min_y, 65536),
        tdiv(max_x - min_x, 65536),
        tdiv(max_y - min_y, 65536),
    )
}

/// The margin-expanded bounding rectangle of the segment `from .. to`.
/// The width and height are never negative.
pub fn compute_window_geometry(from: Pt, to: Pt) -> (r: WindowGeometry)
    requires
        within(from@, 0x1000_0000_0000_0000),  // 2^60
        within(to@, 0x1000_0000_0000_0000),
    ensures
        (r.x as int, r.y as int, r.w as int, r.h as int) == spec_window_geometry(from@, to@),
        0 <= r.w,
        0 <= r.h,
{
    let min_x_raw: i128 = if from.x.raw < to.x.raw { from.x.raw } else { to.x.raw };
    let max_x_raw: i128 = if from.x.raw < to.x.raw { to.x.raw } else { from.x.raw };
    let min_y_raw: i128 = if from.y.raw < to.y.raw { from.y.raw } else { to.y.raw };
    let max_y_raw: i128 = if from.y.raw < to.y.raw { to.y.raw } else { from.y.raw };
    let min_x = Fx { raw: min_x_raw - RULER_HALF_WIDTH_RAW };
    let max_x = Fx { raw: max_x_raw + RULER_HALF_WIDTH_RAW };
    let min_y = Fx { raw: min_y_raw - RULER_HALF_WIDTH_RAW };
    let max_y = Fx { raw: max_y_raw + RULER_HALF_WIDTH_RAW };
    proof {
        lemma_tdiv_range(min_x.raw as int, 65536, 0x2000_0000_0000);  // 2^45
        lemma_tdiv_range(min_y.raw as int, 65536, 0x2000_0000_0000);
        lemma_tdiv_range(max_x.raw - min_x.raw, 65536, 0x4000_0000_0000);  // 2^46
        lemma_tdiv_range(max_y.raw - min_y.raw, 65536, 0x4000_0000_0000);
        lemma_div_pos_is_pos(max_x.raw - min_x.raw, 65536);
        lemma_div_pos_is_pos(max_y.raw - min_y.raw, 65536);
    }
    let x = min_x.to_pixels();
    let y = min_y.to_pixels();
    let w = max_x.sub(min_x).to_pixels();
    let h = max_y.sub(min_y).to_pixels();
    WindowGeometry { x: x as i64, y: y as i64, w: w as i64, h: h as i64 }
}

/// Hit-test and visual radius of an endpoint control, in pixels.
pub const CONTROL_RADIUS: i64 = 20;

/// The control radius in raw fixed-point units.
pub const CONTROL_RADIUS_RAW: i128 = 20 * 65536;

/// The square input region around one endpoint control: a box of twice
/// the control radius whose corner sits one radius up and left of the
/// endpoint, truncated to whole pixels.
pub open spec fn spec_control_rect(p: (int, int)) -> (int, int, int, int) {
    (
        tdiv(p.0 - CONTROL_RADIUS_RAW as int, 65536),
        tdiv(p.1 - CONTROL_RADIUS_RAW as int, 65536),
        2 * CONTROL_RADIUS as int,
        2 * CONTROL_RADIUS as int,
    )
}

/// The input-accepting rectangle around one endpoint control, for the
/// window shape mask.
pub fn control_rect(p: Pt) -> (r: WindowGeometry)
    requires
        within(p@, 0x1000_0000_0000_0000),
    ensures
        (r.x as int, r.y as int, r.w as int, r.h as int) == spec_control_rect(p@),
{
    let cx = Fx { raw: p.x.raw - CONTROL_RADIUS_RAW };
    let cy = Fx { raw: p.y.raw - CONTROL_RADIUS_RAW };
    proof {
        lemma_tdiv_range(cx.raw as int, 65536, 0x2000_0000_0000);  // 2^45
        lemma_tdiv_range(cy.raw as int, 65536, 0x2000_0000_0000);
    }
    let x = cx.to_pixels();
    let y = cy.to_pixels();
    WindowGeometry { x: x as i64, y: y as i64, w: 2 * CONTROL_RADIUS, h: 2 * CONTROL_RADIUS }
}

/// The bounding rectangle is a pure function of the two endpoints: two
/// computations for the same inputs yield the identical rectangle.
pub proof fn lemma_window_geometry_deterministic(
    from: Pt, to: Pt, r1: WindowGeometry, r2: WindowGeometry,
)
    requires
        (r1.x as int, r1.y as int, r1.w as int, r1.h as int) == spec_window_geometry(from@, to@),
        (r2.x as int, r2.y as int, r2.w as int, r2.h as int) == spec_window_geometry(from@, to@),
    ensures
        r1 == r2,
{
}

} // verus!
