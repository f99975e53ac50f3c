//! The drag constraint solver.
//!
//! [`handle_drag`] resolves a raw cursor position into the new position of
//! the dragged endpoint, applying in order: the distance lock (with four
//! arc clamps against the screen edges), the angle lock, the minimum
//! segment length, and the final componentwise clamp to the screen.

use vstd::prelude::*;
use crate::fx::{Fx, lemma_mul_bounds, lemma_tdiv_range, lemma_sqrt_floor_le};
use crate::point::{
    Pt, within, vadd, vsub, vscale, vdist_sq, vdist, vnormalize, vclamp,
    lemma_dist_sq_bound,
};
use crate::geom::{
    closest_point_below_line_on_circle, spec_closest_point_below_line_on_circle,
};

verus! {

/// Minimum permitted segment length, in pixels.
pub const MIN_LENGTH: i64 = 200;

/// `MIN_LENGTH` in raw fixed-point units.
pub const MIN_LENGTH_RAW: i128 = 200 * 65536;

/// The fixed-point square of the minimum length (pixels squared, scaled).
pub const MIN_LENGTH_SQ_RAW: i128 = 40000 * 65536;

/// Coordinates accepted by the drag resolver, raw: 2^30, or 16384 pixels.
pub const DRAG_COORD_LIMIT: i128 = 0x4000_0000;

/// The distance lock: the candidate moves to the old distance from the
/// anchor along its own direction, then slides along that circle past the
/// four screen edges (top, bottom, left, right, in this order).
pub open spec fn spec_drag_step_distance(
    prev: (int, int), other: (int, int), cursor: (int, int), screen: (int, int),
) -> (int, int) {
    let dir = vnormalize(vsub(cursor, other));
    let old_distance = vdist(prev, other);
    let v1 = vadd(other, vscale(dir, old_distance));
    let v2 = spec_closest_point_below_line_on_circle(other, old_distance, (0, 0), (65536, 0), v1);
    let v3 = spec_closest_point_below_line_on_circle(other, old_distance, screen, (65536, 0), v2);
    let v4 = spec_closest_point_below_line_on_circle(other, old_distance, (0, 0), (0, 65536), v3);
    spec_closest_point_below_line_on_circle(other, old_distance, screen, (0, 65536), v4)
}

/// The angle lock: the candidate moves onto the pre-drag direction from
/// the anchor, keeping its current (possibly already clamped) distance.
pub open spec fn spec_drag_step_angle(
    prev: (int, int), other: (int, int), c: (int, int),
) -> (int, int) {
    let dir = vnormalize(vsub(prev, other));
    vadd(other, vscale(dir, vdist(c, other)))
}

/// Minimum-length enforcement: a candidate closer to the anchor than the
/// minimum length moves out to the minimum length along its direction.
pub open spec fn spec_drag_step_min_length(other: (int, int), c: (int, int)) -> (int, int) {
    if vdist_sq(other, c) < MIN_LENGTH_SQ_RAW as int {
        vadd(other, vscale(vnormalize(vsub(c, other)), MIN_LENGTH_RAW as int))
    } else {
        c
    }
}

/// The candidate before the final componentwise clamp.
pub open spec fn spec_drag_candidate(
    prev: (int, int), other: (int, int), cursor: (int, int), screen: (int, int),
    fix_distance: bool, fix_angle: bool,
) -> (int, int) {
    let c1 = if fix_distance {
        spec_drag_step_distance(prev, other, cursor, screen)
    } else {
        cursor
    };
    let c2 = if fix_angle { spec_drag_step_angle(prev, other, c1) } else { c1 };
    spec_drag_step_min_length(other, c2)
}

/// What a drag step resolves to: the constrained candidate, clamped to
/// the screen as the constraint of last resort.
pub open spec fn spec_handle_drag(
    prev: (int, int), other: (int, int), cursor: (int, int), screen: (int, int),
    fix_distance: bool, fix_angle: bool,
) -> (int, int) {
    vclamp(spec_drag_candidate(prev, other, cursor, screen, fix_distance, fix_angle), (0, 0), screen)
}

/// Resolves a drag of the endpoint `dragging` toward `cursor`, with the
/// other endpoint `other` as the anchor.  The result is always inside
/// `[0, screen_size]` componentwise; every degenerate case (zero-length
/// direction, boundary interference) has an explicit fallback and no
/// error is ever raised.
pub fn handle_drag(
    dragging: &mut Pt, other: Pt, cursor: Pt, screen_size: Pt,
    fix_distance: bool, fix_angle: bool,
)
    requires
        within(old(dragging)@, DRAG_COORD_LIMIT as int),
        within(other@, DRAG_COORD_LIMIT as int),
        within(cursor@, DRAG_COORD_LIMIT as int),
        0 <= screen_size@.0 <= DRAG_COORD_LIMIT as int,
        0 <= screen_size@.1 <= DRAG_COORD_LIMIT as int,
    ensures
        final(dragging)@ == spec_handle_drag(
            old(dragging)@, other@, cursor@, screen_size@, fix_distance, fix_angle),
        0 <= final(dragging)@.0 <= screen_size@.0,
        0 <= final(dragging)@.1 <= screen_size@.1,
{
    let prev = *dragging;
    let mut new_vec = cursor;
    if fix_distance {
        proof {
            lemma_dist_sq_bound(prev@, other@, 0x8000_0000);  // diff within 2^31
            lemma_sqrt_floor_le(vdist_sq(prev@, other@) * 65536, 0x1_0000_0000);  // 2^32
        }
        let dir_n = new_vec.sub(other).normalize_or_x();
        let old_distance = prev.distance(other);
        proof {
            lemma_mul_bounds(dir_n@.0, old_distance.raw as int, 131072, 0x1_0000_0000);
            lemma_mul_bounds(dir_n@.1, old_distance.raw as int, 131072, 0x1_0000_0000);
            lemma_tdiv_range(dir_n@.0 * (old_distance.raw as int), 65536, 0x2_0000_0000);  // 2^33
            lemma_tdiv_range(dir_n@.1 * (old_distance.raw as int), 65536, 0x2_0000_0000);
        }
        new_vec = other.add(dir_n.scale(old_distance));
        let origin = Pt::from_pixels(0, 0);
        let unit_x = Pt::from_pixels(1, 0);
        let unit_y = Pt::from_pixels(0, 1);
        new_vec = closest_point_below_line_on_circle(other, old_distance, origin, unit_x, new_vec);
        new_vec = closest_point_below_line_on_circle(
            other, old_distance, screen_size, unit_x, new_vec);
        new_vec = closest_point_below_line_on_circle(other, old_distance, origin, unit_y, new_vec);
        new_vec = closest_point_below_line_on_circle(
            other, old_distance, screen_size, unit_y, new_vec);
    }
    if fix_angle {
        let dir2 = prev.sub(other).normalize_or_x();
        proof {
            // The candidate is within 2^60 raw (either the cursor or an
            // arc-clamp result), so its distance from the anchor is below
            // 25 * 2^56 raw.
            lemma_dist_sq_bound(new_vec@, other@, 0x1100_0000_0000_0000);
            lemma_sqrt_floor_le(
                vdist_sq(new_vec@, other@) * 65536, 0x1900_0000_0000_0000);
        }
        let d = new_vec.distance(other);
        proof {
            lemma_mul_bounds(dir2@.0, d.raw as int, 131072, 0x1900_0000_0000_0000);
            lemma_mul_bounds(dir2@.1, d.raw as int, 131072, 0x1900_0000_0000_0000);
            lemma_tdiv_range(dir2@.0 * (d.raw as int), 65536, 0x3200_0000_0000_0000);
            lemma_tdiv_range(dir2@.1 * (d.raw as int), 65536, 0x3200_0000_0000_0000);
        }
        new_vec = other.add(dir2.scale(d));
    }
    let ds = other.distance_squared(new_vec);
    if ds.raw < MIN_LENGTH_SQ_RAW {
        let dir3 = new_vec.sub(other).normalize_or_x();
        let min_len = Fx::from_pixels(MIN_LENGTH);
        proof {
            lemma_mul_bounds(dir3@.0, MIN_LENGTH_RAW as int, 131072, 0x1000_0000);
            lemma_mul_bounds(dir3@.1, MIN_LENGTH_RAW as int, 131072, 0x1000_0000);
            lemma_tdiv_range(dir3@.0 * (MIN_LENGTH_RAW as int), 65536, 0x8000_0000);
            lemma_tdiv_range(dir3@.1 * (MIN_LENGTH_RAW as int), 65536, 0x8000_0000);
        }
        new_vec = other.add(dir3.scale(min_len));
    }
    let origin = Pt::from_pixels(0, 0);
    *dragging = new_vec.clamp(origin, screen_size);
}

/// The resolver's output invariants.  For every input, the result lies
/// within the screen.  Whenever the pre-clamp candidate already lay
/// within the screen and at or above the minimum length, the result also
/// keeps the minimum segment length; the componentwise clamp is the
/// constraint of last resort and can otherwise shorten the segment.
pub proof fn lemma_drag_invariants(
    prev: (int, int), other: (int, int), cursor: (int, int), screen: (int, int),
    fix_distance: bool, fix_angle: bool,
)
    requires
        0 <= screen.0,
        0 <= screen.1,
    ensures
        0 <= spec_handle_drag(prev, other, cursor, screen, fix_distance, fix_angle).0 <= screen.0,
        0 <= spec_handle_drag(prev, other, cursor, screen, fix_distance, fix_angle).1 <= screen.1,
        ({
            let cand = spec_drag_candidate(prev, other, cursor, screen, fix_distance, fix_angle);
            (vdist_sq(other, cand) >= MIN_LENGTH_SQ_RAW as int
                && 0 <= cand.0 <= screen.0
                && 0 <= cand.1 <= screen.1)
                ==> vdist_sq(
                        other,
                        spec_handle_drag(prev, other, cursor, screen, fix_distance, fix_angle),
                    ) >= MIN_LENGTH_SQ_RAW as int
        }),
{
    let cand = spec_drag_candidate(prev, other, cursor, screen, fix_distance, fix_angle);
    if 0 <= cand.0 <= screen.0 && 0 <= cand.1 <= screen.1 {
        assert(vclamp(cand, (0, 0), screen) == cand);
    }
}

} // verus!
