//! Line/circle geometry: the quadratic solver, the circle/line
//! intersector, and the half-plane arc clamp.
//!
//! Each executable function returns exactly the value of its spec-level
//! counterpart, so callers can reason about compositions of these
//! routines down to the raw fixed-point unit.

use vstd::prelude::*;
use crate::fx::{
    Fx, fxm, fxd, fxs, tdiv, sqrt_floor,
    lemma_mul_bounds, lemma_tdiv_range, lemma_tdiv_mono, lemma_square_fxm_nonneg,
    lemma_sqrt_floor_props, lemma_sqrt_floor_le,
};
use crate::point::{
    Pt, within, vadd, vsub, vscale, vdot, vlen_sq, vdist_sq, lemma_dist_sq_bound,
};

verus! {

/// The discriminant `b^2 - 4ac`, as the fixed-point evaluation computes it
/// (262144 is the fixed-point constant four).
pub open spec fn spec_disc(a: int, b: int, c: int) -> int {
    fxm(b, b) - fxm(fxm(262144, a), c)
}

/// The two roots `(-b -+ sqrt(d)) / 2a`, in fixed point; meaningful when
/// `spec_disc(a, b, c) >= 0` and `a >= 1`.
pub open spec fn spec_roots(a: int, b: int, c: int) -> (int, int) {
    let sd = fxs(spec_disc(a, b, c));
    (fxd(-b - sd, 2 * a), fxd(-b + sd, 2 * a))
}

/// Real roots of `a*t^2 + b*t + c == 0`, smaller root first; `None`
/// exactly when the discriminant is negative.
pub fn solve_quadratic(a: Fx, b: Fx, c: Fx) -> (r: Option<(Fx, Fx)>)
    requires
        1 <= a.raw <= 0x100_0000_0000,  // 2^40
        -0x4_0000_0000_0000 <= b.raw <= 0x4_0000_0000_0000,  // 2^50
        -0x40_0000_0000_0000_0000 <= c.raw <= 0x40_0000_0000_0000_0000,  // 2^70
    ensures
        (r is Some) <==> spec_disc(a.raw as int, b.raw as int, c.raw as int) >= 0,
        (match r {
            Some(t) => {
                &&& t.0.raw == spec_roots(a.raw as int, b.raw as int, c.raw as int).0
                &&& t.1.raw == spec_roots(a.raw as int, b.raw as int, c.raw as int).1
                &&& t.0.raw <= t.1.raw
            }
            None => true,
        }),
{
    proof {
        lemma_mul_bounds(b.raw as int, b.raw as int, 0x4_0000_0000_0000, 0x4_0000_0000_0000);
        lemma_mul_bounds(
            fxm(262144, a.raw as int), c.raw as int,
            0x400_0000_0000, 0x40_0000_0000_0000_0000,
        );
        lemma_tdiv_range(262144 * (a.raw as int), 65536, 0x400_0000_0000);
    }
    let four = Fx::from_pixels(4);
    let bb = b.mul(b);
    let fac = four.mul(a).mul(c);
    let d = bb.sub(fac);
    if d.raw < 0 {
        None
    } else {
        let sd = d.sqrt();
        let two_a = a.add(a);
        let t1 = b.neg().sub(sd).div(two_a);
        let t2 = b.neg().add(sd).div(two_a);
        proof {
            lemma_tdiv_mono(
                (-(b.raw as int) - sd.raw) * 65536,
                (-(b.raw as int) + sd.raw) * 65536,
                2 * (a.raw as int),
            );
        }
        Some((t1, t2))
    }
}

/// Bounds on the discriminant and the roots when the coefficients come
/// from a circle/line configuration within the solver's working range.
pub proof fn lemma_root_bounds(a: int, b: int, c: int)
    requires
        1 <= a <= 0x8_0000,  // 2^19
        -0x200_0000_0000 <= b <= 0x200_0000_0000,  // 2^41
        -0x2000_0000_0000_0000 <= c <= 0x2000_0000_0000_0000,  // 2^61
    ensures
        -0x8_0000_0000_0000_0000 <= spec_disc(a, b, c) <= 0x8_0000_0000_0000_0000,  // 2^67
        spec_disc(a, b, c) >= 0 ==> {
            &&& -0x400_0000_0000_0000 <= spec_roots(a, b, c).0 <= 0x400_0000_0000_0000  // 2^58
            &&& -0x400_0000_0000_0000 <= spec_roots(a, b, c).1 <= 0x400_0000_0000_0000
        },
{
    lemma_mul_bounds(b, b, 0x200_0000_0000, 0x200_0000_0000);
    lemma_tdiv_range(b * b, 65536, 0x4_0000_0000_0000_0000);  // fxm(b,b) <= 2^66
    lemma_tdiv_range(262144 * a, 65536, 0x20_0000);  // fxm(4, a) <= 2^21
    lemma_mul_bounds(fxm(262144, a), c, 0x20_0000, 0x2000_0000_0000_0000);
    lemma_tdiv_range(fxm(262144, a) * c, 65536, 0x4_0000_0000_0000_0000);
    let d = spec_disc(a, b, c);
    if d >= 0 {
        let sd = fxs(d);
        lemma_sqrt_floor_props(d * 65536);
        lemma_sqrt_floor_le(d * 65536, 0x400_0000_0000);  // sd <= 2^42
        assert(0x400_0000_0000_0000 * (2 * a) >= 0x800_0000_0000_0000);
        lemma_tdiv_range((-b - sd) * 65536, 2 * a, 0x400_0000_0000_0000);
        lemma_tdiv_range((-b + sd) * 65536, 2 * a, 0x400_0000_0000_0000);
    }
}

/// The quadratic's coefficients for the circle/line configuration
/// (131072 is the fixed-point constant two).
pub open spec fn spec_circle_coeffs(
    center: (int, int), radius: int, start: (int, int), dir: (int, int),
) -> (int, int, int) {
    (
        vlen_sq(dir),
        fxm(131072, vdot(dir, vsub(start, center))),
        vdist_sq(start, center) - fxm(radius, radius),
    )
}

/// Where the line `start + t * dir` crosses the circle around `center`
/// with the given radius: the points for the two roots, in root order,
/// or `None` when the line misses the circle.
pub open spec fn spec_circle_intersect(
    center: (int, int), radius: int, start: (int, int), dir: (int, int),
) -> Option<((int, int), (int, int))> {
    let co = spec_circle_coeffs(center, radius, start, dir);
    if spec_disc(co.0, co.1, co.2) < 0 {
        None
    } else {
        let ts = spec_roots(co.0, co.1, co.2);
        Some((vadd(start, vscale(dir, ts.0)), vadd(start, vscale(dir, ts.1))))
    }
}

/// Intersection of the directed line `start + t * dir` with the circle of
/// the given `center` and `radius`.  Returns `None` exactly when the line
/// misses the circle; the two returned points are in root order, which
/// orders them along `dir`.
pub fn circle_intersect(center: Pt, radius: Fx, start: Pt, dir: Pt) -> (r: Option<(Pt, Pt)>)
    requires
        within(center@, 0x10_0000_0000),  // 2^36
        within(start@, 0x10_0000_0000),
        0 <= radius.raw <= 0x10_0000_0000,
        within(dir@, 131072),  // two units
        1 <= vlen_sq(dir@),
    ensures
        (r is Some) <==> (spec_circle_intersect(
            center@, radius.raw as int, start@, dir@) is Some),
        (match r {
            Some(ps) => {
                &&& spec_circle_intersect(center@, radius.raw as int, start@, dir@)
                    == Some((ps.0@, ps.1@))
                &&& within(ps.0@, 0x1000_0000_0000_0000)  // 2^60
                &&& within(ps.1@, 0x1000_0000_0000_0000)
            }
            None => true,
        }),
{
    proof {
        lemma_mul_bounds(dir@.0, dir@.0, 131072, 131072);
        lemma_mul_bounds(dir@.1, dir@.1, 131072, 131072);
        lemma_tdiv_range(dir@.0 * dir@.0, 65536, 262144);
        lemma_tdiv_range(dir@.1 * dir@.1, 65536, 262144);
    }
    let a = dir.dot(dir);
    let sc = start.sub(center);
    proof {
        lemma_mul_bounds(dir@.0, sc@.0, 131072, 0x20_0000_0000);
        lemma_mul_bounds(dir@.1, sc@.1, 131072, 0x20_0000_0000);
        lemma_tdiv_range(dir@.0 * sc@.0, 65536, 0x40_0000_0000);  // 2^38
        lemma_tdiv_range(dir@.1 * sc@.1, 65536, 0x40_0000_0000);
    }
    let dt = dir.dot(sc);
    proof {
        lemma_tdiv_range(131072 * (dt.raw as int), 65536, 0x100_0000_0000);  // 2*dt <= 2^40
    }
    let b = Fx::from_pixels(2).mul(dt);
    proof {
        lemma_dist_sq_bound(start@, center@, 0x20_0000_0000);  // diff within 2^37
        lemma_mul_bounds(radius.raw as int, radius.raw as int, 0x10_0000_0000, 0x10_0000_0000);
        lemma_tdiv_range((radius.raw as int) * (radius.raw as int), 65536, 0x100_0000_0000_0000);
    }
    let ds = start.distance_squared(center);
    let c = ds.sub(radius.mul(radius));
    proof {
        lemma_root_bounds(a.raw as int, b.raw as int, c.raw as int);
    }
    match solve_quadratic(a, b, c) {
        Some(ts) => {
            proof {
                lemma_mul_bounds(dir@.0, ts.0.raw as int, 131072, 0x400_0000_0000_0000);
                lemma_mul_bounds(dir@.1, ts.0.raw as int, 131072, 0x400_0000_0000_0000);
                lemma_mul_bounds(dir@.0, ts.1.raw as int, 131072, 0x400_0000_0000_0000);
                lemma_mul_bounds(dir@.1, ts.1.raw as int, 131072, 0x400_0000_0000_0000);
                lemma_tdiv_range(dir@.0 * (ts.0.raw as int), 65536, 0x800_0000_0000_0000);
                lemma_tdiv_range(dir@.1 * (ts.0.raw as int), 65536, 0x800_0000_0000_0000);
                lemma_tdiv_range(dir@.0 * (ts.1.raw as int), 65536, 0x800_0000_0000_0000);
                lemma_tdiv_range(dir@.1 * (ts.1.raw as int), 65536, 0x800_0000_0000_0000);
            }
            let p1 = start.add(dir.scale(ts.0));
            let p2 = start.add(dir.scale(ts.1));
            Some((p1, p2))
        }
        None => None,
    }
}

/// Implicit form of the boundary line through `start` along `dir`,
/// scaled by the (negated, sign-adjusted) length of its normal.
pub open spec fn spec_line_coeffs(start: (int, int), dir: (int, int)) -> (int, int, int) {
    let a0 = dir.1;
    let b0 = -dir.0;
    let c0 = fxm(start.1, dir.0) - fxm(start.0, dir.1);
    let n = fxs(fxm(a0, a0) + fxm(b0, b0));
    let coef = if c0 >= 0 { -n } else { n };
    (fxm(a0, coef), fxm(b0, coef), fxm(c0, coef))
}

/// The line, oriented so that evaluating it at `center` is non-negative.
pub open spec fn spec_oriented_line(
    center: (int, int), start: (int, int), dir: (int, int),
) -> (int, int, int) {
    let l = spec_line_coeffs(start, dir);
    if fxm(l.0, center.0) + fxm(l.1, center.1) + l.2 < 0 {
        (-l.0, -l.1, -l.2)
    } else {
        l
    }
}

pub open spec fn spec_line_eval(l: (int, int, int), p: (int, int)) -> int {
    fxm(l.0, p.0) + fxm(l.1, p.1) + l.2
}

/// Which branch the arc clamp took: the point was already on the
/// permitted side (or no side is forbidden), it moved to a circle/line
/// intersection, or the boundary line missed the circle entirely and the
/// point came back unchanged -- the fail-soft anomaly a caller may want
/// to observe.
#[derive(Clone, Copy, PartialEq, Eq, Structural, Debug)]
pub enum ArcClampOutcome {
    Permitted,
    Moved,
    BoundaryMissedCircle,
}

/// The half-plane arc clamp, with the branch it took.  A boundary line
/// through the circle's center divides the circle in half and forbids
/// neither side: every point is permitted there.  Otherwise the line is
/// oriented so that the center's side is permitted; a point strictly on
/// that side comes back unchanged, one that crossed over moves to the
/// circle/line intersection nearer to it, and when the line misses the
/// circle the point comes back unchanged (fail-soft).
pub open spec fn spec_arc_clamp(
    center: (int, int), radius: int, start: (int, int), dir: (int, int), point: (int, int),
) -> ((int, int), ArcClampOutcome) {
    let l = spec_line_coeffs(start, dir);
    if spec_line_eval(l, center) == 0 {
        (point, ArcClampOutcome::Permitted)
    } else {
        let lo = spec_oriented_line(center, start, dir);
        if spec_line_eval(lo, point) > 0 {
            (point, ArcClampOutcome::Permitted)
        } else {
            match spec_circle_intersect(center, radius, start, dir) {
                Some(ps) => (
                    if vdist_sq(ps.0, point) < vdist_sq(ps.1, point) { ps.0 } else { ps.1 },
                    ArcClampOutcome::Moved,
                ),
                None => (point, ArcClampOutcome::BoundaryMissedCircle),
            }
        }
    }
}

/// The point the arc clamp returns.
pub open spec fn spec_closest_point_below_line_on_circle(
    center: (int, int), radius: int, start: (int, int), dir: (int, int), point: (int, int),
) -> (int, int) {
    spec_arc_clamp(center, radius, start, dir, point).0
}

/// The half-plane arc clamp, reporting the branch taken beside the
/// resulting point, so a caller can observe the fail-soft anomaly of a
/// boundary line that misses the circle.
pub fn arc_clamp_with_outcome(
    center: Pt, radius: Fx, start: Pt, dir: Pt, point: Pt,
) -> (r: (Pt, ArcClampOutcome))
    requires
        within(center@, 0x10_0000_0000),  // 2^36
        within(start@, 0x10_0000_0000),
        0 <= radius.raw <= 0x10_0000_0000,
        within(dir@, 131072),
        1 <= vlen_sq(dir@),
        within(point@, 0x1000_0000_0000_0000),  // 2^60
    ensures
        (r.0@, r.1) == spec_arc_clamp(center@, radius.raw as int, start@, dir@, point@),
        within(r.0@, 0x1000_0000_0000_0000),
{
    let a0 = dir.y;
    let b0 = dir.x.neg();
    proof {
        lemma_mul_bounds(start@.1, dir@.0, 0x10_0000_0000, 131072);
        lemma_mul_bounds(start@.0, dir@.1, 0x10_0000_0000, 131072);
        lemma_tdiv_range(start@.1 * dir@.0, 65536, 0x20_0000_0000);  // 2^37
        lemma_tdiv_range(start@.0 * dir@.1, 65536, 0x20_0000_0000);
        lemma_mul_bounds(a0.raw as int, a0.raw as int, 131072, 131072);
        lemma_mul_bounds(b0.raw as int, b0.raw as int, 131072, 131072);
        lemma_tdiv_range((a0.raw as int) * (a0.raw as int), 65536, 262144);
        lemma_tdiv_range((b0.raw as int) * (b0.raw as int), 65536, 262144);
        lemma_square_fxm_nonneg(a0.raw as int);
        lemma_square_fxm_nonneg(b0.raw as int);
    }
    let c0 = start.y.mul(dir.x).sub(start.x.mul(dir.y));
    let n2 = a0.mul(a0).add(b0.mul(b0));
    let n = n2.sqrt();
    proof {
        lemma_sqrt_floor_le((n2.raw as int) * 65536, 0x4_0000);  // n <= 2^18
    }
    let coef = if c0.raw >= 0 { n.neg() } else { n };
    proof {
        lemma_mul_bounds(a0.raw as int, coef.raw as int, 131072, 0x4_0000);
        lemma_mul_bounds(b0.raw as int, coef.raw as int, 131072, 0x4_0000);
        lemma_mul_bounds(c0.raw as int, coef.raw as int, 0x40_0000_0000, 0x4_0000);
        lemma_tdiv_range((a0.raw as int) * (coef.raw as int), 65536, 0x8_0000);  // 2^19
        lemma_tdiv_range((b0.raw as int) * (coef.raw as int), 65536, 0x8_0000);
        lemma_tdiv_range((c0.raw as int) * (coef.raw as int), 65536, 0x100_0000_0000);  // 2^40
    }
    let la = a0.mul(coef);
    let lb = b0.mul(coef);
    let lc = c0.mul(coef);
    proof {
        lemma_mul_bounds(la.raw as int, center@.0, 0x8_0000, 0x10_0000_0000);
        lemma_mul_bounds(lb.raw as int, center@.1, 0x8_0000, 0x10_0000_0000);
        lemma_tdiv_range((la.raw as int) * center@.0, 65536, 0x80_0000_0000);  // 2^39
        lemma_tdiv_range((lb.raw as int) * center@.1, 65536, 0x80_0000_0000);
    }
    let ec = la.mul(center.x).add(lb.mul(center.y)).add(lc);
    if ec.raw == 0 {
        // The boundary runs through the circle's center: no side is
        // forbidden.
        return (point, ArcClampOutcome::Permitted);
    }
    let (la, lb, lc) = if ec.raw < 0 {
        (la.neg(), lb.neg(), lc.neg())
    } else {
        (la, lb, lc)
    };
    proof {
        lemma_mul_bounds(la.raw as int, point@.0, 0x8_0000, 0x1000_0000_0000_0000);
        lemma_mul_bounds(lb.raw as int, point@.1, 0x8_0000, 0x1000_0000_0000_0000);
        lemma_tdiv_range((la.raw as int) * point@.0, 65536, 0x8000_0000_0000_0000_0);  // 2^67
        lemma_tdiv_range((lb.raw as int) * point@.1, 65536, 0x8000_0000_0000_0000_0);
    }
    let ep = la.mul(point.x).add(lb.mul(point.y)).add(lc);
    if ep.raw > 0 {
        (point, ArcClampOutcome::Permitted)
    } else {
        match circle_intersect(center, radius, start, dir) {
            Some(ps) => {
                let d1 = ps.0.distance_squared(point);
                let d2 = ps.1.distance_squared(point);
                if d1.raw < d2.raw {
                    (ps.0, ArcClampOutcome::Moved)
                } else {
                    (ps.1, ArcClampOutcome::Moved)
                }
            }
            None => (point, ArcClampOutcome::BoundaryMissedCircle),
        }
    }
}

/// Keeps `point`, constrained to the circle around `center`, on the side
/// of the boundary line through `start` along `dir` that contains
/// `center`.  A point already strictly on the permitted side comes back
/// unchanged, as does every point when the line runs through `center`
/// itself (no side is forbidden there); one that crossed over moves to
/// the nearer circle/line intersection.
pub fn closest_point_below_line_on_circle(
    center: Pt, radius: Fx, start: Pt, dir: Pt, point: Pt,
) -> (r: Pt)
    requires
        within(center@, 0x10_0000_0000),  // 2^36
        within(start@, 0x10_0000_0000),
        0 <= radius.raw <= 0x10_0000_0000,
        within(dir@, 131072),
        1 <= vlen_sq(dir@),
        within(point@, 0x1000_0000_0000_0000),  // 2^60
    ensures
        r@ == spec_closest_point_below_line_on_circle(
            center@, radius.raw as int, start@, dir@, point@),
        within(r@, 0x1000_0000_0000_0000),
        spec_line_eval(spec_oriented_line(center@, start@, dir@), point@) > 0 ==> r@ == point@,
        spec_line_eval(spec_line_coeffs(start@, dir@), center@) == 0 ==> r@ == point@,
{
    let r = arc_clamp_with_outcome(center, radius, start, dir, point);
    r.0
}

} // verus!
