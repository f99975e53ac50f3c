//! Points and vectors in screen space.
//!
//! A [`Pt`] is a pair of fixed-point coordinates.  Its mathematical model
//! (the view `p@`) is the pair of raw integer values; every vector
//! operation has a spec-level counterpart over such pairs, so contracts
//! can compose them.

use vstd::prelude::*;
use crate::fx::{
    Fx, RAW_BOUND, fxm, fxd, fxs, tdiv, sqrt_floor,
    lemma_mul_bounds, lemma_tdiv_range, lemma_square_fxm_nonneg,
    lemma_sqrt_floor_props, lemma_sqrt_floor_ge,
};
use vstd::arithmetic::div_mod::{lemma_fundamental_div_mod, lemma_mod_bound};

verus! {

/// A point (or vector) in screen space, in fixed-point coordinates.
#[derive(Clone, Copy, PartialEq, Eq, Structural, Debug)]
pub struct Pt {
    pub x: Fx,
    pub y: Fx,
}

impl View for Pt {
    type V = (int, int);

    open spec fn view(&self) -> (int, int) {
        (self.x.raw as int, self.y.raw as int)
    }
}

/// Both raw coordinates of `v` lie within `k`.
pub open spec fn within(v: (int, int), k: int) -> bool {
    -k <= v.0 <= k && -k <= v.1 <= k
}

pub open spec fn vadd(a: (int, int), b: (int, int)) -> (int, int) {
    (a.0 + b.0, a.1 + b.1)
}

pub open spec fn vsub(a: (int, int), b: (int, int)) -> (int, int) {
    (a.0 - b.0, a.1 - b.1)
}

/// Componentwise fixed-point scaling of `v` by `t`.
pub open spec fn vscale(v: (int, int), t: int) -> (int, int) {
    (fxm(v.0, t), fxm(v.1, t))
}

pub open spec fn vdot(a: (int, int), b: (int, int)) -> int {
    fxm(a.0, b.0) + fxm(a.1, b.1)
}

pub open spec fn vlen_sq(v: (int, int)) -> int {
    vdot(v, v)
}

pub open spec fn vdist_sq(a: (int, int), b: (int, int)) -> int {
    vlen_sq(vsub(a, b))
}

pub open spec fn vdist(a: (int, int), b: (int, int)) -> int {
    fxs(vdist_sq(a, b))
}

/// Normalization with the degenerate-case fallback: a zero-length vector
/// normalizes to the unit vector along x.
pub open spec fn vnormalize(v: (int, int)) -> (int, int) {
    let len = fxs(vlen_sq(v));
    if len == 0 {
        (65536, 0)
    } else {
        (fxd(v.0, len), fxd(v.1, len))
    }
}

pub open spec fn clampi(x: int, lo: int, hi: int) -> int {
    if x < lo { lo } else if x > hi { hi } else { x }
}

/// Componentwise clamp of `v` into the box `[lo, hi]`.
pub open spec fn vclamp(v: (int, int), lo: (int, int), hi: (int, int)) -> (int, int) {
    (clampi(v.0, lo.0, hi.0), clampi(v.1, lo.1, hi.1))
}

/// Bounds on the two fixed-point squares that make up `vdist_sq`, derived
/// from componentwise bounds on the difference vector.
pub proof fn lemma_dist_sq_bound(a: (int, int), b: (int, int), k: int)
    requires
        0 <= k,
        within(vsub(a, b), k),
    ensures
        0 <= vdist_sq(a, b) <= 2 * tdiv(k * k, 65536) + 2,
        -(k * k) <= (a.0 - b.0) * (a.0 - b.0) <= k * k,
        -(k * k) <= (a.1 - b.1) * (a.1 - b.1) <= k * k,
{
    let dx = a.0 - b.0;
    let dy = a.1 - b.1;
    lemma_mul_bounds(dx, dx, k, k);
    lemma_mul_bounds(dy, dy, k, k);
    lemma_square_fxm_nonneg(dx);
    lemma_square_fxm_nonneg(dy);
    assert(0 <= k * k) by (nonlinear_arith)
        requires 0 <= k;
    lemma_tdiv_mono_helper(k * k);
    lemma_tdiv_range(dx * dx, 65536, tdiv(k * k, 65536) + 1);
    lemma_tdiv_range(dy * dy, 65536, tdiv(k * k, 65536) + 1);
}

proof fn lemma_tdiv_mono_helper(m: int)
    requires
        0 <= m,
    ensures
        m <= (tdiv(m, 65536) + 1) * 65536,
        0 <= tdiv(m, 65536),
{
    lemma_fundamental_div_mod(m, 65536);
    lemma_mod_bound(m, 65536);
    vstd::arithmetic::div_mod::lemma_div_pos_is_pos(m, 65536);
}

impl Pt {
    /// A point from whole pixel coordinates.
    pub fn from_pixels(px: i64, py: i64) -> (r: Pt)
        ensures
            r@ == (px * 65536, py * 65536),
    {
        Pt { x: Fx::from_pixels(px), y: Fx::from_pixels(py) }
    }

    pub fn add(self, o: Pt) -> (r: Pt)
        requires
            -RAW_BOUND <= self@.0 + o@.0 <= RAW_BOUND,
            -RAW_BOUND <= self@.1 + o@.1 <= RAW_BOUND,
        ensures
            r@ == vadd(self@, o@),
    {
        Pt { x: self.x.add(o.x), y: self.y.add(o.y) }
    }

    pub fn sub(self, o: Pt) -> (r: Pt)
        requires
            -RAW_BOUND <= self@.0 - o@.0 <= RAW_BOUND,
            -RAW_BOUND <= self@.1 - o@.1 <= RAW_BOUND,
        ensures
            r@ == vsub(self@, o@),
    {
        Pt { x: self.x.sub(o.x), y: self.y.sub(o.y) }
    }

    pub fn scale(self, t: Fx) -> (r: Pt)
        requires
            -RAW_BOUND <= self@.0 * t.raw <= RAW_BOUND,
            -RAW_BOUND <= self@.1 * t.raw <= RAW_BOUND,
        ensures
            r@ == vscale(self@, t.raw as int),
    {
        Pt { x: self.x.mul(t), y: self.y.mul(t) }
    }

    pub fn dot(self, o: Pt) -> (r: Fx)
        requires
            -RAW_BOUND <= self@.0 * o@.0 <= RAW_BOUND,
            -RAW_BOUND <= self@.1 * o@.1 <= RAW_BOUND,
        ensures
            r.raw == vdot(self@, o@),
    {
        self.x.mul(o.x).add(self.y.mul(o.y))
    }

    /// Squared Euclidean distance, in fixed point.
    pub fn distance_squared(self, o: Pt) -> (r: Fx)
        requires
            within(vsub(self@, o@), 0x8000_0000_0000_0000),  // 2^63
        ensures
            r.raw == vdist_sq(self@, o@),
            0 <= r.raw,
    {
        proof {
            lemma_dist_sq_bound(self@, o@, 0x8000_0000_0000_0000);
        }
        let d = self.sub(o);
        d.dot(d)
    }

    /// Euclidean distance, in fixed point, rounded down.
    pub fn distance(self, o: Pt) -> (r: Fx)
        requires
            within(vsub(self@, o@), 0x5000_0000_0000_0000),
        ensures
            r.raw == vdist(self@, o@),
            0 <= r.raw <= 0x8000_0000_0000_0000,
    {
        proof {
            lemma_dist_sq_bound(self@, o@, 0x5000_0000_0000_0000);
        }
        let ds = self.distance_squared(o);
        ds.sqrt()
    }

    /// The direction of `self`, or the unit vector along x when `self` has
    /// (fixed-point) length zero.  The result's coordinates never exceed
    /// two units (raw 131072).
    pub fn normalize_or_x(self) -> (r: Pt)
        requires
            within(self@, 0x5000_0000_0000_0000),
        ensures
            r@ == vnormalize(self@),
            within(r@, 131072),
    {
        proof {
            lemma_mul_bounds(self@.0, self@.0, 0x5000_0000_0000_0000, 0x5000_0000_0000_0000);
            lemma_mul_bounds(self@.1, self@.1, 0x5000_0000_0000_0000, 0x5000_0000_0000_0000);
            lemma_square_fxm_nonneg(self@.0);
            lemma_square_fxm_nonneg(self@.1);
            lemma_tdiv_range(self@.0 * self@.0, 65536, 0x1900_0000_0000_0000_0000_0000_0000);
            lemma_tdiv_range(self@.1 * self@.1, 65536, 0x1900_0000_0000_0000_0000_0000_0000);
        }
        let ls = self.dot(self);
        let len = ls.sqrt();
        if len.raw == 0 {
            Pt { x: Fx::from_pixels(1), y: Fx::zero() }
        } else {
            proof {
                lemma_normalize_component_bound(self@.0, ls.raw as int, len.raw as int);
                lemma_normalize_component_bound(self@.1, ls.raw as int, len.raw as int);
            }
            Pt { x: self.x.div(len), y: self.y.div(len) }
        }
    }

    /// Componentwise clamp into the box `[lo, hi]`.
    pub fn clamp(self, lo: Pt, hi: Pt) -> (r: Pt)
        requires
            lo@.0 <= hi@.0,
            lo@.1 <= hi@.1,
        ensures
            r@ == vclamp(self@, lo@, hi@),
    {
        let cx: Fx = if self.x.raw < lo.x.raw {
            lo.x
        } else if self.x.raw > hi.x.raw {
            hi.x
        } else {
            self.x
        };
        let cy: Fx = if self.y.raw < lo.y.raw {
            lo.y
        } else if self.y.raw > hi.y.raw {
            hi.y
        } else {
            self.y
        };
        Pt { x: cx, y: cy }
    }
}

/// A normalized component never exceeds two units: from
/// `c^2 < (ls + 1) * 65536` and `ls * 65536 < (len + 1)^2` follows
/// `|c| <= len + 256`, and `len >= 256` whenever `len >= 1`.
proof fn lemma_normalize_component_bound(c: int, ls: int, len: int)
    requires
        1 <= len,
        fxm(c, c) <= ls,
        len == fxs(ls),
        0 <= ls,
    ensures
        -(131072 * len) <= c * 65536 <= 131072 * len,
        fxd(c, len) <= 131072,
        -131072 <= fxd(c, len),
{
    // len >= 1 forces ls >= 1, hence len >= 256.
    lemma_sqrt_floor_props(ls * 65536);
    assert(ls >= 1);
    lemma_sqrt_floor_ge(ls * 65536, 256);
    // c * c < (fxm(c, c) + 1) * 65536 <= (ls + 1) * 65536
    lemma_fundamental_div_mod(c * c, 65536);
    lemma_mod_bound(c * c, 65536);
    assert(0 <= c * c) by (nonlinear_arith);
    assert(c * c < (ls + 1) * 65536);
    // (ls + 1) * 65536 < (len + 1)^2 + 65536 <= (len + 257)^2
    assert(ls * 65536 < (len + 1) * (len + 1));
    assert((len + 1) * (len + 1) + 65536 <= (len + 257) * (len + 257)) by (nonlinear_arith)
        requires 256 <= len;
    assert(c * c < (len + 257) * (len + 257));
    assert(-(len + 256) <= c <= len + 256) by (nonlinear_arith)
        requires c * c < (len + 257) * (len + 257), 0 <= len;
    // |c| <= len + 256 <= 2 * len gives |c * 65536| <= 131072 * len.
    assert(len + 256 <= 2 * len);
    assert(-(131072 * len) <= c * 65536 <= 131072 * len) by (nonlinear_arith)
        requires -(2 * len) <= c <= 2 * len, 0 <= len;
    lemma_tdiv_range(c * 65536, len, 131072);
}

} // verus!
