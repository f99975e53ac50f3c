//! Fixed-point scalars.
//!
//! A screen coordinate is an [`Fx`]: an `i128` counting 1/65536-ths of a
//! pixel.  Multiplication and division truncate toward zero, matching a
//! float-to-integer narrowing, and the square root rounds down.  The spec
//! functions [`fxm`], [`fxd`] and [`fxs`] say exactly what each operation
//! returns, so every contract built on them pins its result down to the
//! last raw unit.

use vstd::prelude::*;
use vstd::arithmetic::div_mod::{
    lemma_div_is_ordered, lemma_div_pos_is_pos, lemma_div_nonincreasing,
    lemma_div_multiples_vanish, lemma_div_decreases,
};

verus! {

/// Raw units per pixel.
pub const SCALE: i128 = 65536;

/// Every raw value handled by the arithmetic below stays within this bound
/// (2^126), which keeps each intermediate product inside `i128`.
pub const RAW_BOUND: i128 = 0x4000_0000_0000_0000_0000_0000_0000_0000;

/// Absolute value of a mathematical integer.
pub open spec fn iabs(x: int) -> int {
    if x < 0 { -x } else { x }
}

/// Division rounding toward zero; meaningful for `b >= 1`.
pub open spec fn tdiv(a: int, b: int) -> int {
    if a >= 0 { a / b } else { -((-a) / b) }
}

/// Floor of the square root of `n` (and 0 for negative `n`).
pub open spec fn sqrt_floor(n: int) -> int
    decreases n,
{
    if n < 1 {
        0
    } else {
        let r = sqrt_floor(n - 1);
        if (r + 1) * (r + 1) <= n { r + 1 } else { r }
    }
}

/// What a fixed-point product is: the integer product, scaled back down
/// with truncation toward zero.
pub open spec fn fxm(x: int, y: int) -> int {
    tdiv(x * y, 65536)
}

/// What a fixed-point quotient is: the numerator scaled up, divided with
/// truncation toward zero.  Meaningful for `y >= 1`.
pub open spec fn fxd(x: int, y: int) -> int {
    tdiv(x * 65536, y)
}

/// What a fixed-point square root is: `sqrt(x / 65536) == sqrt(x * 65536) / 65536`.
pub open spec fn fxs(x: int) -> int {
    sqrt_floor(x * 65536)
}

pub proof fn lemma_sqrt_floor_props(n: int)
    requires
        0 <= n,
    ensures
        0 <= sqrt_floor(n),
        sqrt_floor(n) * sqrt_floor(n) <= n,
        n < (sqrt_floor(n) + 1) * (sqrt_floor(n) + 1),
    decreases n,
{
    if n == 0 {
    } else {
        lemma_sqrt_floor_props(n - 1);
        let r = sqrt_floor(n - 1);
        if (r + 1) * (r + 1) <= n {
            assert(n <= (r + 1) * (r + 1));
            assert((r + 1) * (r + 1) < (r + 2) * (r + 2)) by (nonlinear_arith)
                requires 0 <= r;
        }
    }
}

pub proof fn lemma_sqrt_floor_unique(n: int, r: int)
    requires
        0 <= r,
        r * r <= n,
        n < (r + 1) * (r + 1),
    ensures
        r == sqrt_floor(n),
{
    assert(0 <= r * r) by (nonlinear_arith)
        requires 0 <= r;
    lemma_sqrt_floor_props(n);
    let s = sqrt_floor(n);
    if r < s {
        assert((r + 1) * (r + 1) <= s * s) by (nonlinear_arith)
            requires 0 <= r, r < s;
    }
    if s < r {
        assert((s + 1) * (s + 1) <= r * r) by (nonlinear_arith)
            requires 0 <= s, s < r;
    }
}

pub proof fn lemma_sqrt_floor_le(n: int, a: int)
    requires
        0 <= n,
        0 <= a,
        n <= a * a,
    ensures
        sqrt_floor(n) <= a,
{
    lemma_sqrt_floor_props(n);
    let s = sqrt_floor(n);
    if a < s {
        assert((a + 1) * (a + 1) <= s * s) by (nonlinear_arith)
            requires 0 <= a, a < s;
        assert(a * a < (a + 1) * (a + 1)) by (nonlinear_arith)
            requires 0 <= a;
    }
}

pub proof fn lemma_sqrt_floor_ge(n: int, a: int)
    requires
        0 <= a,
        a * a <= n,
    ensures
        a <= sqrt_floor(n),
{
    assert(0 <= a * a) by (nonlinear_arith)
        requires 0 <= a;
    lemma_sqrt_floor_props(n);
    let s = sqrt_floor(n);
    if s < a {
        assert((s + 1) * (s + 1) <= a * a) by (nonlinear_arith)
            requires 0 <= s, s < a;
    }
}

pub proof fn lemma_tdiv_range(a: int, b: int, k: int)
    requires
        1 <= b,
        0 <= k,
        -(k * b) <= a <= k * b,
    ensures
        -k <= tdiv(a, b) <= k,
{
    lemma_div_multiples_vanish(k, b);
    assert((b * k) == (k * b));
    if a >= 0 {
        lemma_div_pos_is_pos(a, b);
        lemma_div_is_ordered(a, k * b, b);
    } else {
        lemma_div_pos_is_pos(-a, b);
        lemma_div_is_ordered(-a, k * b, b);
    }
}

pub proof fn lemma_tdiv_mono(a1: int, a2: int, b: int)
    requires
        1 <= b,
        a1 <= a2,
    ensures
        tdiv(a1, b) <= tdiv(a2, b),
{
    if a1 >= 0 {
        lemma_div_is_ordered(a1, a2, b);
    } else if a2 < 0 {
        lemma_div_is_ordered(-a2, -a1, b);
    } else {
        lemma_div_pos_is_pos(-a1, b);
        lemma_div_pos_is_pos(a2, b);
    }
}

pub proof fn lemma_mul_bounds(x: int, y: int, kx: int, ky: int)
    requires
        -kx <= x <= kx,
        -ky <= y <= ky,
        0 <= kx,
        0 <= ky,
    ensures
        -(kx * ky) <= x * y <= kx * ky,
{
    assert(-(kx * ky) <= x * y <= kx * ky) by (nonlinear_arith)
        requires -kx <= x <= kx, -ky <= y <= ky, 0 <= kx, 0 <= ky;
}

pub proof fn lemma_square_fxm_nonneg(x: int)
    ensures
        0 <= fxm(x, x),
{
    assert(0 <= x * x) by (nonlinear_arith);
    lemma_div_pos_is_pos(x * x, 65536);
}

/// Truncating division of `num` by a positive `den`.
fn div_trunc(num: i128, den: i128) -> (q: i128)
    requires
        1 <= den,
        -RAW_BOUND <= num <= RAW_BOUND,
    ensures
        q == tdiv(num as int, den as int),
{
    if num >= 0 {
        let n: u128 = num as u128;
        let d: u128 = den as u128;
        let q: u128 = n / d;
        proof {
            lemma_div_nonincreasing(n as int, d as int);
        }
        q as i128
    } else {
        let n: u128 = (-num) as u128;
        let d: u128 = den as u128;
        let q: u128 = n / d;
        proof {
            lemma_div_nonincreasing(n as int, d as int);
            lemma_div_pos_is_pos(n as int, d as int);
        }
        -(q as i128)
    }
}

/// Floor square root by binary search on the raw value.
fn isqrt(n: i128) -> (r: i128)
    requires
        0 <= n < RAW_BOUND,
    ensures
        r == sqrt_floor(n as int),
        0 <= r <= 0x8000_0000_0000_0000,
{
    let nn: u128 = n as u128;
    if nn == 0 {
        return 0;
    }
    let mut lo: u128 = 0;
    let mut hi: u128 = 0x8000_0000_0000_0000;
    while lo + 1 < hi
        invariant
            lo < hi <= 0x8000_0000_0000_0000,
            nn == n,
            lo * lo <= nn,
            (nn as int) < (hi as int) * (hi as int),
        decreases hi - lo,
    {
        let gap: u128 = hi - lo;
        let mid: u128 = lo + gap / 2;
        proof {
            lemma_div_pos_is_pos(gap as int, 2);
            lemma_div_decreases(gap as int, 2);
            assert((mid as int) * (mid as int) < RAW_BOUND * 4) by (nonlinear_arith)
                requires 0 <= mid as int <= 0x8000_0000_0000_0000;
        }
        if mid * mid <= nn {
            lo = mid;
        } else {
            hi = mid;
        }
    }
    proof {
        assert(hi == lo + 1);
        lemma_sqrt_floor_unique(n as int, lo as int);
    }
    lo as i128
}

/// A fixed-point scalar: `raw` counts 1/65536-ths of a pixel.
#[derive(Clone, Copy, PartialEq, Eq, Structural, Debug)]
pub struct Fx {
    pub raw: i128,
}

impl Fx {
    /// The scalar 0.
    pub fn zero() -> (r: Fx)
        ensures
            r.raw == 0,
    {
        Fx { raw: 0 }
    }

    /// A whole number of pixels.
    pub fn from_pixels(p: i64) -> (r: Fx)
        ensures
            r.raw == p * 65536,
    {
        Fx { raw: (p as i128) * SCALE }
    }

    /// The whole-pixel part, truncated toward zero.
    pub fn to_pixels(self) -> (p: i128)
        requires
            -RAW_BOUND <= self.raw <= RAW_BOUND,
        ensures
            p == tdiv(self.raw as int, 65536),
    {
        div_trunc(self.raw, SCALE)
    }

    pub fn add(self, o: Fx) -> (r: Fx)
        requires
            -RAW_BOUND <= self.raw + o.raw <= RAW_BOUND,
        ensures
            r.raw == self.raw + o.raw,
    {
        Fx { raw: self.raw + o.raw }
    }

    pub fn sub(self, o: Fx) -> (r: Fx)
        requires
            -RAW_BOUND <= self.raw - o.raw <= RAW_BOUND,
        ensures
            r.raw == self.raw - o.raw,
    {
        Fx { raw: self.raw - o.raw }
    }

    pub fn neg(self) -> (r: Fx)
        requires
            -RAW_BOUND <= self.raw <= RAW_BOUND,
        ensures
            r.raw == -self.raw,
    {
        Fx { raw: -self.raw }
    }

    pub fn mul(self, o: Fx) -> (r: Fx)
        requires
            -RAW_BOUND <= self.raw * o.raw <= RAW_BOUND,
        ensures
            r.raw == fxm(self.raw as int, o.raw as int),
            -(RAW_BOUND / 65536) <= r.raw <= RAW_BOUND / 65536,
    {
        proof {
            lemma_tdiv_range(self.raw * o.raw, 65536, RAW_BOUND / 65536);
        }
        Fx { raw: div_trunc(self.raw * o.raw, SCALE) }
    }

    pub fn div(self, o: Fx) -> (r: Fx)
        requires
            1 <= o.raw,
            -RAW_BOUND <= self.raw * 65536 <= RAW_BOUND,
        ensures
            r.raw == fxd(self.raw as int, o.raw as int),
            -RAW_BOUND <= r.raw <= RAW_BOUND,
    {
        proof {
            assert(RAW_BOUND * 1 <= RAW_BOUND * o.raw) by (nonlinear_arith)
                requires 1 <= o.raw;
            lemma_tdiv_range(self.raw * 65536, o.raw as int, RAW_BOUND as int);
        }
        Fx { raw: div_trunc(self.raw * SCALE, o.raw) }
    }

    pub fn sqrt(self) -> (r: Fx)
        requires
            0 <= self.raw,
            self.raw * 65536 < RAW_BOUND,
        ensures
            r.raw == fxs(self.raw as int),
            0 <= r.raw <= 0x8000_0000_0000_0000,
    {
        Fx { raw: isqrt(self.raw * SCALE) }
    }
}

} // verus!
