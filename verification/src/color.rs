//! The palette of the fractal renderer.
//!
//! An escaping pixel is colored from the normalized iteration count
//! `t = iter / max_iter` through a gamma-like curve `t^(11/32)` that
//! pushes detail into low iteration counts, computed exactly in fixed
//! point as `t^(1/4) * t^(1/16) * t^(1/32)` with floor square roots.
//! The interior is pure black at full opacity, and no color carries a
//! red component: both are deliberate aesthetic invariants.

use vstd::prelude::*;
use crate::fixed::{SCALE, tdiv, spec_fmul, fmul, lemma_tdiv_monotone, lemma_tdiv_bound,
    lemma_mul_magnitude};

verus! {

/// One RGBA8 color, in display order.
#[derive(Clone, Copy, PartialEq, Eq, Structural, Debug)]
pub struct Rgba {
    pub r: u8,
    pub g: u8,
    pub b: u8,
    pub a: u8,
}

/// `r` is the floor of the square root of `x`.
pub open spec fn is_sqrt_floor(x: int, r: int) -> bool {
    &&& 0 <= r
    &&& r * r <= x
    &&& x < (r + 1) * (r + 1)
}

/// The floor of the square root of a non-negative integer.
pub open spec fn sqrt_floor(x: int) -> int {
    choose|r: int| is_sqrt_floor(x, r)
}

/// Every non-negative integer has a floor square root.
pub proof fn lemma_sqrt_floor_exists(x: int) -> (r: int)
    requires
        0 <= x,
    ensures
        is_sqrt_floor(x, r),
    decreases x,
{
    if x == 0 {
        assert(is_sqrt_floor(0, 0)) by (nonlinear_arith);
        0
    } else {
        let r0 = lemma_sqrt_floor_exists(x - 1);
        if (r0 + 1) * (r0 + 1) <= x {
            assert((r0 + 1) * (r0 + 1) == x);
            assert(is_sqrt_floor(x, r0 + 1)) by (nonlinear_arith)
                requires
                    0 <= r0,
                    (r0 + 1) * (r0 + 1) == x,
            ;
            r0 + 1
        } else {
            r0
        }
    }
}

/// The floor square root is unique, so any witness equals `sqrt_floor`.
pub proof fn lemma_sqrt_floor_unique(x: int, r: int)
    requires
        is_sqrt_floor(x, r),
    ensures
        sqrt_floor(x) == r,
{
    assert(is_sqrt_floor(x, sqrt_floor(x)));
    assert(sqrt_floor(x) == r) by (nonlinear_arith)
        requires
            is_sqrt_floor(x, sqrt_floor(x)),
            is_sqrt_floor(x, r),
    ;
}

/// The floor square root is monotone.
pub proof fn lemma_sqrt_floor_monotone(x: int, y: int)
    requires
        0 <= x <= y,
    ensures
        0 <= sqrt_floor(x) <= sqrt_floor(y),
{
    let rx = lemma_sqrt_floor_exists(x);
    lemma_sqrt_floor_unique(x, rx);
    let ry = lemma_sqrt_floor_exists(y);
    lemma_sqrt_floor_unique(y, ry);
    assert(rx <= ry) by (nonlinear_arith)
        requires
            0 <= rx,
            0 <= ry,
            rx * rx <= y,
            y < (ry + 1) * (ry + 1),
    ;
}

/// A bound on the radicand bounds the floor square root.
pub proof fn lemma_sqrt_floor_le(x: int, b: int)
    requires
        0 <= x,
        0 <= b,
        x < (b + 1) * (b + 1),
    ensures
        0 <= sqrt_floor(x) <= b,
{
    let r = lemma_sqrt_floor_exists(x);
    lemma_sqrt_floor_unique(x, r);
    assert(r <= b) by (nonlinear_arith)
        requires
            0 <= r,
            0 <= b,
            r * r <= x,
            x < (b + 1) * (b + 1),
    ;
}

/// Floor square root by binary search on the result.
pub fn isqrt(x: u64) -> (r: u64)
    ensures
        r as int == sqrt_floor(x as int),
        is_sqrt_floor(x as int, r as int),
{
    let mut lo: u64 = 0;
    let mut hi: u64 = 4_294_967_296;
    proof {
        assert((4_294_967_296int) * 4_294_967_296 > u64::MAX as int) by (nonlinear_arith);
    }
    while lo + 1 < hi
        invariant
            lo < hi <= 4_294_967_296,
            (lo as int) * (lo as int) <= x as int,
            (x as int) < (hi as int) * (hi as int),
        decreases hi - lo,
    {
        let mid: u64 = lo + (hi - lo) / 2;
        proof {
            assert((mid as int) * (mid as int) <= u128::MAX as int) by (nonlinear_arith)
                requires
                    0 <= mid as int <= 4_294_967_296,
            ;
        }
        let m2: u128 = (mid as u128) * (mid as u128);
        if m2 <= x as u128 {
            lo = mid;
        } else {
            hi = mid;
        }
    }
    proof {
        lemma_sqrt_floor_unique(x as int, lo as int);
    }
    lo
}

/// Square root of a fixed-point value in `[0, 1]`, in fixed point:
/// the floor square root of `x * SCALE`.
pub open spec fn sqrt_fix(x: int) -> int {
    sqrt_floor(x * SCALE)
}

/// `sqrt_fix` stays within `[0, SCALE - 1]` and is monotone there.
pub proof fn lemma_sqrt_fix_props(x: int, y: int)
    requires
        0 <= x <= y <= SCALE - 1,
    ensures
        0 <= sqrt_fix(x) <= sqrt_fix(y) <= SCALE - 1,
{
    lemma_sqrt_floor_monotone(x * SCALE, y * SCALE);
    assert(y * SCALE < (SCALE as int) * SCALE) by (nonlinear_arith)
        requires
            y <= SCALE - 1,
    ;
    lemma_sqrt_floor_le(y * SCALE, SCALE - 1);
}

/// Fixed-point square root of a value in `[0, 1)`.
pub fn fsqrt(x: i64) -> (r: i64)
    requires
        0 <= x <= SCALE - 1,
    ensures
        r == sqrt_fix(x as int),
        0 <= r <= SCALE - 1,
{
    proof {
        assert((x as int) * (SCALE as int) <= u64::MAX as int) by (nonlinear_arith)
            requires
                0 <= x as int <= SCALE as int,
        ;
    }
    let prod: u64 = (x as u64) * (SCALE as u64);
    let r: u64 = isqrt(prod);
    proof {
        lemma_sqrt_fix_props(x as int, x as int);
    }
    r as i64
}

/// The normalized iteration count `iter / max_iter` in fixed point.
pub open spec fn t_fix(iter: int, max_iter: int) -> int {
    tdiv(iter * SCALE, max_iter)
}

/// The palette's gamma-like curve `t^(11/32)` in fixed point, computed
/// as `t^(1/4) * t^(1/16) * t^(1/32)` with floor rounding at each step.
pub open spec fn intensity_fix(iter: int, max_iter: int) -> int {
    let t = t_fix(iter, max_iter);
    let s1 = sqrt_fix(t);
    let s2 = sqrt_fix(s1);
    let s3 = sqrt_fix(s2);
    let s4 = sqrt_fix(s3);
    let s5 = sqrt_fix(s4);
    spec_fmul(spec_fmul(s2, s4), s5)
}

/// Green channel of an escaping pixel: `intensity * 180`, floored.
pub open spec fn green_of(iter: int, max_iter: int) -> int {
    tdiv(intensity_fix(iter, max_iter) * 180, SCALE as int)
}

/// Blue channel of an escaping pixel: `intensity * 255`, floored.
pub open spec fn blue_of(iter: int, max_iter: int) -> int {
    tdiv(intensity_fix(iter, max_iter) * 255, SCALE as int)
}

/// `0 <= t_fix < SCALE` whenever `0 <= iter < max_iter`.
proof fn lemma_t_fix_range(iter: int, max_iter: int)
    requires
        0 <= iter < max_iter,
    ensures
        0 <= t_fix(iter, max_iter) <= SCALE - 1,
{
    lemma_tdiv_bound(iter * SCALE, max_iter);
    assert(iter * SCALE < max_iter * (SCALE as int)) by (nonlinear_arith)
        requires
            iter < max_iter,
    ;
    vstd::arithmetic::div_mod::lemma_multiply_divide_lt(iter * SCALE, max_iter, SCALE as int);
}

/// Fixed-point products of values in `[0, SCALE - 1]` stay in range and
/// are monotone in each factor.
proof fn lemma_fmul_unit_props(a1: int, b1: int, a2: int, b2: int)
    requires
        0 <= a1 <= a2 <= SCALE - 1,
        0 <= b1 <= b2 <= SCALE - 1,
    ensures
        0 <= spec_fmul(a1, b1) <= spec_fmul(a2, b2) <= SCALE - 1,
{
    assert(a1 * b1 <= a2 * b2) by (nonlinear_arith)
        requires
            0 <= a1 <= a2,
            0 <= b1 <= b2,
    ;
    assert(0 <= a1 * b1) by (nonlinear_arith)
        requires
            0 <= a1,
            0 <= b1,
    ;
    assert(a2 * b2 <= (SCALE - 1) * (SCALE - 1)) by (nonlinear_arith)
        requires
            0 <= a2 <= SCALE - 1,
            0 <= b2 <= SCALE - 1,
    ;
    lemma_tdiv_bound(a1 * b1, SCALE as int);
    lemma_tdiv_monotone(a1 * b1, a2 * b2, SCALE as int);
    lemma_tdiv_monotone(a2 * b2, (SCALE as int - 1) * (SCALE as int - 1), SCALE as int);
    assert((SCALE as int - 1) * (SCALE as int - 1) == 999999998000000001) by (nonlinear_arith);
    assert(999999998000000001int / 1_000_000_000int == 999999998int);
}

/// Intensity is in `[0, SCALE - 1]`, and monotone in the iteration
/// count below the cap.
pub proof fn lemma_intensity_props(i1: int, i2: int, max_iter: int)
    requires
        0 <= i1 <= i2 < max_iter,
    ensures
        0 <= intensity_fix(i1, max_iter) <= intensity_fix(i2, max_iter) <= SCALE - 1,
{
    lemma_t_fix_range(i1, max_iter);
    lemma_t_fix_range(i2, max_iter);
    let ta = t_fix(i1, max_iter);
    let tb = t_fix(i2, max_iter);
    assert(i1 * SCALE <= i2 * SCALE) by (nonlinear_arith)
        requires
            i1 <= i2,
    ;
    lemma_tdiv_monotone(i1 * SCALE, i2 * SCALE, max_iter);
    lemma_sqrt_fix_props(ta, tb);
    lemma_sqrt_fix_props(sqrt_fix(ta), sqrt_fix(tb));
    lemma_sqrt_fix_props(sqrt_fix(sqrt_fix(ta)), sqrt_fix(sqrt_fix(tb)));
    lemma_sqrt_fix_props(sqrt_fix(sqrt_fix(sqrt_fix(ta))), sqrt_fix(sqrt_fix(sqrt_fix(tb))));
    lemma_sqrt_fix_props(
        sqrt_fix(sqrt_fix(sqrt_fix(sqrt_fix(ta)))),
        sqrt_fix(sqrt_fix(sqrt_fix(sqrt_fix(tb)))),
    );
    let a2 = sqrt_fix(sqrt_fix(ta));
    let a4 = sqrt_fix(sqrt_fix(sqrt_fix(sqrt_fix(ta))));
    let a5 = sqrt_fix(a4);
    let b2 = sqrt_fix(sqrt_fix(tb));
    let b4 = sqrt_fix(sqrt_fix(sqrt_fix(sqrt_fix(tb))));
    let b5 = sqrt_fix(b4);
    lemma_fmul_unit_props(a2, a4, b2, b4);
    lemma_fmul_unit_props(spec_fmul(a2, a4), a5, spec_fmul(b2, b4), b5);
}

/// Color channels are monotone in the iteration count while the pixel
/// escapes: a deeper count never darkens the pixel.
pub proof fn lemma_color_monotone(i1: int, i2: int, max_iter: int)
    requires
        0 <= i1 <= i2 < max_iter,
    ensures
        green_of(i1, max_iter) <= green_of(i2, max_iter),
        blue_of(i1, max_iter) <= blue_of(i2, max_iter),
{
    lemma_intensity_props(i1, i2, max_iter);
    lemma_tdiv_monotone(
        intensity_fix(i1, max_iter) * 180,
        intensity_fix(i2, max_iter) * 180,
        SCALE as int,
    );
    lemma_tdiv_monotone(
        intensity_fix(i1, max_iter) * 255,
        intensity_fix(i2, max_iter) * 255,
        SCALE as int,
    );
}

/// Color channels of an escaping pixel fit in a byte, green below 180
/// and blue below 255.
pub proof fn lemma_color_range(iter: int, max_iter: int)
    requires
        0 <= iter < max_iter,
    ensures
        0 <= green_of(iter, max_iter) <= 179,
        0 <= blue_of(iter, max_iter) <= 254,
{
    lemma_intensity_props(iter, iter, max_iter);
    let inten = intensity_fix(iter, max_iter);
    lemma_tdiv_bound(inten * 180, SCALE as int);
    lemma_tdiv_bound(inten * 255, SCALE as int);
    assert(inten * 180 <= (SCALE as int - 1) * 180) by (nonlinear_arith)
        requires
            inten <= SCALE - 1,
    ;
    assert(inten * 255 <= (SCALE as int - 1) * 255) by (nonlinear_arith)
        requires
            inten <= SCALE - 1,
    ;
    lemma_tdiv_monotone(inten * 180, (SCALE as int - 1) * 180, SCALE as int);
    lemma_tdiv_monotone(inten * 255, (SCALE as int - 1) * 255, SCALE as int);
    assert((SCALE as int - 1) * 180 == 179999999820) by (nonlinear_arith);
    assert((SCALE as int - 1) * 255 == 254999999745) by (nonlinear_arith);
    assert(179999999820int / 1_000_000_000int == 179);
    assert(254999999745int / 1_000_000_000int == 254);
}

/// Map an iteration count to its color: pure black at full opacity for
/// the interior, and a red-free blue/green ramp for escaping pixels.
pub fn mandelbrot_color(iter: u32, max_iter: u32) -> (c: Rgba)
    requires
        1 <= max_iter,
    ensures
        c.r == 0,
        c.a == 255,
        iter >= max_iter ==> c.g == 0 && c.b == 0,
        iter < max_iter ==> c.g as int == green_of(iter as int, max_iter as int),
        iter < max_iter ==> c.b as int == blue_of(iter as int, max_iter as int),
{
    if iter >= max_iter {
        return Rgba { r: 0, g: 0, b: 0, a: 255 };
    }
    proof {
        lemma_t_fix_range(iter as int, max_iter as int);
        lemma_mul_magnitude(iter as int, SCALE as int, u32::MAX as int, SCALE as int);
    }
    let t: i64 = ((iter as u64 * (SCALE as u64)) / (max_iter as u64)) as i64;
    let s1: i64 = fsqrt(t);
    let s2: i64 = fsqrt(s1);
    let s3: i64 = fsqrt(s2);
    let s4: i64 = fsqrt(s3);
    let s5: i64 = fsqrt(s4);
    let i1: i64 = fmul(s2, s4);
    proof {
        lemma_fmul_unit_props(s2 as int, s4 as int, s2 as int, s4 as int);
    }
    let inten: i64 = fmul(i1, s5);
    proof {
        lemma_intensity_props(iter as int, iter as int, max_iter as int);
        lemma_color_range(iter as int, max_iter as int);
    }
    let g: u64 = (inten as u64 * 180) / (SCALE as u64);
    let b: u64 = (inten as u64 * 255) / (SCALE as u64);
    Rgba { r: 0, g: g as u8, b: b as u8, a: 255 }
}

} // verus!
