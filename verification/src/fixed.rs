//! Fixed-point arithmetic over signed 64-bit integers.
//!
//! A plane coordinate (or any other unit quantity) is held as an `i64`
//! counting `1 / SCALE` units, so the representable grid is fine enough
//! for every zoom level the scheduler produces. All operations truncate
//! toward zero, the rounding of Rust's integer `/`.

use vstd::prelude::*;

verus! {

/// One whole unit, in fixed-point ticks: a coordinate `x` is stored as
/// `x * SCALE` truncated to an integer.
pub const SCALE: i64 = 1_000_000_000;

/// Largest magnitude accepted by `fmul`: products of two such values,
/// scaled back down, still fit in an `i64`.
pub const FMUL_BOUND: i64 = 90_000_000_000_000;

/// Division truncating toward zero (the semantics of Rust's `/` on
/// signed integers), defined from Verus's Euclidean `/` on `int`.
pub open spec fn tdiv(a: int, d: int) -> int
    recommends
        d > 0,
{
    if a >= 0 {
        a / d
    } else {
        -((-a) / d)
    }
}

/// Product of two fixed-point values, scaled back down to fixed point.
pub open spec fn spec_fmul(a: int, b: int) -> int {
    tdiv(a * b, SCALE as int)
}

/// Truncating division of an `i64` by a positive divisor.
pub fn div_trunc(a: i64, d: i64) -> (r: i64)
    requires
        i64::MIN < a,
        0 < d,
    ensures
        r == tdiv(a as int, d as int),
{
    if a >= 0 {
        ((a as u64) / (d as u64)) as i64
    } else {
        let n: i64 = -a;
        -(((n as u64) / (d as u64)) as i64)
    }
}

/// Fixed-point multiplication: `a * b / SCALE`, truncated toward zero.
pub fn fmul(a: i64, b: i64) -> (r: i64)
    requires
        -FMUL_BOUND <= a <= FMUL_BOUND,
        -FMUL_BOUND <= b <= FMUL_BOUND,
    ensures
        r == spec_fmul(a as int, b as int),
{
    proof {
        lemma_mul_magnitude(a as int, b as int, FMUL_BOUND as int, FMUL_BOUND as int);
        let p = a as int * b as int;
        let m = if p >= 0 {
            p
        } else {
            -p
        };
        assert(FMUL_BOUND as int * FMUL_BOUND as int
            == 8_100_000_000_000_000_000_000_000_000) by (nonlinear_arith);
        vstd::arithmetic::div_mod::lemma_div_is_ordered(
            m,
            8_100_000_000_000_000_000_000_000_000,
            SCALE as int,
        );
        assert(8_100_000_000_000_000_000_000_000_000int / (SCALE as int)
            == 8_100_000_000_000_000_000) by (nonlinear_arith);
    }
    let p: i128 = (a as i128) * (b as i128);
    if p >= 0 {
        (((p as u128) / (SCALE as u128)) as i64)
    } else {
        let n: i128 = -p;
        -((((n as u128) / (SCALE as u128)) as i64))
    }
}

/// `|a * b| <= aa * bb` whenever `|a| <= aa` and `|b| <= bb`.
pub proof fn lemma_mul_magnitude(a: int, b: int, aa: int, bb: int)
    requires
        -aa <= a <= aa,
        -bb <= b <= bb,
    ensures
        -(aa * bb) <= a * b <= aa * bb,
{
    assert(-(aa * bb) <= a * b <= aa * bb) by (nonlinear_arith)
        requires
            -aa <= a <= aa,
            -bb <= b <= bb,
    ;
}

/// A magnitude bound on the dividend gives one on the truncated quotient.
pub proof fn lemma_tdiv_magnitude(a: int, d: int, m: int)
    requires
        0 < d,
        0 <= m,
        -(m * d) <= a <= m * d,
    ensures
        -m <= tdiv(a, d) <= m,
{
    vstd::arithmetic::mul::lemma_mul_is_commutative(m, d);
    if a >= 0 {
        vstd::arithmetic::div_mod::lemma_div_pos_is_pos(a, d);
        vstd::arithmetic::div_mod::lemma_multiply_divide_le(a, d, m);
    } else {
        vstd::arithmetic::div_mod::lemma_div_pos_is_pos(-a, d);
        vstd::arithmetic::div_mod::lemma_multiply_divide_le(-a, d, m);
    }
}

/// Magnitude bounds on both factors give one on the fixed-point product.
pub proof fn lemma_fmul_magnitude(a: int, b: int, ma: int, mb: int)
    requires
        -ma <= a <= ma,
        -mb <= b <= mb,
        ma * mb % (SCALE as int) == 0,
    ensures
        -tdiv(ma * mb, SCALE as int) <= spec_fmul(a, b) <= tdiv(ma * mb, SCALE as int),
{
    lemma_mul_magnitude(a, b, ma, mb);
    assert(0 <= ma * mb) by (nonlinear_arith)
        requires
            0 <= ma,
            0 <= mb,
    ;
    vstd::arithmetic::div_mod::lemma_fundamental_div_mod(ma * mb, SCALE as int);
    vstd::arithmetic::div_mod::lemma_div_pos_is_pos(ma * mb, SCALE as int);
    lemma_tdiv_magnitude(a * b, SCALE as int, (ma * mb) / (SCALE as int));
}

/// Truncating division by a positive divisor is monotone in the dividend.
pub proof fn lemma_tdiv_monotone(a: int, b: int, d: int)
    requires
        a <= b,
        0 < d,
    ensures
        tdiv(a, d) <= tdiv(b, d),
{
    if a >= 0 {
        vstd::arithmetic::div_mod::lemma_div_is_ordered(a, b, d);
    } else if b >= 0 {
        vstd::arithmetic::div_mod::lemma_div_pos_is_pos(-a, d);
        vstd::arithmetic::div_mod::lemma_div_pos_is_pos(b, d);
    } else {
        vstd::arithmetic::div_mod::lemma_div_is_ordered(-b, -a, d);
    }
}

/// Truncating division never grows a non-negative dividend.
pub proof fn lemma_tdiv_bound(a: int, d: int)
    requires
        0 <= a,
        0 < d,
    ensures
        0 <= tdiv(a, d) <= a,
{
    vstd::arithmetic::div_mod::lemma_div_pos_is_pos(a, d);
    vstd::arithmetic::div_mod::lemma_div_nonincreasing(a, d);
}

} // verus!
