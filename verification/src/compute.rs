//! The transfer-function library: stateless nonlinear curves.
//!
//! Every curve works on Q47.16 fixed-point values. The saturation family is
//! built from one algebraic soft-clip, `sat_core` (`x / (1 + |x|)` in real
//! units), composed with an odd polynomial on the magnitude; each member
//! fixes zero, stays within `[-1, 1]`, and is non-decreasing, which the
//! public lemmas below prove once for the whole family.

use vstd::prelude::*;

use crate::fixed::FP_LIMIT;
use crate::fixed::FP_ONE;
use crate::fixed::abs_i;
use crate::fixed::clamp_spec;
use crate::fixed::fp_add;
use crate::fixed::fp_add_spec;
use crate::fixed::fp_clamp;
use crate::fixed::fp_mul;
use crate::fixed::fp_mul_spec;
use crate::fixed::fp_ok;
use crate::fixed::fp_sub;
use crate::fixed::fp_sub_spec;
use crate::fixed::fp_divi;
use crate::fixed::fp_divi_spec;
use crate::fixed::fp_frac;
use crate::fixed::fp_frac_spec;
use crate::fixed::isqrt64;
use crate::fixed::lemma_div_cross;
use crate::fixed::lemma_fp_mul_contracts;
use crate::fixed::lemma_fp_mul_mono;
use crate::fixed::lemma_fp_mul_one;
use crate::fixed::lemma_fp_mul_zero;
use crate::fixed::sqrt_floor;
use crate::rng::TapeRng;
use crate::rng::rng_out_spec;
use crate::rng::rng_step_spec;
use crate::rng::unit_of;

verus! {

// === core soft clip =========================================================

/// `x / (1 + |x|)` in real units: odd, bounded by one, non-decreasing.
pub open spec fn sat_core_spec(x: int) -> int {
    let m = abs_i(x);
    let y = (m * (FP_ONE as int)) / ((FP_ONE as int) + m);
    if x < 0 {
        -y
    } else {
        y
    }
}

/// The algebraic soft clip every saturation curve ends in.
pub fn sat_core(x: i64) -> (r: i64)
    requires
        fp_ok(x),
    ensures
        r == sat_core_spec(x as int),
        abs_i(r as int) < FP_ONE,
        abs_i(r as int) <= abs_i(x as int),
        fp_ok(r),
{
    let m: u64 = if x < 0 {
        (-x) as u64
    } else {
        x as u64
    };
    proof {
        assert(m as int == abs_i(x as int));
        assert(m <= 0x4000_0000);
        lemma_sat_core_bound(x as int);
    }
    let yu: u64 = (m * 65536) / (65536 + m);
    let y: i64 = yu as i64;
    if x < 0 {
        -y
    } else {
        y
    }
}

/// The soft clip stays strictly inside `(-1, 1)` and never grows the
/// magnitude.
pub proof fn lemma_sat_core_bound(x: int)
    ensures
        abs_i(sat_core_spec(x)) < FP_ONE,
        abs_i(sat_core_spec(x)) <= abs_i(x),
        x >= 0 ==> sat_core_spec(x) >= 0,
        x < 0 ==> sat_core_spec(x) <= 0,
{
    let mi: int = abs_i(x);
    let s: int = FP_ONE as int;
    assert(mi * s < (s + mi) * s) by (nonlinear_arith)
        requires
            0 <= mi,
            s == 65536,
    ;
    vstd::arithmetic::div_mod::lemma_multiply_divide_lt(mi * s, s + mi, s);
    assert(mi * s <= mi * (s + mi)) by (nonlinear_arith)
        requires
            0 <= mi,
            0 < s,
    ;
    assert(mi * (s + mi) == (s + mi) * mi) by (nonlinear_arith);
    vstd::arithmetic::div_mod::lemma_multiply_divide_le(mi * s, s + mi, mi);
    assert(0 <= mi * s) by (nonlinear_arith)
        requires
            0 <= mi,
            0 < s,
    ;
    vstd::arithmetic::div_mod::lemma_div_pos_is_pos(mi * s, s + mi);
}

/// The soft clip strictly shrinks any nonzero value.
pub proof fn lemma_sat_core_strict(x: int)
    requires
        abs_i(x) >= 1,
    ensures
        abs_i(sat_core_spec(x)) < abs_i(x),
{
    let m: int = abs_i(x);
    let s: int = FP_ONE as int;
    assert(m * s < (s + m) * m) by (nonlinear_arith)
        requires
            1 <= m,
            0 < s,
    ;
    vstd::arithmetic::div_mod::lemma_multiply_divide_lt(m * s, s + m, m);
    assert(0 <= m * s) by (nonlinear_arith)
        requires
            0 <= m,
            0 < s,
    ;
    vstd::arithmetic::div_mod::lemma_div_pos_is_pos(m * s, s + m);
}

/// The soft clip is odd.
pub proof fn lemma_sat_core_odd(x: int)
    ensures
        sat_core_spec(-x) == -sat_core_spec(x),
{
    vstd::arithmetic::div_mod::lemma_div_of0(FP_ONE as int);
}

/// The soft clip fixes zero.
pub proof fn lemma_sat_core_zero()
    ensures
        sat_core_spec(0) == 0,
{
    vstd::arithmetic::div_mod::lemma_div_of0(FP_ONE as int);
}

/// The soft clip is non-decreasing.
pub proof fn lemma_sat_core_mono(x1: int, x2: int)
    requires
        x1 <= x2,
    ensures
        sat_core_spec(x1) <= sat_core_spec(x2),
{
    let s: int = FP_ONE as int;
    let m1 = abs_i(x1);
    let m2 = abs_i(x2);
    assert(0 <= (m1 * s) / (s + m1)) by {
        assert(0 <= m1 * s) by (nonlinear_arith)
            requires
                0 <= m1,
                0 < s,
        ;
        vstd::arithmetic::div_mod::lemma_div_pos_is_pos(m1 * s, s + m1);
    }
    assert(0 <= (m2 * s) / (s + m2)) by {
        assert(0 <= m2 * s) by (nonlinear_arith)
            requires
                0 <= m2,
                0 < s,
        ;
        vstd::arithmetic::div_mod::lemma_div_pos_is_pos(m2 * s, s + m2);
    }
    if x1 >= 0 && x2 >= 0 {
        // magnitudes are ordered the same way
        assert((m1 * s) * (s + m2) <= (m2 * s) * (s + m1)) by (nonlinear_arith)
            requires
                0 <= m1 <= m2,
                0 < s,
        ;
        lemma_div_cross(m1 * s, s + m1, m2 * s, s + m2);
    } else if x1 < 0 && x2 < 0 {
        // magnitudes reverse; results are the negated magnitudes
        assert((m2 * s) * (s + m1) <= (m1 * s) * (s + m2)) by (nonlinear_arith)
            requires
                0 <= m2 <= m1,
                0 < s,
        ;
        lemma_div_cross(m2 * s, s + m2, m1 * s, s + m1);
    } else {
        // x1 < 0 <= x2: negative result against non-negative result
    }
}

// === saturation family ======================================================

/// Odd polynomial on the magnitude, then the soft clip: the shape every
/// saturation curve shares. `c3`, `c2` and `c1` are non-negative fixed-point
/// weights of the cubic, quadratic and linear terms.
pub open spec fn sat_shape_spec(x: int, c3: int, c2: int, c1: int) -> int {
    let m = abs_i(x);
    let m2 = fp_mul_spec(m, m);
    let m3 = fp_mul_spec(m2, m);
    let p = fp_add_spec(fp_add_spec(fp_mul_spec(c3, m3), fp_mul_spec(c2, m2)), fp_mul_spec(c1, m));
    let y = sat_core_spec(p);
    if x < 0 {
        -y
    } else {
        y
    }
}

/// Evaluate a member of the saturation family.
pub fn sat_shape(x: i64, c3: i64, c2: i64, c1: i64) -> (r: i64)
    requires
        fp_ok(x),
        0 <= c3 <= FP_LIMIT,
        0 <= c2 <= FP_LIMIT,
        0 <= c1 <= FP_LIMIT,
    ensures
        r == sat_shape_spec(x as int, c3 as int, c2 as int, c1 as int),
        abs_i(r as int) < FP_ONE,
        fp_ok(r),
{
    let m: i64 = if x < 0 {
        -x
    } else {
        x
    };
    let m2: i64 = fp_mul(m, m);
    let m3: i64 = fp_mul(m2, m);
    let p: i64 = fp_add(fp_add(fp_mul(c3, m3), fp_mul(c2, m2)), fp_mul(c1, m));
    let y: i64 = sat_core(p);
    if x < 0 {
        -y
    } else {
        y
    }
}

/// Fixed-point products of non-negative values are non-negative.
pub proof fn lemma_fp_mul_nonneg(a: int, b: int)
    requires
        0 <= a,
        0 <= b,
    ensures
        0 <= fp_mul_spec(a, b),
{
    let s: int = FP_ONE as int;
    assert(0 <= a * b) by (nonlinear_arith)
        requires
            0 <= a,
            0 <= b,
    ;
    vstd::arithmetic::div_mod::lemma_div_pos_is_pos(a * b, s);
}

/// Every saturation curve fixes zero: `f(0) == 0`.
pub proof fn lemma_sat_shape_zero(c3: int, c2: int, c1: int)
    ensures
        sat_shape_spec(0, c3, c2, c1) == 0,
{
    lemma_fp_mul_zero(0);
    lemma_fp_mul_zero(c3);
    lemma_fp_mul_zero(c2);
    lemma_fp_mul_zero(c1);
    lemma_sat_core_zero();
}

/// Every saturation curve is bounded: `|f(x)| <= 1` for every input, not
/// only on a declared domain.
pub proof fn lemma_sat_shape_bounded(x: int, c3: int, c2: int, c1: int)
    ensures
        abs_i(sat_shape_spec(x, c3, c2, c1)) < FP_ONE,
{
    let m = abs_i(x);
    let m2 = fp_mul_spec(m, m);
    let m3 = fp_mul_spec(m2, m);
    let p = fp_add_spec(fp_add_spec(fp_mul_spec(c3, m3), fp_mul_spec(c2, m2)), fp_mul_spec(c1, m));
    lemma_sat_core_bound(p);
}

/// Every saturation curve is odd: `f(-x) == -f(x)`; `bias` is applied
/// outside the curve, so symmetry is broken only there.
pub proof fn lemma_sat_shape_odd(x: int, c3: int, c2: int, c1: int)
    ensures
        sat_shape_spec(-x, c3, c2, c1) == -sat_shape_spec(x, c3, c2, c1),
{
    if x == 0 {
        lemma_sat_shape_zero(c3, c2, c1);
    }
}

/// A curve keeps the sign of its input.
pub proof fn lemma_sat_shape_sign(x: int, c3: int, c2: int, c1: int)
    requires
        0 <= c3,
        0 <= c2,
        0 <= c1,
    ensures
        x >= 0 ==> sat_shape_spec(x, c3, c2, c1) >= 0,
        x < 0 ==> sat_shape_spec(x, c3, c2, c1) <= 0,
{
    let m = abs_i(x);
    let m2 = fp_mul_spec(m, m);
    let m3 = fp_mul_spec(m2, m);
    lemma_fp_mul_nonneg(m, m);
    lemma_fp_mul_nonneg(m2, m);
    lemma_fp_mul_nonneg(c3, m3);
    lemma_fp_mul_nonneg(c2, m2);
    lemma_fp_mul_nonneg(c1, m);
    let p = fp_add_spec(fp_add_spec(fp_mul_spec(c3, m3), fp_mul_spec(c2, m2)), fp_mul_spec(c1, m));
    lemma_sat_core_bound(p);
}

/// Fixed-point multiplication is symmetric.
pub proof fn lemma_fp_mul_comm(a: int, b: int)
    ensures
        fp_mul_spec(a, b) == fp_mul_spec(b, a),
{
    assert(abs_i(a) * abs_i(b) == abs_i(b) * abs_i(a)) by (nonlinear_arith);
}

/// The magnitude polynomial under every curve is monotone on magnitudes.
proof fn lemma_shape_poly_mono(m1: int, m2: int, c3: int, c2: int, c1: int)
    requires
        0 <= m1 <= m2,
        0 <= c3,
        0 <= c2,
        0 <= c1,
    ensures
        ({
            let m1s = fp_mul_spec(m1, m1);
            let m1c = fp_mul_spec(m1s, m1);
            let p1 = fp_add_spec(
                fp_add_spec(fp_mul_spec(c3, m1c), fp_mul_spec(c2, m1s)),
                fp_mul_spec(c1, m1),
            );
            let m2s = fp_mul_spec(m2, m2);
            let m2c = fp_mul_spec(m2s, m2);
            let p2 = fp_add_spec(
                fp_add_spec(fp_mul_spec(c3, m2c), fp_mul_spec(c2, m2s)),
                fp_mul_spec(c1, m2),
            );
            p1 <= p2
        }),
{
    let m1s = fp_mul_spec(m1, m1);
    let m2s = fp_mul_spec(m2, m2);
    lemma_fp_mul_mono(m1, m2, m1);
    lemma_fp_mul_comm(m2, m1);
    lemma_fp_mul_mono(m1, m2, m2);
    assert(m1s <= m2s);
    lemma_fp_mul_nonneg(m1, m1);
    let m1c = fp_mul_spec(m1s, m1);
    let m2c = fp_mul_spec(m2s, m2);
    lemma_fp_mul_mono(m1s, m2s, m1);
    lemma_fp_mul_comm(m2s, m1);
    lemma_fp_mul_nonneg(m2, m2);
    lemma_fp_mul_mono(m1, m2, m2s);
    lemma_fp_mul_comm(m2s, m2);
    lemma_fp_mul_comm(m1s, m1);
    assert(m1c <= m2c);
    lemma_fp_mul_comm(c3, m1c);
    lemma_fp_mul_comm(c3, m2c);
    lemma_fp_mul_mono(m1c, m2c, c3);
    lemma_fp_mul_comm(c2, m1s);
    lemma_fp_mul_comm(c2, m2s);
    lemma_fp_mul_mono(m1s, m2s, c2);
    lemma_fp_mul_comm(c1, m1);
    lemma_fp_mul_comm(c1, m2);
    lemma_fp_mul_mono(m1, m2, c1);
}

/// Every saturation curve is non-decreasing.
pub proof fn lemma_sat_shape_mono(x1: int, x2: int, c3: int, c2: int, c1: int)
    requires
        x1 <= x2,
        0 <= c3,
        0 <= c2,
        0 <= c1,
    ensures
        sat_shape_spec(x1, c3, c2, c1) <= sat_shape_spec(x2, c3, c2, c1),
{
    if x1 >= 0 && x2 >= 0 {
        lemma_shape_poly_mono(abs_i(x1), abs_i(x2), c3, c2, c1);
        let m1 = abs_i(x1);
        let m2 = abs_i(x2);
        let p1 = fp_add_spec(
            fp_add_spec(
                fp_mul_spec(c3, fp_mul_spec(fp_mul_spec(m1, m1), m1)),
                fp_mul_spec(c2, fp_mul_spec(m1, m1)),
            ),
            fp_mul_spec(c1, m1),
        );
        let p2 = fp_add_spec(
            fp_add_spec(
                fp_mul_spec(c3, fp_mul_spec(fp_mul_spec(m2, m2), m2)),
                fp_mul_spec(c2, fp_mul_spec(m2, m2)),
            ),
            fp_mul_spec(c1, m2),
        );
        lemma_sat_core_mono(p1, p2);
    } else if x1 < 0 && x2 < 0 {
        lemma_shape_poly_mono(abs_i(x2), abs_i(x1), c3, c2, c1);
        let m1 = abs_i(x1);
        let m2 = abs_i(x2);
        let p1 = fp_add_spec(
            fp_add_spec(
                fp_mul_spec(c3, fp_mul_spec(fp_mul_spec(m1, m1), m1)),
                fp_mul_spec(c2, fp_mul_spec(m1, m1)),
            ),
            fp_mul_spec(c1, m1),
        );
        let p2 = fp_add_spec(
            fp_add_spec(
                fp_mul_spec(c3, fp_mul_spec(fp_mul_spec(m2, m2), m2)),
                fp_mul_spec(c2, fp_mul_spec(m2, m2)),
            ),
            fp_mul_spec(c1, m2),
        );
        lemma_sat_core_mono(p2, p1);
    } else {
        lemma_sat_shape_sign(x1, c3, c2, c1);
        lemma_sat_shape_sign(x2, c3, c2, c1);
    }
}

// === the five magnetic materials ============================================

/// Cubic weight of the tungsten curve (1.6).
pub const SAT1_C3: i64 = 104858;

/// Linear weight of the tungsten curve (0.4).
pub const SAT1_C1: i64 = 26214;

/// Cubic weight of the steel curve (3.0).
pub const SAT2_C3: i64 = 196608;

/// Linear weight of the steel curve (0.75).
pub const SAT2_C1: i64 = 49152;

/// Linear weight of the iron curve (1.6).
pub const SAT3_C1: i64 = 104858;

/// Quadratic weight of the magnetite curve (3.0).
pub const SAT5_C2: i64 = 196608;

pub open spec fn mag_sat_1_spec(x: int) -> int {
    sat_shape_spec(x, SAT1_C3 as int, 0, SAT1_C1 as int)
}

pub open spec fn mag_sat_2_spec(x: int) -> int {
    sat_shape_spec(x, SAT2_C3 as int, 0, SAT2_C1 as int)
}

pub open spec fn mag_sat_3_spec(x: int) -> int {
    sat_shape_spec(x, 0, 0, SAT3_C1 as int)
}

pub open spec fn mag_sat_4_spec(x: int) -> int {
    sat_shape_spec(x, 0, 0, FP_ONE as int)
}

pub open spec fn mag_sat_5_spec(x: int) -> int {
    sat_shape_spec(x, 0, SAT5_C2 as int, 0)
}

/// The saturation laws, stated once for all five materials: every curve
/// fixes zero, stays within one full-scale unit everywhere, is
/// non-decreasing, and is odd — `bias` alone breaks symmetry, outside the
/// curve.
pub proof fn lemma_mag_sat_laws(x1: int, x2: int)
    requires
        x1 <= x2,
    ensures
        mag_sat_1_spec(0) == 0 && mag_sat_2_spec(0) == 0 && mag_sat_3_spec(0) == 0
            && mag_sat_4_spec(0) == 0 && mag_sat_5_spec(0) == 0,
        abs_i(mag_sat_1_spec(x1)) < FP_ONE && abs_i(mag_sat_2_spec(x1)) < FP_ONE && abs_i(
            mag_sat_3_spec(x1),
        ) < FP_ONE && abs_i(mag_sat_4_spec(x1)) < FP_ONE && abs_i(mag_sat_5_spec(x1)) < FP_ONE,
        mag_sat_1_spec(x1) <= mag_sat_1_spec(x2) && mag_sat_2_spec(x1) <= mag_sat_2_spec(x2)
            && mag_sat_3_spec(x1) <= mag_sat_3_spec(x2) && mag_sat_4_spec(x1) <= mag_sat_4_spec(x2)
            && mag_sat_5_spec(x1) <= mag_sat_5_spec(x2),
        mag_sat_1_spec(-x1) == -mag_sat_1_spec(x1) && mag_sat_2_spec(-x1) == -mag_sat_2_spec(x1)
            && mag_sat_3_spec(-x1) == -mag_sat_3_spec(x1) && mag_sat_4_spec(-x1)
            == -mag_sat_4_spec(x1) && mag_sat_5_spec(-x1) == -mag_sat_5_spec(x1),
{
    lemma_sat_shape_zero(SAT1_C3 as int, 0, SAT1_C1 as int);
    lemma_sat_shape_zero(SAT2_C3 as int, 0, SAT2_C1 as int);
    lemma_sat_shape_zero(0, 0, SAT3_C1 as int);
    lemma_sat_shape_zero(0, 0, FP_ONE as int);
    lemma_sat_shape_zero(0, SAT5_C2 as int, 0);
    lemma_sat_shape_bounded(x1, SAT1_C3 as int, 0, SAT1_C1 as int);
    lemma_sat_shape_bounded(x1, SAT2_C3 as int, 0, SAT2_C1 as int);
    lemma_sat_shape_bounded(x1, 0, 0, SAT3_C1 as int);
    lemma_sat_shape_bounded(x1, 0, 0, FP_ONE as int);
    lemma_sat_shape_bounded(x1, 0, SAT5_C2 as int, 0);
    lemma_sat_shape_mono(x1, x2, SAT1_C3 as int, 0, SAT1_C1 as int);
    lemma_sat_shape_mono(x1, x2, SAT2_C3 as int, 0, SAT2_C1 as int);
    lemma_sat_shape_mono(x1, x2, 0, 0, SAT3_C1 as int);
    lemma_sat_shape_mono(x1, x2, 0, 0, FP_ONE as int);
    lemma_sat_shape_mono(x1, x2, 0, SAT5_C2 as int, 0);
    lemma_sat_shape_odd(x1, SAT1_C3 as int, 0, SAT1_C1 as int);
    lemma_sat_shape_odd(x1, SAT2_C3 as int, 0, SAT2_C1 as int);
    lemma_sat_shape_odd(x1, 0, 0, SAT3_C1 as int);
    lemma_sat_shape_odd(x1, 0, 0, FP_ONE as int);
    lemma_sat_shape_odd(x1, 0, SAT5_C2 as int, 0);
}

/// Tungsten magnetic saturation: a fast-tanh-style soft clip of
/// `1.6 x^3 + 0.4 x`.
pub fn mag_sat_1(x: i64) -> (r: i64)
    requires
        fp_ok(x),
    ensures
        r == mag_sat_1_spec(x as int),
        abs_i(r as int) < FP_ONE,
        fp_ok(r),
{
    sat_shape(x, SAT1_C3, 0, SAT1_C1)
}

/// Steel magnetic saturation: a soft clip of `3 x^3 + 0.75 x`.
pub fn mag_sat_2(x: i64) -> (r: i64)
    requires
        fp_ok(x),
    ensures
        r == mag_sat_2_spec(x as int),
        abs_i(r as int) < FP_ONE,
        fp_ok(r),
{
    sat_shape(x, SAT2_C3, 0, SAT2_C1)
}

/// Iron magnetic saturation: a soft clip of `1.6 x`.
pub fn mag_sat_3(x: i64) -> (r: i64)
    requires
        fp_ok(x),
    ensures
        r == mag_sat_3_spec(x as int),
        abs_i(r as int) < FP_ONE,
        fp_ok(r),
{
    sat_shape(x, 0, 0, SAT3_C1)
}

/// Nickel magnetic saturation: the plain soft clip of `x`.
pub fn mag_sat_4(x: i64) -> (r: i64)
    requires
        fp_ok(x),
    ensures
        r == mag_sat_4_spec(x as int),
        abs_i(r as int) < FP_ONE,
        fp_ok(r),
{
    sat_shape(x, 0, 0, FP_ONE)
}

/// Magnetite magnetic saturation: a soft clip of a square-law magnitude
/// curve, `3 x |x|`, the integer stand-in for the near-quadratic power law.
pub fn mag_sat_5(x: i64) -> (r: i64)
    requires
        fp_ok(x),
    ensures
        r == mag_sat_5_spec(x as int),
        abs_i(r as int) < FP_ONE,
        fp_ok(r),
{
    sat_shape(x, 0, SAT5_C2, 0)
}

} // verus!

// === derivative, bias, crossover, playback, quantization ====================

verus! {

/// Largest sampling rate (in hertz) the engine accepts.
pub const SR_MAX: i64 = 1000000;

/// The discrete derivative scaled to one second: `(x - x_p) * sr`, clamped.
pub open spec fn diff_spec(x: int, x_p: int, sr: int) -> int {
    clamp_spec((x - x_p) * sr)
}

/// Real-time derivative approximation. `sr` is the sampling rate in hertz,
/// standing in for the reciprocal of the intersample period.
pub fn diff(x: i64, x_p: i64, sr: i64) -> (r: i64)
    requires
        fp_ok(x),
        fp_ok(x_p),
        1 <= sr <= SR_MAX,
    ensures
        r == diff_spec(x as int, x_p as int, sr as int),
        fp_ok(r),
{
    let d: i64 = x - x_p;
    proof {
        assert(-(0x4000_0000_0000_0000int) <= (d as int) * (sr as int) <= 0x4000_0000_0000_0000int)
            by (nonlinear_arith)
            requires
                -0x8000_0000int <= d as int <= 0x8000_0000int,
                1 <= sr as int <= 1000000int,
        ;
    }
    fp_clamp(d * sr)
}

/// One-pole low pass: `x + (y_p - x) * cut`, the playback-head frequency
/// response and the general tone control. The single truncated product
/// keeps the result between the two inputs, so a constant signal is an
/// exact fixed point of the filter.
pub open spec fn play_spec(x: int, y_p: int, cut: int) -> int {
    x + fp_frac_spec(y_p - x, cut)
}

/// Playback-head frequency response: a one-pole low pass toward the
/// previous output. `cut == 0` passes the input through exactly,
/// `cut == FP_ONE` holds the previous output exactly, equal inputs come
/// back unchanged (unity DC gain), and the result always lies between the
/// two inputs.
pub fn play(x: i64, y_p: i64, cut: i64) -> (r: i64)
    requires
        fp_ok(x),
        fp_ok(y_p),
        0 <= cut <= FP_ONE,
    ensures
        r == play_spec(x as int, y_p as int, cut as int),
        fp_ok(r),
        cut == 0 ==> r == x,
        cut == FP_ONE ==> r == y_p,
        x == y_p ==> r == x,
        x <= y_p ==> x <= r <= y_p,
        y_p <= x ==> y_p <= r <= x,
{
    let d: i64 = y_p - x;
    let m: i64 = fp_frac(d, cut);
    x + m
}

/// One `play` step never overshoots the input, and strictly narrows any
/// nonzero gap to the held output as long as the cutoff is below one.
pub proof fn lemma_play_step_contracts(x: int, y_p: int, cut: int)
    requires
        -FP_LIMIT <= x <= FP_LIMIT,
        -FP_LIMIT <= y_p <= FP_LIMIT,
        0 <= cut <= FP_ONE,
    ensures
        abs_i(play_spec(x, y_p, cut) - x) <= abs_i(y_p - x),
        x <= y_p ==> x <= play_spec(x, y_p, cut) <= y_p,
        y_p <= x ==> y_p <= play_spec(x, y_p, cut) <= x,
        cut < FP_ONE && abs_i(y_p - x) >= 1 ==> abs_i(play_spec(x, y_p, cut) - x) < abs_i(
            y_p - x,
        ),
{
    let s: int = FP_ONE as int;
    let e: int = y_p - x;
    let m: int = abs_i(e);
    let f: int = (m * cut) / s;
    assert(0 <= m * cut) by (nonlinear_arith)
        requires
            0 <= m,
            0 <= cut,
    ;
    vstd::arithmetic::div_mod::lemma_div_pos_is_pos(m * cut, s);
    assert(m * cut <= m * s) by (nonlinear_arith)
        requires
            0 <= m,
            cut <= s,
    ;
    vstd::arithmetic::div_mod::lemma_div_is_ordered(m * cut, m * s, s);
    vstd::arithmetic::div_mod::lemma_div_multiples_vanish(m, s);
    if cut < s && m >= 1 {
        assert(m * cut < s * m) by (nonlinear_arith)
            requires
                1 <= m,
                cut < s,
                0 <= cut,
        ;
        vstd::arithmetic::div_mod::lemma_multiply_divide_lt(m * cut, s, m);
    }
}

/// The held output after `n` `play` steps of a constant input.
pub open spec fn play_iter_spec(x: int, y0: int, cut: int, n: nat) -> int
    decreases n,
{
    if n == 0 {
        y0
    } else {
        play_spec(x, play_iter_spec(x, y0, cut, (n - 1) as nat), cut)
    }
}

/// The tape-head/tone one-pole settles exactly: on a constant input with a
/// cutoff below one, the held output reaches the input itself within a
/// number of samples bounded by the initial gap, and never overshoots on
/// the way.
pub proof fn lemma_play_converges(x: int, y0: int, cut: int, n: nat)
    requires
        -FP_LIMIT <= x <= FP_LIMIT,
        -FP_LIMIT <= y0 <= FP_LIMIT,
        0 <= cut < FP_ONE,
    ensures
        x <= y0 ==> x <= play_iter_spec(x, y0, cut, n) <= y0,
        y0 <= x ==> y0 <= play_iter_spec(x, y0, cut, n) <= x,
        abs_i(play_iter_spec(x, y0, cut, n) - x) <= (if abs_i(y0 - x) - n > 0 {
            abs_i(y0 - x) - n
        } else {
            0
        }),
        n >= abs_i(y0 - x) ==> play_iter_spec(x, y0, cut, n) == x,
    decreases n,
{
    if n > 0 {
        lemma_play_converges(x, y0, cut, (n - 1) as nat);
        lemma_play_step_contracts(x, play_iter_spec(x, y0, cut, (n - 1) as nat), cut);
    }
}

/// Weight in front of the swish curve: `2 - bias / 4`.
pub const TB_TWO: i64 = 131072;

/// Algebraic logistic: `1/2 + sat_core(t / 2) / 2`, a monotone sigmoid
/// fixing one half at zero.
pub open spec fn tube_sigma_spec(t: int) -> int {
    (FP_ONE + sat_core_spec(fp_divi_spec(t, 2))) / 2
}

/// Tube bias curve: `x * (2 - bias/4) * sigma(bias * x)`, a swish shape.
pub open spec fn tube_bias_spec(x: int, bias: int) -> int {
    let g = fp_sub_spec(TB_TWO as int, fp_divi_spec(bias, 4));
    let sg = tube_sigma_spec(fp_mul_spec(bias, x));
    fp_mul_spec(x, fp_mul_spec(g, sg))
}

/// Tube bias (swish curve). With `bias == 0` it is exactly the identity.
pub fn tube_bias(x: i64, bias: i64) -> (r: i64)
    requires
        fp_ok(x),
        -FP_ONE <= bias <= FP_ONE,
    ensures
        r == tube_bias_spec(x as int, bias as int),
        fp_ok(r),
        bias == 0 ==> r == x,
{
    let bx: i64 = fp_mul(bias, x);
    let s: i64 = sat_core(fp_divi(bx, 2));
    let sigma: i64 = (((FP_ONE + s) as u64) / 2) as i64;
    let g: i64 = fp_sub(TB_TWO, fp_divi(bias, 4));
    let coef: i64 = fp_mul(g, sigma);
    proof {
        if bias == 0 {
            lemma_fp_mul_zero(x as int);
            vstd::arithmetic::div_mod::lemma_div_of0(2);
            vstd::arithmetic::div_mod::lemma_div_of0(4);
            lemma_sat_core_zero();
            assert(sigma == 32768);
            assert(g == 131072);
            vstd::arithmetic::div_mod::lemma_div_multiples_vanish(65536, 65536);
            assert((131072 * 32768) == (65536int * 65536int));
            assert(coef == FP_ONE);
            lemma_fp_mul_one(x as int);
        }
    }
    fp_mul(x, coef)
}

/// Digital crossover: subtract the amount-scaled clamp of the input to the
/// window `[-w, w]`. The identity when `amt == 0`.
pub open spec fn digital_xover_spec(x: int, amt: int, w: int) -> int {
    let c = if x > w {
        w
    } else if x < -w {
        -w
    } else {
        x
    };
    fp_sub_spec(x, fp_mul_spec(amt, c))
}

/// Digital crossover: a dead-zone shape of width `w`, scaled by `amt`.
pub fn digital_xover(x: i64, amt: i64, w: i64) -> (r: i64)
    requires
        fp_ok(x),
        0 <= amt <= FP_ONE,
        0 <= w <= FP_ONE,
    ensures
        r == digital_xover_spec(x as int, amt as int, w as int),
        fp_ok(r),
        amt == 0 ==> r == x,
{
    let c: i64 = if x > w {
        w
    } else if x < -w {
        -w
    } else {
        x
    };
    proof {
        if amt == 0 {
            lemma_fp_mul_zero(c as int);
        }
    }
    fp_sub(x, fp_mul(amt, c))
}

/// The circular knee under the analog crossover: `w - sqrt(w^2 - m^2)` for
/// a magnitude `m` already clamped to the window, with the radicand guarded
/// at zero. The radicand is kept at full scale (the raw products fit in 64
/// bits), so the knee at `m == 0` is exactly zero.
pub open spec fn analog_knee_spec(m: int, w: int) -> int {
    let rad = w * w - m * m;
    let radc = if rad < 0 {
        0
    } else {
        rad
    };
    w - sqrt_floor(radc as nat)
}

/// The knee vanishes at the window's center: silence stays silence.
pub proof fn lemma_analog_knee_zero(w: int)
    requires
        0 <= w,
    ensures
        analog_knee_spec(0, w) == 0,
{
    assert(0 <= w * w) by (nonlinear_arith)
        requires
            0 <= w,
    ;
    assert(w * w < (w + 1) * (w + 1)) by (nonlinear_arith)
        requires
            0 <= w,
    ;
    crate::fixed::lemma_sqrt_unique((w * w) as nat, w as nat);
}

/// Analog crossover: inside the window the transition follows a circular
/// arc toward the rim; outside it shifts by the full knee depth.
pub open spec fn analog_xover_spec(x: int, amt: int, w: int) -> int {
    let m = if abs_i(x) > w {
        w
    } else {
        abs_i(x)
    };
    let k = analog_knee_spec(m, w);
    let ks = if x < 0 {
        -k
    } else {
        k
    };
    fp_sub_spec(x, fp_mul_spec(amt, ks))
}

/// Analog crossover: a smooth dead zone of width `w` scaled by `amt`,
/// the identity when `amt == 0`, odd, and exactly zero at zero. The
/// square-root radicand is explicitly clamped at zero.
pub fn analog_xover(x: i64, amt: i64, w: i64) -> (r: i64)
    requires
        fp_ok(x),
        0 <= amt <= FP_ONE,
        0 <= w <= FP_ONE,
    ensures
        r == analog_xover_spec(x as int, amt as int, w as int),
        fp_ok(r),
        amt == 0 ==> r == x,
        x == 0 ==> r == 0,
{
    let ax: i64 = if x < 0 {
        -x
    } else {
        x
    };
    let m: i64 = if ax > w {
        w
    } else {
        ax
    };
    proof {
        assert((w as u64) * (w as u64) <= 65536u64 * 65536u64) by (nonlinear_arith)
            requires
                w as u64 <= 65536u64,
        ;
        assert((m as u64) * (m as u64) <= 65536u64 * 65536u64) by (nonlinear_arith)
            requires
                m as u64 <= 65536u64,
        ;
    }
    let ww: u64 = (w as u64) * (w as u64);
    let mm: u64 = (m as u64) * (m as u64);
    let rad: u64 = if mm > ww {
        0
    } else {
        ww - mm
    };
    let squ: u64 = isqrt64(rad);
    proof {
        assert(squ * squ <= rad);
        assert(squ <= 65536) by (nonlinear_arith)
            requires
                squ * squ <= 0x1_0000_0000u64,
        ;
        if x == 0 {
            lemma_analog_knee_zero(w as int);
        }
    }
    let sq: i64 = squ as i64;
    let k: i64 = w - sq;
    let ks: i64 = if x < 0 {
        -k
    } else {
        k
    };
    proof {
        assert(abs_i(ks as int) <= FP_ONE + FP_ONE);
        if amt == 0 || x == 0 {
            lemma_fp_mul_zero(ks as int);
            lemma_fp_mul_zero(amt as int);
        }
    }
    fp_sub(x, fp_mul(amt, ks))
}

/// The analog crossover is odd: the knee depends on the magnitude alone
/// and is applied with the input's sign, and it vanishes at zero.
pub proof fn lemma_analog_xover_odd(x: int, amt: int, w: int)
    requires
        0 <= amt,
        0 <= w,
    ensures
        analog_xover_spec(-x, amt, w) == -analog_xover_spec(x, amt, w),
{
    if x == 0 {
        lemma_analog_knee_zero(w);
        crate::fixed::lemma_fp_mul_neg(amt, 0);
        lemma_fp_mul_zero(amt);
    } else {
        let m = if abs_i(x) > w {
            w
        } else {
            abs_i(x)
        };
        let k = analog_knee_spec(m, w);
        crate::fixed::lemma_fp_mul_neg(amt, k);
    }
}

// === stochastic quantization ================================================

/// Integer power of a unit-interval fixed-point value.
pub open spec fn fp_pow_spec(b: int, e: nat) -> int
    decreases e,
{
    if e == 0 {
        FP_ONE as int
    } else {
        fp_mul_spec(fp_pow_spec(b, (e - 1) as nat), b)
    }
}

/// A positive power of zero is zero.
pub proof fn lemma_fp_pow_zero(e: nat)
    requires
        e >= 1,
    ensures
        fp_pow_spec(0, e) == 0,
{
    lemma_fp_mul_zero(fp_pow_spec(0, (e - 1) as nat));
}

/// Raise a unit-interval value to an integer power.
pub fn fp_pow(b: i64, e: u64) -> (r: i64)
    requires
        0 <= b <= FP_ONE,
    ensures
        r == fp_pow_spec(b as int, e as nat),
        0 <= r <= FP_ONE,
{
    let mut acc: i64 = FP_ONE;
    let mut i: u64 = 0;
    while i < e
        invariant
            0 <= i <= e,
            0 <= b <= FP_ONE,
            0 <= acc <= FP_ONE,
            acc == fp_pow_spec(b as int, i as nat),
        decreases e - i,
    {
        proof {
            lemma_fp_mul_nonneg(acc as int, b as int);
            lemma_fp_mul_contracts(acc as int, b as int);
        }
        acc = fp_mul(acc, b);
        i = i + 1;
    }
    acc
}

/// The sample-rate-normalized exponent of the hold probability:
/// `8 * 44100 / sr`, confined to `[1, 64]`.
pub open spec fn quant_exponent_spec(sr: int) -> nat {
    let e: int = 352800int / sr;
    if e < 1 {
        1
    } else if e > 64 {
        64
    } else {
        e as nat
    }
}

/// The switching threshold: `|dx| * (1 - q)^e`.
pub open spec fn quant_threshold_spec(x: int, x_p: int, sr: int, q: int) -> int {
    let ad = abs_i(diff_spec(x, x_p, sr));
    fp_mul_spec(ad, fp_pow_spec(fp_sub_spec(FP_ONE as int, q), quant_exponent_spec(sr)))
}

/// Unit powers are monotone in the base and stay in the unit interval.
pub proof fn lemma_fp_pow_mono(b1: int, b2: int, e: nat)
    requires
        0 <= b1 <= b2 <= FP_ONE,
    ensures
        0 <= fp_pow_spec(b1, e) <= fp_pow_spec(b2, e) <= FP_ONE,
    decreases e,
{
    if e > 0 {
        lemma_fp_pow_mono(b1, b2, (e - 1) as nat);
        let p1 = fp_pow_spec(b1, (e - 1) as nat);
        let p2 = fp_pow_spec(b2, (e - 1) as nat);
        lemma_fp_mul_mono(p1, p2, b1);
        lemma_fp_mul_comm(p2, b1);
        lemma_fp_mul_comm(p2, b2);
        lemma_fp_mul_mono(b1, b2, p2);
        lemma_fp_mul_nonneg(p1, b1);
        lemma_fp_mul_nonneg(p2, b2);
        lemma_fp_mul_contracts(p2, b2);
    }
}

/// The quantizer holds more as the amount grows: its switching threshold
/// is non-increasing in the amount. Together with the exact limits — zero
/// amount always switches, full amount always holds — this is the
/// domain-switching law.
pub proof fn lemma_quant_threshold_antitone(x: int, x_p: int, sr: int, q1: int, q2: int)
    ensures
        0 <= q1 <= q2 <= FP_ONE ==> quant_threshold_spec(x, x_p, sr, q2) <= quant_threshold_spec(
            x,
            x_p,
            sr,
            q1,
        ),
{
    if 0 <= q1 <= q2 <= FP_ONE {
        let e = quant_exponent_spec(sr);
        let b1 = fp_sub_spec(FP_ONE as int, q2);
        let b2 = fp_sub_spec(FP_ONE as int, q1);
        lemma_fp_pow_mono(b1, b2, e);
        let ad = abs_i(diff_spec(x, x_p, sr));
        lemma_fp_mul_comm(ad, fp_pow_spec(b1, e));
        lemma_fp_mul_comm(ad, fp_pow_spec(b2, e));
        lemma_fp_mul_mono(fp_pow_spec(b1, e), fp_pow_spec(b2, e), ad);
    }
}

/// The quantizer's decision on an already-drawn variate: take the new
/// value if the variate falls under the slope-dependent threshold (always,
/// when the amount is zero), else hold the previous value.
pub open spec fn quant_choose_spec(x: int, x_p: int, sr: int, q: int, draw: int) -> int {
    if q == 0 {
        x
    } else if draw < quant_threshold_spec(x, x_p, sr, q) {
        x
    } else {
        x_p
    }
}

/// What the stochastic quantizer returns when it draws the variate itself.
pub open spec fn x_quant_spec(x: int, x_p: int, sr: int, q: int, rng: TapeRng) -> int {
    quant_choose_spec(x, x_p, sr, q, unit_of(rng_out_spec(rng)) as int)
}

/// The quantizer's decision applied to a variate drawn by the caller.
pub fn x_quant_pick(x: i64, x_p: i64, sr: i64, q: i64, draw: i64) -> (r: i64)
    requires
        fp_ok(x),
        fp_ok(x_p),
        1 <= sr <= SR_MAX,
        0 <= q <= FP_ONE,
        0 <= draw < FP_ONE,
    ensures
        r == quant_choose_spec(x as int, x_p as int, sr as int, q as int, draw as int),
        q == 0 ==> r == x,
        q == FP_ONE ==> r == x_p,
        x == 0 && x_p == 0 ==> r == 0,
        fp_ok(r),
{
    let d: i64 = diff(x, x_p, sr);
    let ad: i64 = if d < 0 {
        -d
    } else {
        d
    };
    let e_raw: u64 = 352800 / (sr as u64);
    let e: u64 = if e_raw < 1 {
        1
    } else if e_raw > 64 {
        64
    } else {
        e_raw
    };
    proof {
        assert(e as nat == quant_exponent_spec(sr as int));
    }
    let keep: i64 = fp_pow(fp_sub(FP_ONE, q), e);
    let thr: i64 = fp_mul(ad, keep);
    proof {
        if q == FP_ONE {
            lemma_fp_pow_zero(e as nat);
            lemma_fp_mul_zero(ad as int);
        }
        if x == 0 && x_p == 0 {
            lemma_fp_mul_zero(keep as int);
        }
    }
    if q == 0 {
        x
    } else if draw < thr {
        x
    } else {
        x_p
    }
}

/// Stochastic quantization: simulates discrete magnetic-domain switching.
/// Draws exactly one variate from the stream whatever the amount; with
/// `q == 0` the result is the input itself, with `q == FP_ONE` the held
/// previous value.
pub fn x_quant(x: i64, x_p: i64, sr: i64, q: i64, rng: &mut TapeRng) -> (r: i64)
    requires
        fp_ok(x),
        fp_ok(x_p),
        1 <= sr <= SR_MAX,
        0 <= q <= FP_ONE,
    ensures
        r == x_quant_spec(x as int, x_p as int, sr as int, q as int, *old(rng)),
        *final(rng) == rng_step_spec(*old(rng)),
        q == 0 ==> r == x,
        q == FP_ONE ==> r == x_p,
        fp_ok(r),
{
    let draw: i64 = rng.next_unit();
    x_quant_pick(x, x_p, sr, q, draw)
}

} // verus!
