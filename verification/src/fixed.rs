//! Q47.16 fixed-point arithmetic on `i64`.
//!
//! Every signal value in the pipeline is an `i64` holding `value * FP_ONE`.
//! All operations clamp their result into `[-FP_LIMIT, FP_LIMIT]`, so a
//! stage can never overflow or fail: out-of-range intermediates degrade by
//! bounded clamping, never by wrapping. Multiplication and division work on
//! sign and magnitude, so the executable truncation agrees exactly with the
//! specification's Euclidean division on non-negative operands.

use vstd::prelude::*;

verus! {

/// 1.0 in Q47.16.
pub const FP_ONE: i64 = 65536;

/// Largest magnitude any pipeline value may carry (2^30, about 16384.0).
pub const FP_LIMIT: i64 = 0x4000_0000;

/// A well-formed pipeline value: clamped into the working range.
pub open spec fn fp_ok(v: i64) -> bool {
    -FP_LIMIT <= v <= FP_LIMIT
}

pub open spec fn abs_i(v: int) -> int {
    if v < 0 {
        -v
    } else {
        v
    }
}

pub open spec fn clamp_spec(v: int) -> int {
    if v < -FP_LIMIT {
        -FP_LIMIT as int
    } else if v > FP_LIMIT {
        FP_LIMIT as int
    } else {
        v
    }
}

/// Saturating multiply of the real values: `(a/S)*(b/S)` scaled back by `S`,
/// truncated toward zero, clamped into the working range.
pub open spec fn fp_mul_spec(a: int, b: int) -> int {
    let m = (abs_i(a) * abs_i(b)) / (FP_ONE as int);
    if (a < 0) != (b < 0) {
        clamp_spec(-m)
    } else {
        clamp_spec(m)
    }
}

/// Saturating divide of the real values, truncated toward zero.
pub open spec fn fp_div_spec(a: int, b: int) -> int {
    let m = (abs_i(a) * (FP_ONE as int)) / abs_i(b);
    if (a < 0) != (b < 0) {
        clamp_spec(-m)
    } else {
        clamp_spec(m)
    }
}

pub open spec fn fp_add_spec(a: int, b: int) -> int {
    clamp_spec(a + b)
}

pub open spec fn fp_sub_spec(a: int, b: int) -> int {
    clamp_spec(a - b)
}

/// Clamp a raw value into the working range.
pub fn fp_clamp(v: i64) -> (r: i64)
    ensures
        r == clamp_spec(v as int),
        fp_ok(r),
{
    if v < -FP_LIMIT {
        -FP_LIMIT
    } else if v > FP_LIMIT {
        FP_LIMIT
    } else {
        v
    }
}

/// Saturating addition.
pub fn fp_add(a: i64, b: i64) -> (r: i64)
    requires
        fp_ok(a),
        fp_ok(b),
    ensures
        r == fp_add_spec(a as int, b as int),
        fp_ok(r),
{
    fp_clamp(a + b)
}

/// Saturating subtraction.
pub fn fp_sub(a: i64, b: i64) -> (r: i64)
    requires
        fp_ok(a),
        fp_ok(b),
    ensures
        r == fp_sub_spec(a as int, b as int),
        fp_ok(r),
{
    fp_clamp(a - b)
}

/// Saturating fixed-point multiplication.
pub fn fp_mul(a: i64, b: i64) -> (r: i64)
    requires
        fp_ok(a),
        fp_ok(b),
    ensures
        r == fp_mul_spec(a as int, b as int),
        fp_ok(r),
{
    let neg: bool = (a < 0) != (b < 0);
    let ma: u64 = if a < 0 {
        (-a) as u64
    } else {
        a as u64
    };
    let mb: u64 = if b < 0 {
        (-b) as u64
    } else {
        b as u64
    };
    proof {
        assert(ma as int == abs_i(a as int));
        assert(mb as int == abs_i(b as int));
        assert(ma <= 0x4000_0000);
        assert(mb <= 0x4000_0000);
        assert(ma * mb <= 0x4000_0000 * 0x4000_0000) by (nonlinear_arith)
            requires
                ma <= 0x4000_0000,
                mb <= 0x4000_0000,
        ;
    }
    let mu: u64 = (ma * mb) / 65536;
    let m: i64 = mu as i64;
    proof {
        vstd::arithmetic::div_mod::lemma_div_is_ordered(
            ma as int * mb as int,
            0x4000_0000int * 0x4000_0000int,
            65536,
        );
        vstd::arithmetic::div_mod::lemma_div_pos_is_pos(ma as int * mb as int, 65536);
    }
    if neg {
        fp_clamp(-m)
    } else {
        fp_clamp(m)
    }
}

/// Saturating fixed-point division. The caller keeps the denominator away
/// from zero.
pub fn fp_div(a: i64, b: i64) -> (r: i64)
    requires
        fp_ok(a),
        fp_ok(b),
        b != 0,
    ensures
        r == fp_div_spec(a as int, b as int),
        fp_ok(r),
{
    let neg: bool = (a < 0) != (b < 0);
    let ma: u64 = if a < 0 {
        (-a) as u64
    } else {
        a as u64
    };
    let mb: u64 = if b < 0 {
        (-b) as u64
    } else {
        b as u64
    };
    proof {
        assert(ma as int == abs_i(a as int));
        assert(mb as int == abs_i(b as int));
        assert(ma <= 0x4000_0000);
        assert(1 <= mb <= 0x4000_0000);
        assert(ma * 65536 <= 0x4000_0000 * 65536) by (nonlinear_arith)
            requires
                ma <= 0x4000_0000u64,
        ;
    }
    let mu: u64 = (ma * 65536) / mb;
    let m: i64 = mu as i64;
    proof {
        vstd::arithmetic::div_mod::lemma_div_is_ordered_by_denominator(
            ma as int * 65536,
            1,
            mb as int,
        );
        vstd::arithmetic::div_mod::lemma_div_pos_is_pos(ma as int * 65536, mb as int);
        assert((ma as int * 65536) / 1 == ma as int * 65536);
    }
    if neg {
        fp_clamp(-m)
    } else {
        fp_clamp(m)
    }
}

/// Sign-magnitude division by a small positive integer: truncation toward
/// zero, like the multiplication and division above.
pub open spec fn fp_divi_spec(a: int, d: int) -> int {
    let m = abs_i(a) / d;
    if a < 0 {
        -m
    } else {
        m
    }
}

/// Divide by a small positive integer, truncating toward zero.
pub fn fp_divi(a: i64, d: u64) -> (r: i64)
    requires
        fp_ok(a),
        1 <= d,
    ensures
        r == fp_divi_spec(a as int, d as int),
        abs_i(r as int) <= abs_i(a as int),
        fp_ok(r),
{
    let ma: u64 = if a < 0 {
        (-a) as u64
    } else {
        a as u64
    };
    proof {
        assert(ma as int == abs_i(a as int));
        vstd::arithmetic::div_mod::lemma_div_is_ordered_by_denominator(ma as int, 1, d as int);
        vstd::arithmetic::div_mod::lemma_div_pos_is_pos(ma as int, d as int);
        assert((ma as int) / 1 == ma as int);
    }
    let mu: u64 = ma / d;
    let m: i64 = mu as i64;
    if a < 0 {
        -m
    } else {
        m
    }
}

/// The floor of the square root, defined by counting up.
pub open spec fn sqrt_floor(n: nat) -> nat
    decreases n,
{
    if n == 0 {
        0
    } else {
        let r = sqrt_floor((n - 1) as nat);
        if (r + 1) * (r + 1) <= n {
            r + 1
        } else {
            r
        }
    }
}

/// `sqrt_floor` really is the floor of the square root.
pub proof fn lemma_sqrt_floor_bounds(n: nat)
    ensures
        sqrt_floor(n) * sqrt_floor(n) <= n,
        n < (sqrt_floor(n) + 1) * (sqrt_floor(n) + 1),
    decreases n,
{
    if n == 0 {
        let s = sqrt_floor(n);
        assert(s == 0);
        assert((s + 1) * (s + 1) == 1) by (nonlinear_arith)
            requires
                s == 0nat,
        ;
    } else {
        lemma_sqrt_floor_bounds((n - 1) as nat);
        let r = sqrt_floor((n - 1) as nat);
        assert(r * r <= n - 1);
        assert((n - 1) < (r + 1) * (r + 1));
        if (r + 1) * (r + 1) <= n {
            assert(sqrt_floor(n) == r + 1);
            assert(n <= (r + 1) * (r + 1));
            assert((r + 1) * (r + 1) < (r + 2) * (r + 2)) by (nonlinear_arith);
            assert(n < (r + 2) * (r + 2));
        } else {
            assert(sqrt_floor(n) == r);
        }
    }
}

/// Values below a square have a smaller root.
pub proof fn lemma_sqrt_unique(n: nat, r: nat)
    requires
        r * r <= n,
        n < (r + 1) * (r + 1),
    ensures
        r == sqrt_floor(n),
{
    lemma_sqrt_floor_bounds(n);
    let s = sqrt_floor(n);
    if r < s {
        assert((r + 1) * (r + 1) <= s * s) by (nonlinear_arith)
            requires
                r + 1 <= s,
        ;
    }
    if s < r {
        assert((s + 1) * (s + 1) <= r * r) by (nonlinear_arith)
            requires
                s + 1 <= r,
        ;
    }
}

/// Integer square root by bisection.
pub fn isqrt64(n: u64) -> (r: u64)
    ensures
        r == sqrt_floor(n as nat),
        r * r <= n,
        n < (r + 1) * (r + 1),
{
    let mut lo: u64 = 0;
    let mut hi: u64 = 0x1_0000_0000;
    proof {
        assert((0x1_0000_0000int) * (0x1_0000_0000int) > n) by (nonlinear_arith)
            requires
                n <= 0xffff_ffff_ffff_ffffu64,
        ;
    }
    while lo + 1 < hi
        invariant
            lo < hi <= 0x1_0000_0000,
            lo * lo <= n,
            n < hi * hi,
        decreases hi - lo,
    {
        let mid: u64 = lo + (hi - lo) / 2;
        proof {
            vstd::arithmetic::div_mod::lemma_fundamental_div_mod((hi - lo) as int, 2);
            assert(lo < mid < hi);
            assert(mid * mid <= 0xffff_ffffu64 * 0xffff_ffffu64) by (nonlinear_arith)
                requires
                    mid <= 0xffff_ffffu64,
            ;
        }
        if mid * mid <= n {
            lo = mid;
        } else {
            hi = mid;
        }
    }
    proof {
        lemma_sqrt_unique(n as nat, lo as nat);
    }
    lo
}

/// Scale by a unit fraction without clamping: `(v * c) / FP_ONE`
/// truncated toward zero. Since `0 <= c <= FP_ONE` the result never grows
/// the magnitude, so no clamp is needed.
pub open spec fn fp_frac_spec(v: int, c: int) -> int {
    let m = (abs_i(v) * abs_i(c)) / (FP_ONE as int);
    if (v < 0) != (c < 0) {
        -m
    } else {
        m
    }
}

/// Take a unit fraction of a value, truncating toward zero; exact at the
/// endpoints: a zero fraction gives zero, a full fraction gives the value
/// itself.
pub fn fp_frac(v: i64, c: i64) -> (r: i64)
    requires
        -0x100_0000_0000 <= v <= 0x100_0000_0000,
        0 <= c <= FP_ONE,
    ensures
        r == fp_frac_spec(v as int, c as int),
        abs_i(r as int) <= abs_i(v as int),
        v >= 0 ==> 0 <= r <= v,
        v < 0 ==> v <= r <= 0,
        c == 0 ==> r == 0,
        c == FP_ONE ==> r == v,
{
    let mv: u64 = if v < 0 {
        (-v) as u64
    } else {
        v as u64
    };
    proof {
        assert(mv as int == abs_i(v as int));
        assert(mv * (c as u64) <= 0x100_0000_0000u64 * 65536u64) by (nonlinear_arith)
            requires
                mv <= 0x100_0000_0000u64,
                c as u64 <= 65536u64,
        ;
        assert(mv as int * (c as int) <= mv as int * 65536) by (nonlinear_arith)
            requires
                0 <= c as int <= 65536,
                0 <= mv as int,
        ;
        vstd::arithmetic::div_mod::lemma_div_is_ordered(
            mv as int * (c as int),
            mv as int * 65536,
            65536,
        );
        vstd::arithmetic::div_mod::lemma_div_multiples_vanish(mv as int, 65536);
        vstd::arithmetic::div_mod::lemma_div_pos_is_pos(mv as int * (c as int), 65536);
        if c == 0 {
            assert(mv as int * 0 == 0);
            vstd::arithmetic::div_mod::lemma_div_of0(65536);
        }
    }
    let mu: u64 = (mv * (c as u64)) / 65536;
    let m: i64 = mu as i64;
    if v < 0 {
        -m
    } else {
        m
    }
}

/// Negating one factor negates the product exactly.
pub proof fn lemma_fp_mul_neg(a: int, b: int)
    ensures
        fp_mul_spec(a, -b) == -fp_mul_spec(a, b),
{
    assert(abs_i(-b) == abs_i(b));
    if b == 0 {
        vstd::arithmetic::div_mod::lemma_div_pos_is_pos(abs_i(a) * abs_i(b), FP_ONE as int);
        assert(abs_i(a) * 0 == 0);
        vstd::arithmetic::div_mod::lemma_div_of0(FP_ONE as int);
    } else {
        vstd::arithmetic::div_mod::lemma_div_pos_is_pos(abs_i(a) * abs_i(b), FP_ONE as int);
        assert(0 <= abs_i(a) * abs_i(b)) by (nonlinear_arith)
            requires
                0 <= abs_i(a),
                0 <= abs_i(b),
        ;
    }
}

/// Division order transfer across different positive denominators:
/// if `a/d1 <= b/d2` holds of the rationals, it holds of the floors.
pub proof fn lemma_div_cross(a: int, d1: int, b: int, d2: int)
    requires
        0 <= a,
        0 < d1,
        0 < d2,
        a * d2 <= b * d1,
    ensures
        a / d1 <= b / d2,
{
    let m: int = a / d1;
    vstd::arithmetic::div_mod::lemma_fundamental_div_mod(a, d1);
    vstd::arithmetic::div_mod::lemma_mod_division_less_than_divisor(a, d1);
    vstd::arithmetic::div_mod::lemma_div_pos_is_pos(a, d1);
    assert(d1 * m <= a);
    assert(m * d2 <= b) by (nonlinear_arith)
        requires
            d1 * m <= a,
            a * d2 <= b * d1,
            0 < d1,
            0 < d2,
            0 <= m,
    ;
    vstd::arithmetic::div_mod::lemma_div_multiples_vanish(m, d2);
    vstd::arithmetic::div_mod::lemma_div_is_ordered(m * d2, b, d2);
}

/// Multiplying by a factor of at most one (in fixed point) never grows the
/// magnitude.
pub proof fn lemma_fp_mul_contracts(a: int, b: int)
    requires
        0 <= abs_i(b) <= FP_ONE,
    ensures
        abs_i(fp_mul_spec(a, b)) <= abs_i(a),
{
    let s: int = FP_ONE as int;
    let m: int = (abs_i(a) * abs_i(b)) / s;
    assert(abs_i(a) * abs_i(b) <= abs_i(a) * s) by (nonlinear_arith)
        requires
            0 <= abs_i(a),
            0 <= abs_i(b) <= s,
    ;
    vstd::arithmetic::div_mod::lemma_div_is_ordered(abs_i(a) * abs_i(b), abs_i(a) * s, s);
    vstd::arithmetic::div_mod::lemma_div_multiples_vanish(abs_i(a), s);
    vstd::arithmetic::div_mod::lemma_div_pos_is_pos(abs_i(a) * abs_i(b), s);
    assert((abs_i(a) * s) / s == abs_i(a));
}

/// Multiplying by one (in fixed point) is exact.
pub proof fn lemma_fp_mul_one(a: int)
    requires
        abs_i(a) <= FP_LIMIT,
    ensures
        fp_mul_spec(a, FP_ONE as int) == a,
{
    let s: int = FP_ONE as int;
    vstd::arithmetic::div_mod::lemma_div_multiples_vanish(abs_i(a), s);
    assert((abs_i(a) * s) / s == abs_i(a));
}

/// Multiplying by zero gives zero.
pub proof fn lemma_fp_mul_zero(a: int)
    ensures
        fp_mul_spec(a, 0) == 0,
        fp_mul_spec(0, a) == 0,
{
    let s: int = FP_ONE as int;
    assert(abs_i(a) * 0 == 0);
    assert(0 * abs_i(a) == 0);
    vstd::arithmetic::div_mod::lemma_div_of0(s);
}

/// Fixed-point multiplication is monotone in its first argument when the
/// second is non-negative.
pub proof fn lemma_fp_mul_mono(a1: int, a2: int, b: int)
    requires
        a1 <= a2,
        0 <= b,
    ensures
        fp_mul_spec(a1, b) <= fp_mul_spec(a2, b),
{
    let s: int = FP_ONE as int;
    let m1: int = (abs_i(a1) * abs_i(b)) / s;
    let m2: int = (abs_i(a2) * abs_i(b)) / s;
    vstd::arithmetic::div_mod::lemma_div_pos_is_pos(abs_i(a1) * abs_i(b), s);
    vstd::arithmetic::div_mod::lemma_div_pos_is_pos(abs_i(a2) * abs_i(b), s);
    assert(0 <= abs_i(a1) * abs_i(b)) by (nonlinear_arith)
        requires
            0 <= abs_i(a1),
            0 <= abs_i(b),
    ;
    assert(0 <= abs_i(a2) * abs_i(b)) by (nonlinear_arith)
        requires
            0 <= abs_i(a2),
            0 <= abs_i(b),
    ;
    if a1 < 0 && a2 < 0 {
        // both results are -m, and abs(a2) <= abs(a1)
        assert(abs_i(a2) * abs_i(b) <= abs_i(a1) * abs_i(b)) by (nonlinear_arith)
            requires
                0 <= abs_i(a2) <= abs_i(a1),
                0 <= abs_i(b),
        ;
        vstd::arithmetic::div_mod::lemma_div_is_ordered(abs_i(a2) * abs_i(b), abs_i(a1) * abs_i(b), s);
    } else if a1 < 0 && a2 >= 0 {
        // -m1 <= 0 <= m2 (modulo clamping, which keeps signs)
        assert(fp_mul_spec(a1, b) <= 0);
        assert(fp_mul_spec(a2, b) >= 0);
    } else {
        // both non-negative: abs(a1) <= abs(a2)
        assert(abs_i(a1) * abs_i(b) <= abs_i(a2) * abs_i(b)) by (nonlinear_arith)
            requires
                0 <= abs_i(a1) <= abs_i(a2),
                0 <= abs_i(b),
        ;
        vstd::arithmetic::div_mod::lemma_div_is_ordered(abs_i(a1) * abs_i(b), abs_i(a2) * abs_i(b), s);
    }
}

} // verus!
