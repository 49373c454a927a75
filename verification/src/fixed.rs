//! Saturating fixed-point scalars.
//!
//! Every scalar the simulation stores is an `i64` interpreted as the real
//! number `raw / SCALE`.  Products and quotients are computed exactly in
//! 128-bit intermediates, rounded toward zero, and saturated into
//! `[-LIM, LIM]`, so no operation can overflow or panic.

use vstd::prelude::*;
use vstd::arithmetic::div_mod::lemma_div_multiples_vanish;

verus! {

/// Number of raw units per logical unit: a scalar with raw value `v`
/// stands for the real number `v / SCALE`.
pub const SCALE: i64 = 1073741824;

/// Every stored scalar is kept within `[-LIM, LIM]`; arithmetic saturates
/// at these bounds instead of overflowing.
pub const LIM: i64 = 4398046511104;

/// Truncating (round-toward-zero) division: the rounding used by every
/// fixed-point product and quotient.
pub open spec fn tdiv(a: int, b: int) -> int
    recommends
        b != 0,
{
    if a >= 0 {
        if b >= 0 {
            a / b
        } else {
            -(a / (-b))
        }
    } else {
        if b >= 0 {
            -((-a) / b)
        } else {
            (-a) / (-b)
        }
    }
}

/// Saturation of a mathematical result into the representable range.
pub open spec fn clip(v: int) -> int {
    if v > LIM {
        LIM as int
    } else if v < -(LIM as int) {
        -(LIM as int)
    } else {
        v
    }
}

/// Whether a value lies in the representable scalar range.
pub open spec fn in_range(v: int) -> bool {
    -(LIM as int) <= v <= LIM as int
}

/// The exact meaning of fixed-point addition.
pub open spec fn fx_add_s(a: int, b: int) -> int {
    clip(a + b)
}

/// The exact meaning of fixed-point subtraction.
pub open spec fn fx_sub_s(a: int, b: int) -> int {
    clip(a - b)
}

/// The exact meaning of fixed-point multiplication.
pub open spec fn fx_mul_s(a: int, b: int) -> int {
    clip(tdiv(a * b, SCALE as int))
}

/// The exact meaning of fixed-point division.
pub open spec fn fx_div_s(a: int, b: int) -> int
    recommends
        b != 0,
{
    clip(tdiv(a * (SCALE as int), b))
}

/// Saturate a wide intermediate into the scalar range.
fn sat(v: i128) -> (r: i64)
    ensures
        r as int == clip(v as int),
{
    if v > LIM as i128 {
        LIM
    } else if v < -(LIM as i128) {
        -LIM
    } else {
        v as i64
    }
}

/// Fixed-point addition, saturating at the range bounds.
pub fn fx_add(a: i64, b: i64) -> (r: i64)
    requires
        in_range(a as int),
        in_range(b as int),
    ensures
        r as int == fx_add_s(a as int, b as int),
        in_range(r as int),
{
    sat(a as i128 + b as i128)
}

/// Fixed-point subtraction, saturating at the range bounds.
pub fn fx_sub(a: i64, b: i64) -> (r: i64)
    requires
        in_range(a as int),
        in_range(b as int),
    ensures
        r as int == fx_sub_s(a as int, b as int),
        in_range(r as int),
{
    sat(a as i128 - b as i128)
}

/// Fixed-point negation.
pub fn fx_neg(a: i64) -> (r: i64)
    requires
        in_range(a as int),
    ensures
        r as int == -(a as int),
        in_range(r as int),
{
    -a
}

/// Fixed-point multiplication: exact product, truncated by `SCALE`,
/// saturated into range.
pub fn fx_mul(a: i64, b: i64) -> (r: i64)
    requires
        in_range(a as int),
        in_range(b as int),
    ensures
        r as int == fx_mul_s(a as int, b as int),
        in_range(r as int),
{
    proof {
        assert(-(LIM as int) * (LIM as int) <= (a as int) * (b as int) <= (LIM as int) * (
        LIM as int)) by (nonlinear_arith)
            requires
                -(LIM as int) <= a as int <= LIM as int,
                -(LIM as int) <= b as int <= LIM as int,
        ;
    }
    let p: i128 = (a as i128) * (b as i128);
    let neg: bool = p < 0;
    let mag: u128 = if neg {
        (-p) as u128
    } else {
        p as u128
    };
    let q: u128 = mag / (SCALE as u128);
    let qc: u128 = if q > (LIM as u128) {
        LIM as u128
    } else {
        q
    };
    let r: i64 = if neg {
        -(qc as i64)
    } else {
        qc as i64
    };
    r
}

/// Fixed-point division: exact quotient of `a * SCALE` by `b`, truncated
/// toward zero, saturated into range.
pub fn fx_div(a: i64, b: i64) -> (r: i64)
    requires
        in_range(a as int),
        b != 0,
    ensures
        r as int == fx_div_s(a as int, b as int),
        in_range(r as int),
{
    proof {
        assert(-(LIM as int) * (SCALE as int) <= (a as int) * (SCALE as int) <= (LIM as int) * (
        SCALE as int)) by (nonlinear_arith)
            requires
                -(LIM as int) <= a as int <= LIM as int,
        ;
    }
    let p: i128 = (a as i128) * (SCALE as i128);
    let p_neg: bool = p < 0;
    let mag_p: u128 = if p_neg {
        (-p) as u128
    } else {
        p as u128
    };
    let b_neg: bool = b < 0;
    let mag_b: u128 = if b_neg {
        (-(b as i128)) as u128
    } else {
        b as u128
    };
    let q: u128 = mag_p / mag_b;
    let qc: u128 = if q > (LIM as u128) {
        LIM as u128
    } else {
        q
    };
    let r: i64 = if p_neg != b_neg {
        -(qc as i64)
    } else {
        qc as i64
    };
    r
}

/// Halve a scalar, rounding toward zero.
pub fn half(v: i64) -> (r: i64)
    requires
        in_range(v as int),
    ensures
        r as int == tdiv(v as int, 2),
        in_range(r as int),
{
    let neg: bool = v < 0;
    let mag: u64 = if neg {
        (-(v as i128)) as u64
    } else {
        v as u64
    };
    let q: u64 = mag / 2;
    if neg {
        -(q as i64)
    } else {
        q as i64
    }
}

/// Divide a scalar by a positive count, rounding toward zero.
pub fn int_div(a: i64, b: i64) -> (r: i64)
    requires
        in_range(a as int),
        b > 0,
    ensures
        r as int == tdiv(a as int, b as int),
        in_range(r as int),
{
    let neg: bool = a < 0;
    let mag: u64 = if neg {
        (-(a as i128)) as u64
    } else {
        a as u64
    };
    let q: u64 = mag / (b as u64);
    if neg {
        -(q as i64)
    } else {
        q as i64
    }
}

/// The whole logical units of a scalar: division by `SCALE`, rounding
/// toward zero.
pub fn to_units(v: i64) -> (r: i64)
    requires
        in_range(v as int),
    ensures
        r as int == tdiv(v as int, SCALE as int),
        in_range(r as int),
{
    let neg: bool = v < 0;
    let mag: u64 = if neg {
        (-(v as i128)) as u64
    } else {
        v as u64
    };
    let q: u64 = mag / (SCALE as u64);
    if neg {
        -(q as i64)
    } else {
        q as i64
    }
}

/// The scalar standing for a whole number of logical units, saturated into
/// range.
pub fn from_units(u: i64) -> (r: i64)
    ensures
        r as int == clip((u as int) * (SCALE as int)),
        in_range(r as int),
{
    proof {
        assert(-9903520314283042199192993792 <= (u as int) * (SCALE as int)
            <= 9903520314283042199192993792) by (nonlinear_arith)
            requires
                -9223372036854775808 <= u as int <= 9223372036854775807,
        ;
    }
    sat((u as i128) * (SCALE as i128))
}

/// Truncating division cancels an exact multiple: `(a * d) / d == a`.
pub proof fn lemma_tdiv_mul_cancel(a: int, d: int)
    requires
        d > 0,
    ensures
        tdiv(a * d, d) == a,
{
    if a >= 0 {
        assert(a * d >= 0) by (nonlinear_arith)
            requires
                a >= 0,
                d > 0,
        ;
        lemma_div_multiples_vanish(a, d);
        assert(a * d == d * a) by (nonlinear_arith);
    } else {
        assert(a * d < 0) by (nonlinear_arith)
            requires
                a < 0,
                d > 0,
        ;
        lemma_div_multiples_vanish(-a, d);
        assert(-(a * d) == d * (-a)) by (nonlinear_arith);
    }
}

/// Dividing a nonzero scalar by itself yields exactly one.
pub proof fn lemma_fx_div_self(a: int)
    requires
        a != 0,
        in_range(a),
    ensures
        fx_div_s(a, a) == SCALE as int,
{
    if a > 0 {
        assert(a * (SCALE as int) == (SCALE as int) * a) by (nonlinear_arith);
        assert(a * (SCALE as int) >= 0) by (nonlinear_arith)
            requires
                a > 0,
        ;
        lemma_div_multiples_vanish(SCALE as int, a);
        assert(tdiv(a * (SCALE as int), a) == SCALE as int);
    } else {
        assert(a * (SCALE as int) < 0) by (nonlinear_arith)
            requires
                a < 0,
        ;
        assert(-(a * (SCALE as int)) == (-a) * (SCALE as int)) by (nonlinear_arith);
        lemma_tdiv_mul_cancel(SCALE as int, -a);
        assert((SCALE as int) * (-a) == (-a) * (SCALE as int)) by (nonlinear_arith);
        assert(tdiv(a * (SCALE as int), a) == (-(a * (SCALE as int))) / (-a));
        assert(((SCALE as int) * (-a)) / (-a) == SCALE as int) by {
            lemma_div_multiples_vanish(SCALE as int, -a);
            assert((-a) * (SCALE as int) == (SCALE as int) * (-a)) by (nonlinear_arith);
        }
    }
}

/// Multiplying by one is the identity on in-range scalars.
pub proof fn lemma_fx_mul_one(v: int)
    requires
        in_range(v),
    ensures
        fx_mul_s(SCALE as int, v) == v,
{
    lemma_tdiv_mul_cancel(v, SCALE as int);
    assert((SCALE as int) * v == v * (SCALE as int)) by (nonlinear_arith);
}

/// Integer square root of a 128-bit value, by bisection.
pub fn isqrt_u128(v: u128) -> (r: u64)
    ensures
        (r as int) * (r as int) <= v as int,
        (v as int) < (r as int + 1) * (r as int + 1),
{
    let mut lo: u128 = 0;
    let mut hi: u128 = 18446744073709551616;
    proof {
        assert((v as int) < 18446744073709551616 * 18446744073709551616);
    }
    while lo + 1 < hi
        invariant
            lo < hi,
            hi <= 18446744073709551616,
            (lo as int) * (lo as int) <= v as int,
            (v as int) < (hi as int) * (hi as int),
        decreases hi - lo,
    {
        let mid: u128 = lo + (hi - lo) / 2;
        proof {
            assert((mid as int) * (mid as int) <= 18446744073709551615
                * 18446744073709551615) by (nonlinear_arith)
                requires
                    0 <= mid as int <= 18446744073709551615,
            ;
        }
        let sq: u128 = mid * mid;
        if sq <= v {
            lo = mid;
        } else {
            hi = mid;
        }
    }
    lo as u64
}

} // verus!
