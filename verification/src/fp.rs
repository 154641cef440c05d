//! Saturating fixed-point arithmetic in micro-units: the value `v` stands for
//! the real number `v / 1_000_000`. Every executable operation is total and
//! mirrored exactly by a spec function, so that everything built on top is a
//! mathematical function of its inputs.

use vstd::prelude::*;

verus! {

use vstd::arithmetic::div_mod::lemma_fundamental_div_mod;
use vstd::arithmetic::div_mod::lemma_fundamental_div_mod_converse;
use vstd::arithmetic::div_mod::lemma_div_by_multiple;
use vstd::arithmetic::div_mod::lemma_multiply_divide_le;

/// One whole unit: fixed-point values carry six decimal places.
pub const FP_ONE: i64 = 1_000_000;

/// Half a unit.
pub const FP_HALF: i64 = 500_000;

/// A quarter of a unit.
pub const FP_QUARTER: i64 = 250_000;

/// Clamps an unbounded integer into the `i64` range.
pub open spec fn spec_sat(v: int) -> i64 {
    if v > i64::MAX as int {
        i64::MAX
    } else if v < i64::MIN as int {
        i64::MIN
    } else {
        v as i64
    }
}

/// Division truncated toward zero, as machine division rounds; meaningful for
/// `b > 0`.
pub open spec fn tdiv(a: int, b: int) -> int {
    if a >= 0 {
        a / b
    } else {
        -((-a) / b)
    }
}

/// Saturating sum.
pub open spec fn spec_sat_add(a: int, b: int) -> i64 {
    spec_sat(a + b)
}

/// Saturating difference.
pub open spec fn spec_sat_sub(a: int, b: int) -> i64 {
    spec_sat(a - b)
}

/// Saturating plain product (no fixed-point rescaling).
pub open spec fn spec_sat_mul(a: int, b: int) -> i64 {
    spec_sat(a * b)
}

/// Saturating fixed-point product: `a * b` rescaled back to micro-units.
pub open spec fn spec_fp_mul(a: int, b: int) -> i64 {
    spec_sat(tdiv(a * b, FP_ONE as int))
}

/// Saturating fixed-point quotient, for a positive divisor.
pub open spec fn spec_fp_div(a: int, b: int) -> i64 {
    spec_sat(tdiv(a * (FP_ONE as int), b))
}

/// The lattice cell a fixed-point coordinate falls in: floor of `x` in whole
/// units. Euclidean division by a positive divisor is exactly the floor.
pub open spec fn spec_fp_floor(x: int) -> int {
    x / (FP_ONE as int)
}

fn clamp64(v: i128) -> (r: i64)
    ensures
        r == spec_sat(v as int),
{
    if v > i64::MAX as i128 {
        i64::MAX
    } else if v < i64::MIN as i128 {
        i64::MIN
    } else {
        v as i64
    }
}

pub fn sat_add(a: i64, b: i64) -> (r: i64)
    ensures
        r == spec_sat_add(a as int, b as int),
{
    clamp64(a as i128 + b as i128)
}

pub fn sat_sub(a: i64, b: i64) -> (r: i64)
    ensures
        r == spec_sat_sub(a as int, b as int),
{
    clamp64(a as i128 - b as i128)
}

proof fn lemma_wide_product_bounded(a: i64, b: i64)
    ensures
        a * b <= 0x4000_0000_0000_0000_0000_0000_0000_0000,
        a * b >= -0x4000_0000_0000_0000_0000_0000_0000_0000,
{
    assert(a * b <= 0x4000_0000_0000_0000_0000_0000_0000_0000
        && a * b >= -0x4000_0000_0000_0000_0000_0000_0000_0000) by (nonlinear_arith)
        requires
            -0x8000_0000_0000_0000 <= a <= 0x7fff_ffff_ffff_ffff,
            -0x8000_0000_0000_0000 <= b <= 0x7fff_ffff_ffff_ffff,
    ;
}

pub fn sat_mul(a: i64, b: i64) -> (r: i64)
    ensures
        r == spec_sat_mul(a as int, b as int),
{
    proof {
        lemma_wide_product_bounded(a, b);
    }
    clamp64(a as i128 * b as i128)
}

pub fn fp_mul(a: i64, b: i64) -> (r: i64)
    ensures
        r == spec_fp_mul(a as int, b as int),
{
    proof {
        lemma_wide_product_bounded(a, b);
    }
    let p: i128 = a as i128 * b as i128;
    let q: i128 = if p >= 0 {
        p / (FP_ONE as i128)
    } else {
        -((-p) / (FP_ONE as i128))
    };
    assert(q as int == tdiv(a * b, FP_ONE as int));
    clamp64(q)
}

pub fn fp_div(a: i64, b: i64) -> (r: i64)
    requires
        b > 0,
    ensures
        r == spec_fp_div(a as int, b as int),
{
    let p: i128 = a as i128 * (FP_ONE as i128);
    proof {
        assert(p <= 0x8000_0000_0000_0000i128 * 1_000_000 && p >= -0x8000_0000_0000_0000i128
            * 1_000_000) by (nonlinear_arith)
            requires
                p == a as i128 * 1_000_000,
                -0x8000_0000_0000_0000 <= a <= 0x7fff_ffff_ffff_ffff,
        ;
    }
    let q: i128 = if p >= 0 {
        p / (b as i128)
    } else {
        -((-p) / (b as i128))
    };
    assert(q as int == tdiv(a * (FP_ONE as int), b as int));
    clamp64(q)
}

/// Floor of a fixed-point coordinate, as a whole-unit lattice integer.
pub fn fp_floor(x: i64) -> (r: i64)
    ensures
        r as int == spec_fp_floor(x as int),
        -10_000_000_000_000 <= r <= 10_000_000_000_000,
{
    let xi = x as i128;
    if xi >= 0 {
        let q = xi / (FP_ONE as i128);
        proof {
            lemma_fundamental_div_mod(xi as int, FP_ONE as int);
        }
        q as i64
    } else {
        let n = -xi;
        let qn = n / (FP_ONE as i128);
        let rn = n % (FP_ONE as i128);
        let q = if rn == 0 {
            -qn
        } else {
            -qn - 1
        };
        proof {
            lemma_fundamental_div_mod(n as int, FP_ONE as int);
            if rn == 0 {
                lemma_fundamental_div_mod_converse(
                    xi as int,
                    FP_ONE as int,
                    q as int,
                    0,
                );
            } else {
                lemma_fundamental_div_mod_converse(
                    xi as int,
                    FP_ONE as int,
                    q as int,
                    FP_ONE - rn as int,
                );
            }
        }
        q as i64
    }
}

/// The fixed-point product of a difference `x - y` with `l`: the widened
/// difference cannot overflow, the result saturates as `fp` products do.
pub fn fp_mul_sub(x: i64, y: i64, l: i64) -> (r: i64)
    ensures
        r == spec_fp_mul(x - y, l as int),
{
    let d: i128 = x as i128 - y as i128;
    proof {
        assert(d * (l as i128) <= 0x7fff_ffff_ffff_ffff_ffff_ffff_ffff_ffffi128 && d * (
        l as i128) >= -0x7fff_ffff_ffff_ffff_ffff_ffff_ffff_ffffi128) by (nonlinear_arith)
            requires
                -0x1_0000_0000_0000_0000i128 < d < 0x1_0000_0000_0000_0000i128,
                -0x8000_0000_0000_0000 <= l <= 0x7fff_ffff_ffff_ffff,
        ;
    }
    let p: i128 = d * (l as i128);
    let q: i128 = if p >= 0 {
        p / (FP_ONE as i128)
    } else {
        -((-p) / (FP_ONE as i128))
    };
    assert(q as int == tdiv((x - y) * l, FP_ONE as int));
    clamp64(q)
}

/// Halves a fixed-point value, rounding toward zero.
pub fn halve(x: i64) -> (r: i64)
    ensures
        r as int == tdiv(x as int, 2),
{
    let xi = x as i128;
    let q: i128 = if xi >= 0 {
        xi / 2
    } else {
        -((-xi) / 2)
    };
    q as i64
}

/// Euclidean remainder: the unique representative of `x` in `[0, m)`.
pub fn euclid_mod(x: i64, m: i64) -> (r: i64)
    requires
        m > 0,
    ensures
        r as int == (x as int) % (m as int),
        0 <= r < m,
{
    let xi = x as i128;
    let mi = m as i128;
    if xi >= 0 {
        let rr = xi % mi;
        proof {
            lemma_fundamental_div_mod(xi as int, mi as int);
        }
        rr as i64
    } else {
        let n = -xi;
        let qn = n / mi;
        let rn = n % mi;
        let (q, r) = if rn == 0 {
            (-qn, 0i128)
        } else {
            (-qn - 1, mi - rn)
        };
        proof {
            lemma_fundamental_div_mod(n as int, mi as int);
            assert(q as int * mi as int + r as int == xi as int) by (nonlinear_arith)
                requires
                    n == mi * qn + rn,
                    xi == -n,
                    0 <= rn < mi,
                    (rn == 0 && q == -qn && r == 0) || (rn != 0 && q == -qn - 1 && r == mi - rn),
            ;
            lemma_fundamental_div_mod_converse(xi as int, mi as int, q as int, r as int);
        }
        r as i64
    }
}

/// `r` is the integer square root of `v`.
pub open spec fn is_sqrt(v: int, r: int) -> bool {
    &&& 0 <= r
    &&& r * r <= v
    &&& v < (r + 1) * (r + 1)
}

/// The integer square root, as a function; well defined for `v >= 0`.
pub open spec fn sqrt_of(v: int) -> int {
    choose|r: int| is_sqrt(v, r)
}

/// Any witness of `is_sqrt` is the square root: the root is unique.
pub proof fn lemma_sqrt_is(v: int, r: int)
    requires
        is_sqrt(v, r),
    ensures
        sqrt_of(v) == r,
{
    assert(is_sqrt(v, sqrt_of(v)));
    let s = sqrt_of(v);
    assert(s == r) by (nonlinear_arith)
        requires
            0 <= r,
            r * r <= v,
            v < (r + 1) * (r + 1),
            0 <= s,
            s * s <= v,
            v < (s + 1) * (s + 1),
    ;
}

/// Integer square root by bisection.
pub fn isqrt(v: u128) -> (r: u128)
    requires
        v < 0x1_0000_0000_0000_0000_0000_0000,
    ensures
        is_sqrt(v as int, r as int),
        r < 0x1_0000_0000_0000,
{
    let mut lo: u128 = 0;
    let mut hi: u128 = 0x1_0000_0000_0000;
    proof {
        assert(hi * hi > v) by (nonlinear_arith)
            requires
                hi == 0x1_0000_0000_0000u128,
                v < 0x1_0000_0000_0000_0000_0000_0000,
        ;
    }
    while lo + 1 < hi
        invariant
            lo < hi,
            hi <= 0x1_0000_0000_0000,
            lo * lo <= v,
            v < hi * hi,
        decreases hi - lo,
    {
        let mid = lo + (hi - lo) / 2;
        proof {
            assert(mid * mid < 0x1_0000_0000_0000_0000_0000_0000) by (nonlinear_arith)
                requires
                    mid < 0x1_0000_0000_0000u128,
            ;
        }
        if mid * mid <= v {
            lo = mid;
        } else {
            hi = mid;
        }
    }
    proof {
        assert((lo + 1) * (lo + 1) >= hi * hi) by (nonlinear_arith)
            requires
                lo + 1 >= hi,
                hi >= 1,
        ;
    }
    lo
}

/// The fixed-point square root of `x`: `sqrt(x / ONE)` in micro-units equals
/// the integer square root of `x * ONE`.
pub open spec fn spec_fp_sqrt(x: int) -> int {
    sqrt_of(x * (FP_ONE as int))
}

pub fn fp_sqrt(x: i64) -> (r: i64)
    requires
        x >= 0,
    ensures
        r as int == spec_fp_sqrt(x as int),
        is_sqrt(x as int * (FP_ONE as int), r as int),
        0 <= r < 0x1_0000_0000_0000,
{
    proof {
        assert((x as u128) * (FP_ONE as u128) < 0x1_0000_0000_0000_0000_0000_0000) by (nonlinear_arith)
            requires
                0 <= x <= 0x7fff_ffff_ffff_ffff,
                FP_ONE == 1_000_000i64,
        ;
    }
    let v: u128 = (x as u128) * (FP_ONE as u128);
    let r = isqrt(v);
    proof {
        lemma_sqrt_is(v as int, r as int);
    }
    r as i64
}

/// Bhaskara's rational approximation of `sin(pi * y / ONE)` for
/// `y` in `[0, ONE)`: `16 g / (5 - 4 g)` with `g = y (1 - y)`.
pub open spec fn spec_sin_half(y: int) -> i64 {
    let g = spec_fp_mul(y, FP_ONE - y);
    spec_fp_div(16 * g, 5 * (FP_ONE as int) - 4 * g)
}

/// `sin` of a whole turn scaled to `[0, ONE)`: the first half of the turn is
/// the positive arch, the second its mirror image below zero.
pub open spec fn spec_sin_turns(x: int) -> i64 {
    if x < FP_HALF {
        spec_sin_half(2 * x)
    } else {
        spec_sat_sub(0, spec_sin_half(2 * (x - FP_HALF)) as int)
    }
}

/// `cos` of a turn is `sin` a quarter turn later.
pub open spec fn spec_cos_turns(x: int) -> i64 {
    if x + FP_QUARTER < FP_ONE {
        spec_sin_turns(x + FP_QUARTER)
    } else {
        spec_sin_turns(x + FP_QUARTER - FP_ONE)
    }
}

fn sin_half(y: i64) -> (r: i64)
    requires
        0 <= y < FP_ONE,
    ensures
        r == spec_sin_half(y as int),
        0 <= r <= FP_ONE,
{
    let g = fp_mul(y, FP_ONE - y);
    proof {
        assert(y * ((FP_ONE - y) as int) <= 250_000_000_000 && y * ((FP_ONE - y) as int)
            >= 0) by (nonlinear_arith)
            requires
                0 <= y < 1_000_000,
                FP_ONE == 1_000_000i64,
        ;
        vstd::arithmetic::div_mod::lemma_div_is_ordered(
            y * ((FP_ONE - y) as int),
            250_000_000_000,
            FP_ONE as int,
        );
        vstd::arithmetic::div_mod::lemma_div_pos_is_pos(y * ((FP_ONE - y) as int), FP_ONE as int);
        assert(0 <= g <= 250_000);
    }
    let den = 5 * FP_ONE - 4 * g;
    let num = 16 * g;
    let r = fp_div(num, den);
    proof {
        lemma_multiply_divide_le(num * (FP_ONE as int), den as int, FP_ONE as int);
        vstd::arithmetic::div_mod::lemma_div_pos_is_pos(num * (FP_ONE as int), den as int);
    }
    r
}

pub fn sin_turns(x: i64) -> (r: i64)
    requires
        0 <= x < FP_ONE,
    ensures
        r == spec_sin_turns(x as int),
        -FP_ONE <= r <= FP_ONE,
{
    if x < FP_HALF {
        sin_half(2 * x)
    } else {
        let s = sin_half(2 * (x - FP_HALF));
        sat_sub(0, s)
    }
}

pub fn cos_turns(x: i64) -> (r: i64)
    requires
        0 <= x < FP_ONE,
    ensures
        r == spec_cos_turns(x as int),
        -FP_ONE <= r <= FP_ONE,
{
    let shifted = if x + FP_QUARTER < FP_ONE {
        x + FP_QUARTER
    } else {
        x + FP_QUARTER - FP_ONE
    };
    sin_turns(shifted)
}

/// Multiplying a fixed-point value by one whole unit changes nothing.
pub proof fn lemma_fp_mul_one(a: i64)
    ensures
        spec_fp_mul(a as int, FP_ONE as int) == a,
{
    if a >= 0 {
        lemma_div_by_multiple(a as int, FP_ONE as int);
    } else {
        lemma_div_by_multiple(-(a as int), FP_ONE as int);
        assert(a * (FP_ONE as int) == -((-(a as int)) * (FP_ONE as int))) by (nonlinear_arith);
    }
}

/// Dividing a fixed-point value by one whole unit changes nothing.
pub proof fn lemma_fp_div_one(a: i64)
    ensures
        spec_fp_div(a as int, FP_ONE as int) == a,
{
    lemma_fp_mul_one(a);
}

} // verus!
