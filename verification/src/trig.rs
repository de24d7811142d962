//! Fixed-point trigonometry: a rational sine approximation with range
//! reduction, and polynomial arc tangent / arc cosine used for sphere
//! texture coordinates.  Each routine is pinned to an exact spec mirror and
//! clamped into its mathematical range.

use crate::fixed::{
    clamp, fabs, fadd, fdiv, fmax, fmul, fneg, fsqrt, fsub, spec_clamp, spec_fabs, spec_fadd,
    spec_fdiv, spec_fmax, spec_fmul, spec_fneg, spec_fsqrt, spec_fsub, HALF, HALF_PI_FX, ONE, PI_FX,
    TWO_PI_FX,
};
use vstd::arithmetic::div_mod::{lemma_mod_bound, lemma_mod_multiples_vanish};
use vstd::prelude::*;

verus! {

/// The fixed-point representation of 16.
pub const SIXTEEN_FX: i64 = 1048576;

/// The fixed-point representation of 4.
pub const FOUR_FX: i64 = 262144;

/// The fixed-point representation of 5*pi*pi.
pub const FIVE_PI_SQ_FX: i64 = 3234072;

/// The fixed-point representation of pi/4.
pub const QUARTER_PI_FX: i64 = 51471;

/// The polynomial coefficient 0.273 of the arc tangent approximation.
pub const ATAN_C_FX: i64 = 17891;

/// The fixed-point representation of 180.
pub const DEG_180_FX: i64 = 11796480;

/// The rational sine approximation on `[0, pi]`:
/// `16 t (pi - t) / (5 pi^2 - 4 t (pi - t))`, clamped into `[0, 1]`.
pub open spec fn spec_sin_half(t: int) -> int {
    let p = spec_fmul(t, spec_fsub(PI_FX as int, t));
    let num = spec_fmul(SIXTEEN_FX as int, p);
    let den = spec_fsub(FIVE_PI_SQ_FX as int, spec_fmul(FOUR_FX as int, p));
    spec_clamp(spec_fdiv(num, den), 0, ONE as int)
}

/// Sine after range reduction of the angle into `(-pi, pi]` and odd
/// reflection onto `[0, pi]`.
pub open spec fn spec_sin(x: int) -> int {
    let m = x % (TWO_PI_FX as int);
    let t = if m > PI_FX as int {
        m - TWO_PI_FX as int
    } else {
        m
    };
    if t < 0 {
        -spec_sin_half(-t)
    } else {
        spec_sin_half(t)
    }
}

pub open spec fn spec_cos(x: int) -> int {
    spec_sin(spec_fadd(x, HALF_PI_FX as int))
}

pub open spec fn spec_tan(x: int) -> int {
    spec_fdiv(spec_sin(x), spec_cos(x))
}

pub open spec fn spec_degrees_to_radians(d: int) -> int {
    spec_fdiv(spec_fmul(d, PI_FX as int), DEG_180_FX as int)
}

/// The polynomial arc tangent on `[0, 1]`:
/// `(pi/4) q + 0.273 q (1 - q)`, clamped into `[0, pi/2]`.
pub open spec fn spec_atan_poly(q: int) -> int {
    let p = spec_fmul(q, spec_fsub(ONE as int, q));
    spec_clamp(
        spec_fadd(spec_fmul(QUARTER_PI_FX as int, q), spec_fmul(ATAN_C_FX as int, p)),
        0,
        HALF_PI_FX as int,
    )
}

/// The quadrant-aware arc tangent of `y/x`, in `[-pi, pi]`.
pub open spec fn spec_atan2(y: int, x: int) -> int {
    if x == 0 && y == 0 {
        0
    } else {
        let ax = spec_fabs(x);
        let ay = spec_fabs(y);
        let base = if ax >= ay {
            spec_atan_poly(spec_fdiv(ay, ax))
        } else {
            spec_fsub(HALF_PI_FX as int, spec_atan_poly(spec_fdiv(ax, ay)))
        };
        let b = spec_clamp(base, 0, HALF_PI_FX as int);
        if x >= 0 && y >= 0 {
            b
        } else if x < 0 && y >= 0 {
            spec_fsub(PI_FX as int, b)
        } else if x < 0 {
            spec_fneg(spec_fsub(PI_FX as int, b))
        } else {
            spec_fneg(b)
        }
    }
}

/// The arc cosine through `atan2(sqrt(1 - x^2), x)`, in `[0, pi]`.
pub open spec fn spec_acos(x: int) -> int {
    let c = spec_clamp(x, -(ONE as int), ONE as int);
    let s = spec_fsqrt(spec_fmax(spec_fsub(ONE as int, spec_fmul(c, c)), 0));
    spec_atan2(s, c)
}

/// The angle reduced into `[0, 2 pi)`.
fn reduce_two_pi(x: i64) -> (r: i64)
    ensures
        r as int == (x as int) % (TWO_PI_FX as int),
        0 <= r < TWO_PI_FX,
{
    let big: i128 = (TWO_PI_FX as i128) * 0x8000_0000_0000;
    let shifted: i128 = x as i128 + big;
    let m: u128 = (shifted as u128) % (TWO_PI_FX as u128);
    proof {
        lemma_mod_multiples_vanish(0x8000_0000_0000int, x as int, TWO_PI_FX as int);
        lemma_mod_bound(x as int, TWO_PI_FX as int);
    }
    m as i64
}

fn sin_half(t: i64) -> (r: i64)
    requires
        0 <= t <= PI_FX,
    ensures
        r as int == spec_sin_half(t as int),
        0 <= r <= ONE,
{
    let p = fmul(t, fsub(PI_FX, t));
    let num = fmul(SIXTEEN_FX, p);
    let den = fsub(FIVE_PI_SQ_FX, fmul(FOUR_FX, p));
    clamp(fdiv(num, den), 0, ONE)
}

/// The fixed-point sine, within `[-1, 1]`.
pub fn sin_fx(x: i64) -> (r: i64)
    ensures
        r as int == spec_sin(x as int),
        -ONE <= r <= ONE,
{
    let m = reduce_two_pi(x);
    let t = if m > PI_FX {
        m - TWO_PI_FX
    } else {
        m
    };
    if t < 0 {
        let s = sin_half(-t);
        -s
    } else {
        sin_half(t)
    }
}

/// The fixed-point cosine, within `[-1, 1]`.
pub fn cos_fx(x: i64) -> (r: i64)
    ensures
        r as int == spec_cos(x as int),
        -ONE <= r <= ONE,
{
    sin_fx(fadd(x, HALF_PI_FX))
}

/// The fixed-point tangent.
pub fn tan_fx(x: i64) -> (r: i64)
    ensures
        r as int == spec_tan(x as int),
{
    let s = sin_fx(x);
    let c = cos_fx(x);
    fdiv(s, c)
}

/// Angle conversion from degrees to radians.
pub fn degrees_to_radians(d: i64) -> (r: i64)
    ensures
        r as int == spec_degrees_to_radians(d as int),
{
    fdiv(fmul(d, PI_FX), DEG_180_FX)
}

fn atan_poly(q: i64) -> (r: i64)
    ensures
        r as int == spec_atan_poly(q as int),
        0 <= r <= HALF_PI_FX,
{
    let p = fmul(q, fsub(ONE, q));
    clamp(fadd(fmul(QUARTER_PI_FX, q), fmul(ATAN_C_FX, p)), 0, HALF_PI_FX)
}

/// The fixed-point quadrant-aware arc tangent, within `[-pi, pi]`; a
/// nonnegative `y` gives a nonnegative angle.
pub fn atan2_fx(y: i64, x: i64) -> (r: i64)
    ensures
        r as int == spec_atan2(y as int, x as int),
        -PI_FX <= r <= PI_FX,
        y >= 0 ==> r >= 0,
{
    if x == 0 && y == 0 {
        return 0;
    }
    let ax = fabs(x);
    let ay = fabs(y);
    let base = if ax >= ay {
        atan_poly(fdiv(ay, ax))
    } else {
        fsub(HALF_PI_FX, atan_poly(fdiv(ax, ay)))
    };
    let b = clamp(base, 0, HALF_PI_FX);
    if x >= 0 && y >= 0 {
        b
    } else if x < 0 && y >= 0 {
        fsub(PI_FX, b)
    } else if x < 0 {
        fneg(fsub(PI_FX, b))
    } else {
        fneg(b)
    }
}

/// The fixed-point representation of ln 2, rounded toward zero.
pub const LN2_FX: i64 = 45426;

/// Doubling normalization for the logarithm: double `m` until it reaches
/// one half, counting the doublings (with a generous step cap).
pub open spec fn spec_ln_norm(m: int, k: int) -> (int, int)
    recommends
        m >= 1,
    decreases (ONE as int) - m,
{
    if m >= HALF as int || k >= 32 || m < 1 {
        (m, k)
    } else {
        spec_ln_norm(2 * m, k + 1)
    }
}

/// The natural logarithm of a fixed-point value in `[0, 1)`: minus infinity
/// saturates at the smallest scalar for zero, otherwise the two-term
/// series `2 (s + s^3 / 3)` with `s = (m - 1)/(m + 1)` on the normalized
/// mantissa, shifted by the counted doublings.
pub open spec fn spec_ln_unit(x: int) -> int {
    if x <= 0 {
        i64::MIN as int
    } else {
        let (m, k) = spec_ln_norm(x, 0);
        let s = spec_fdiv(spec_fsub(m, ONE as int), spec_fadd(m, ONE as int));
        let s3 = spec_fmul(spec_fmul(s, s), s);
        let poly = spec_fmul(
            crate::fixed::TWO_FX as int,
            spec_fadd(s, spec_fdiv(s3, crate::fixed::THREE_FX as int)),
        );
        spec_fsub(poly, k * (LN2_FX as int))
    }
}

/// The fixed-point natural logarithm on `[0, 1)`; never positive.
pub fn ln_unit(x: i64) -> (r: i64)
    requires
        0 <= x < ONE,
    ensures
        r as int == spec_ln_unit(x as int),
        r <= 0,
{
    if x <= 0 {
        return i64::MIN;
    }
    let mut m = x;
    let mut k: i64 = 0;
    while m < HALF && k < 32 && m >= 1
        invariant
            1 <= m < ONE,
            0 <= k <= 32,
            spec_ln_norm(m as int, k as int) == spec_ln_norm(x as int, 0),
        decreases (ONE as int) - m,
    {
        m = 2 * m;
        k = k + 1;
    }
    let s = fdiv(fsub(m, ONE), fadd(m, ONE));
    let s3 = fmul(fmul(s, s), s);
    let poly = fmul(crate::fixed::TWO_FX, fadd(s, fdiv(s3, crate::fixed::THREE_FX)));
    let r = fsub(poly, k * LN2_FX);
    proof {
        assert(s <= 0) by {
            assert(spec_fsub(m as int, ONE as int) <= 0);
            crate::fixed::lemma_fdiv_nonpos(
                spec_fsub(m as int, ONE as int),
                spec_fadd(m as int, ONE as int),
            );
        }
        crate::vec3::lemma_fmul_self_nonneg(s as int);
        crate::fixed::lemma_fmul_nonpos(spec_fmul(s as int, s as int), s as int);
        crate::fixed::lemma_fdiv_nonpos(s3 as int, crate::fixed::THREE_FX as int);
        crate::fixed::lemma_fmul_nonpos(
            crate::fixed::TWO_FX as int,
            spec_fadd(s as int, spec_fdiv(s3 as int, crate::fixed::THREE_FX as int)),
        );
    }
    r
}

/// The fixed-point arc cosine, within `[0, pi]`.
pub fn acos_fx(x: i64) -> (r: i64)
    ensures
        r as int == spec_acos(x as int),
        0 <= r <= PI_FX,
{
    let c = clamp(x, -ONE, ONE);
    let ssq = fmax(fsub(ONE, fmul(c, c)), 0);
    let s = fsqrt(ssq);
    atan2_fx(s, c)
}

} // verus!
