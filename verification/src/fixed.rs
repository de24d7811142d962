//! Fixed-point scalar arithmetic: an `i64` carries a real number scaled by
//! `ONE` (16 fractional bits).  Every operation saturates at the `i64` range
//! instead of overflowing, and each executable operation is pinned to an
//! exact mathematical model (`spec_fadd`, `spec_fmul`, ...).

use vstd::prelude::*;

verus! {

/// The fixed-point representation of 1.
pub const ONE: i64 = 65536;

/// The fixed-point representation of 1/2.
pub const HALF: i64 = 32768;

/// The fixed-point representation of 2.
pub const TWO_FX: i64 = 131072;

/// The fixed-point representation of 3.
pub const THREE_FX: i64 = 196608;

/// The fixed-point representation of pi, rounded toward zero.
pub const PI_FX: i64 = 205887;

/// The fixed-point representation of 2*pi, rounded toward zero.
pub const TWO_PI_FX: i64 = 411774;

/// The fixed-point representation of pi/2, rounded toward zero.
pub const HALF_PI_FX: i64 = 102943;

/// Saturation: the nearest value representable in an `i64`.
pub open spec fn clip(x: int) -> int {
    if x > i64::MAX as int {
        i64::MAX as int
    } else if x < i64::MIN as int {
        i64::MIN as int
    } else {
        x
    }
}

pub open spec fn sabs(x: int) -> int {
    if x >= 0 {
        x
    } else {
        -x
    }
}

/// Division truncated toward zero, as machine division rounds.
pub open spec fn tdiv(n: int, d: int) -> int
    recommends
        d != 0,
{
    if (n >= 0) == (d >= 0) {
        sabs(n) / sabs(d)
    } else {
        -(sabs(n) / sabs(d))
    }
}

/// Saturating fixed-point addition.
pub open spec fn spec_fadd(a: int, b: int) -> int {
    clip(a + b)
}

/// Saturating fixed-point subtraction.
pub open spec fn spec_fsub(a: int, b: int) -> int {
    clip(a - b)
}

/// Saturating fixed-point negation.
pub open spec fn spec_fneg(a: int) -> int {
    clip(-a)
}

/// Saturating fixed-point multiplication: the product rescaled by `ONE`,
/// rounded toward zero.
pub open spec fn spec_fmul(a: int, b: int) -> int {
    clip(tdiv(a * b, ONE as int))
}

/// Saturating fixed-point division.  A zero divisor saturates by the sign of
/// the numerator, standing in for the infinities of floating-point division.
pub open spec fn spec_fdiv(a: int, b: int) -> int {
    if b == 0 {
        if a > 0 {
            i64::MAX as int
        } else if a < 0 {
            i64::MIN as int
        } else {
            0
        }
    } else {
        clip(tdiv(a * (ONE as int), b))
    }
}

pub open spec fn spec_fabs(a: int) -> int {
    clip(sabs(a))
}

pub open spec fn spec_fmin(a: int, b: int) -> int {
    if a < b {
        a
    } else {
        b
    }
}

pub open spec fn spec_fmax(a: int, b: int) -> int {
    if a > b {
        a
    } else {
        b
    }
}

/// Clamp into an interval; the low bound wins when the bounds cross.
pub open spec fn spec_clamp(x: int, low: int, high: int) -> int {
    if x < low {
        low
    } else if x > high {
        high
    } else {
        x
    }
}

fn clip_i128(q: i128) -> (r: i64)
    ensures
        r as int == clip(q as int),
{
    if q > i64::MAX as i128 {
        i64::MAX
    } else if q < i64::MIN as i128 {
        i64::MIN
    } else {
        q as i64
    }
}

fn tdiv_i128(n: i128, d: i128) -> (r: i128)
    requires
        d != 0,
        n > i128::MIN,
        d > i128::MIN,
    ensures
        r as int == tdiv(n as int, d as int),
{
    let na: u128 = if n >= 0 {
        n as u128
    } else {
        (-n) as u128
    };
    let da: u128 = if d >= 0 {
        d as u128
    } else {
        (-d) as u128
    };
    let q: u128 = na / da;
    proof {
        assert(na as int == sabs(n as int));
        assert(da as int == sabs(d as int));
        assert(q as int == sabs(n as int) / sabs(d as int));
        assert(q <= na) by {
            lemma_div_le(na as int, da as int);
        }
    }
    if (n >= 0) == (d >= 0) {
        q as i128
    } else {
        -(q as i128)
    }
}

proof fn lemma_div_le(n: int, d: int)
    requires
        n >= 0,
        d >= 1,
    ensures
        0 <= n / d <= n,
{
    assert(0 <= n / d <= n) by (nonlinear_arith)
        requires
            n >= 0,
            d >= 1,
    ;
}

/// Fixed-point addition, saturating at the `i64` range.
pub fn fadd(a: i64, b: i64) -> (r: i64)
    ensures
        r as int == spec_fadd(a as int, b as int),
{
    clip_i128(a as i128 + b as i128)
}

/// Fixed-point subtraction, saturating at the `i64` range.
pub fn fsub(a: i64, b: i64) -> (r: i64)
    ensures
        r as int == spec_fsub(a as int, b as int),
{
    clip_i128(a as i128 - b as i128)
}

/// Fixed-point negation, saturating at the `i64` range.
pub fn fneg(a: i64) -> (r: i64)
    ensures
        r as int == spec_fneg(a as int),
{
    clip_i128(-(a as i128))
}

/// Fixed-point multiplication, saturating at the `i64` range.
pub fn fmul(a: i64, b: i64) -> (r: i64)
    ensures
        r as int == spec_fmul(a as int, b as int),
{
    proof {
        assert((a as i128) as int * (b as i128) as int <= i128::MAX && (a as i128) as int * (
        b as i128) as int > i128::MIN) by (nonlinear_arith)
            requires
                i64::MIN <= a <= i64::MAX,
                i64::MIN <= b <= i64::MAX,
        ;
    }
    let p: i128 = (a as i128) * (b as i128);
    let q: i128 = tdiv_i128(p, ONE as i128);
    clip_i128(q)
}

/// Fixed-point division, saturating at the `i64` range; a zero divisor
/// saturates by the sign of the numerator.
pub fn fdiv(a: i64, b: i64) -> (r: i64)
    ensures
        r as int == spec_fdiv(a as int, b as int),
{
    if b == 0 {
        if a > 0 {
            i64::MAX
        } else if a < 0 {
            i64::MIN
        } else {
            0
        }
    } else {
        proof {
            assert((a as i128) as int * (ONE as i128) as int <= i128::MAX && (a as i128) as int * (
            ONE as i128) as int > i128::MIN) by (nonlinear_arith)
                requires
                    i64::MIN <= a <= i64::MAX,
            ;
        }
        let p: i128 = (a as i128) * (ONE as i128);
        let q: i128 = tdiv_i128(p, b as i128);
        clip_i128(q)
    }
}

/// Fixed-point absolute value, saturating at the `i64` range.
pub fn fabs(a: i64) -> (r: i64)
    ensures
        r as int == spec_fabs(a as int),
{
    if a >= 0 {
        a
    } else {
        clip_i128(-(a as i128))
    }
}

pub fn fmin(a: i64, b: i64) -> (r: i64)
    ensures
        r as int == spec_fmin(a as int, b as int),
{
    if a < b {
        a
    } else {
        b
    }
}

pub fn fmax(a: i64, b: i64) -> (r: i64)
    ensures
        r as int == spec_fmax(a as int, b as int),
{
    if a > b {
        a
    } else {
        b
    }
}

/// Clamp a value to `[low, high]`; the low bound wins when the bounds cross.
pub fn clamp(x: i64, low: i64, high: i64) -> (r: i64)
    ensures
        r as int == spec_clamp(x as int, low as int, high as int),
{
    if x < low {
        low
    } else if x > high {
        high
    } else {
        x
    }
}

/// An integer carried into fixed-point scale, saturating at the `i64` range.
pub fn to_fx(n: i64) -> (r: i64)
    ensures
        r as int == clip(n * (ONE as int)),
{
    proof {
        assert((n as i128) as int * (ONE as i128) as int <= i128::MAX && (n as i128) as int * (
        ONE as i128) as int >= i128::MIN) by (nonlinear_arith)
            requires
                i64::MIN <= n <= i64::MAX,
        ;
    }
    clip_i128((n as i128) * (ONE as i128))
}

/// Multiplication by zero gives zero.
pub proof fn lemma_fmul_zero(a: int)
    ensures
        spec_fmul(a, 0) == 0,
{
    assert(a * 0 == 0) by (nonlinear_arith);
    assert(sabs(0int) / sabs(ONE as int) == 0) by (nonlinear_arith);
}

/// The product of nonnegative values is nonnegative.
pub proof fn lemma_fmul_nonneg(a: int, b: int)
    requires
        a >= 0,
        b >= 0,
    ensures
        spec_fmul(a, b) >= 0,
{
    assert(a * b >= 0) by (nonlinear_arith)
        requires
            a >= 0,
            b >= 0,
    ;
    lemma_div_le(a * b, ONE as int);
}

/// The product of a nonnegative and a nonpositive value is nonpositive.
pub proof fn lemma_fmul_nonpos(a: int, b: int)
    requires
        a >= 0,
        b <= 0,
    ensures
        spec_fmul(a, b) <= 0,
{
    if b < 0 {
        assert(a * b <= 0) by (nonlinear_arith)
            requires
                a >= 0,
                b <= 0,
        ;
        lemma_div_le(-(a * b), ONE as int);
    } else {
        assert(a * b == 0) by (nonlinear_arith)
            requires
                b == 0,
        ;
    }
}

/// The quotient of nonnegative values is nonnegative.
pub proof fn lemma_fdiv_nonneg(a: int, b: int)
    requires
        a >= 0,
        b >= 0,
    ensures
        spec_fdiv(a, b) >= 0,
{
    if b != 0 {
        assert(a * (ONE as int) >= 0) by (nonlinear_arith)
            requires
                a >= 0,
        ;
        lemma_div_le(a * (ONE as int), b);
    }
}

/// The quotient of a nonpositive value by a nonnegative one is nonpositive.
pub proof fn lemma_fdiv_nonpos(a: int, b: int)
    requires
        a <= 0,
        b >= 0,
    ensures
        spec_fdiv(a, b) <= 0,
{
    if b != 0 {
        assert(a * (ONE as int) <= 0) by (nonlinear_arith)
            requires
                a <= 0,
        ;
        lemma_div_le(-(a * (ONE as int)), b);
    }
}

/// Euclidean (floor) division and remainder by a positive divisor.
pub fn floor_div_rem(x: i64, d: i64) -> (qr: (i64, i64))
    requires
        0 < d,
    ensures
        qr.0 as int == (x as int) / (d as int),
        qr.1 as int == (x as int) % (d as int),
        0 <= qr.1 < d,
{
    let ghost q0 = (x as int) / (d as int);
    let ghost m0 = (x as int) % (d as int);
    proof {
        vstd::arithmetic::div_mod::lemma_fundamental_div_mod(x as int, d as int);
        vstd::arithmetic::div_mod::lemma_mod_bound(x as int, d as int);
        vstd::arithmetic::div_mod::lemma_fundamental_div_mod(0x8000_0000_0000_0000, d as int);
        vstd::arithmetic::div_mod::lemma_mod_bound(0x8000_0000_0000_0000, d as int);
        assert((x >= 0 ==> 0 <= q0 <= x) && (x < 0 ==> x <= q0 <= 0)) by (nonlinear_arith)
            requires
                d >= 1,
                x as int == d as int * q0 + m0,
                0 <= m0 < d,
        ;
    }
    let kk: u128 = 0x8000_0000_0000_0000u128 / (d as u128) + 1;
    proof {
        // d * kk lies just above 2^63, so it absorbs any negative x
        assert(d as int * kk as int == 0x8000_0000_0000_0000 - (0x8000_0000_0000_0000int % (
        d as int)) + d as int) by (nonlinear_arith)
            requires
                d >= 1,
                kk as int == 0x8000_0000_0000_0000int / (d as int) + 1,
                0x8000_0000_0000_0000int == d as int * (0x8000_0000_0000_0000int / (d as int)) + (
                0x8000_0000_0000_0000int % (d as int)),
        ;
    }
    let big: u128 = (d as u128) * kk;
    let shifted: u128 = ((x as i128) + (big as i128)) as u128;
    let qs: u128 = shifted / (d as u128);
    let m: u128 = shifted % (d as u128);
    proof {
        assert(shifted as int == d as int * (q0 + kk as int) + m0) by (nonlinear_arith)
            requires
                shifted as int == x as int + d as int * kk as int,
                x as int == d as int * q0 + m0,
        ;
        vstd::arithmetic::div_mod::lemma_div_multiples_vanish_fancy(
            q0 + kk as int,
            m0,
            d as int,
        );
        lemma_mod_multiples_vanish_local(q0 + kk as int, m0, d as int);
        assert(m0 % (d as int) == m0) by (nonlinear_arith)
            requires
                0 <= m0 < d,
        ;
    }
    let q: i64 = ((qs as i128) - (kk as i128)) as i64;
    (q, m as i64)
}

proof fn lemma_mod_multiples_vanish_local(a: int, b: int, m: int)
    requires
        0 < m,
    ensures
        (m * a + b) % m == b % m,
{
    vstd::arithmetic::div_mod::lemma_mod_multiples_vanish(a, b, m);
}

/// `r` is the floor square root of `n`: the greatest integer whose square
/// does not exceed `n`.
pub open spec fn is_floor_sqrt(n: int, r: int) -> bool {
    r >= 0 && r * r <= n && (r + 1) * (r + 1) > n
}

pub open spec fn floor_sqrt(n: int) -> int
    recommends
        n >= 0,
{
    choose|r: int| is_floor_sqrt(n, r)
}

/// The floor square root is unique, so any witness pins `floor_sqrt` down.
pub proof fn lemma_floor_sqrt(n: int, r: int)
    requires
        is_floor_sqrt(n, r),
    ensures
        floor_sqrt(n) == r,
{
    assert(exists|q: int| is_floor_sqrt(n, q));
    let q = floor_sqrt(n);
    assert(is_floor_sqrt(n, q));
    assert(q == r) by (nonlinear_arith)
        requires
            q >= 0,
            q * q <= n,
            (q + 1) * (q + 1) > n,
            r >= 0,
            r * r <= n,
            (r + 1) * (r + 1) > n,
    ;
}

/// The square root of a fixed-point value, in fixed-point scale.
pub open spec fn spec_fsqrt(a: int) -> int {
    floor_sqrt(a * (ONE as int))
}

/// The fixed-point square root: the greatest fixed-point value whose square
/// does not exceed `a` in the exact (unrounded) product scale.
pub fn fsqrt(a: i64) -> (r: i64)
    requires
        a >= 0,
    ensures
        r as int == spec_fsqrt(a as int),
        r >= 0,
        (r as int) * (r as int) <= (a as int) * (ONE as int),
        ((r + 1) as int) * ((r + 1) as int) > (a as int) * (ONE as int),
{
    proof {
        assert((a as u128) as int * (ONE as u128) as int <= 0xffff_ffff_ffff_ffff_ffffu128)
            by (nonlinear_arith)
            requires
                0 <= a <= i64::MAX,
        ;
    }
    let n: u128 = (a as u128) * (ONE as u128);
    let mut lo: u128 = 0;
    let mut hi: u128 = 0x100_0000_0000;
    proof {
        assert((hi as int) * (hi as int) > n as int) by (nonlinear_arith)
            requires
                hi == 0x100_0000_0000,
                n <= 0xffff_ffff_ffff_ffff_ffffu128,
        ;
    }
    while lo + 1 < hi
        invariant
            hi <= 0x100_0000_0000,
            lo < hi,
            (lo as int) * (lo as int) <= n as int,
            (hi as int) * (hi as int) > n as int,
        decreases hi - lo,
    {
        let mid: u128 = lo + (hi - lo) / 2;
        assert(lo < mid < hi);
        proof {
            assert((mid as int) * (mid as int) <= u128::MAX) by (nonlinear_arith)
                requires
                    0 <= mid <= 0x100_0000_0000,
            ;
        }
        if mid * mid <= n {
            lo = mid;
        } else {
            hi = mid;
        }
    }
    proof {
        assert(((lo + 1) as int) * ((lo + 1) as int) > n as int) by (nonlinear_arith)
            requires
                lo + 1 >= hi,
                hi > lo,
                (hi as int) * (hi as int) > n as int,
        ;
        assert(lo < 0x100_0000_0000);
        lemma_floor_sqrt(n as int, lo as int);
    }
    lo as i64
}

} // verus!
