//! Q16.16 fixed-point scalars: constants, clamping and division helpers.
//!
//! A fixed-point value represents the real number `v / 65536`.  Division by a
//! positive divisor truncates toward zero, matching hardware signed division;
//! the spec functions below state that arithmetic exactly.

use vstd::prelude::*;

verus! {

/// The value 1.0 in Q16.16 fixed point.
pub const ONE: i64 = 65536;

/// The value 0.5 in Q16.16 fixed point.
pub const HALF: i64 = 32768;

/// Saturation bound of the engine's dynamic range: 2^36 in Q16.16,
/// i.e. the real value 2^20.  Every processor clamps its input sample
/// into `[-SAMPLE_MAX, SAMPLE_MAX]` before computing.
pub const SAMPLE_MAX: i64 = 0x10_0000_0000;

/// Highest sample rate the engine accepts, in Hz.
pub const SAMPLE_RATE_MAX: u32 = 384000;

/// Clamp `v` into `[lo, hi]`.
pub open spec fn clampi(v: int, lo: int, hi: int) -> int {
    if v < lo {
        lo
    } else if v > hi {
        hi
    } else {
        v
    }
}

/// Absolute value.
pub open spec fn absi(v: int) -> int {
    if v < 0 {
        -v
    } else {
        v
    }
}

/// Division truncating toward zero, for a positive divisor.
pub open spec fn divq(a: int, d: int) -> int
    recommends
        d > 0,
{
    if a >= 0 {
        a / d
    } else {
        -((-a) / d)
    }
}

/// Q16.16 multiplication: the double-width product scaled back down,
/// truncating toward zero.
pub open spec fn mulq(a: int, b: int) -> int {
    divq(a * b, ONE as int)
}

/// Division rounding to nearest, ties away from zero, for a positive divisor.
pub open spec fn rdivq(a: int, d: int) -> int
    recommends
        d > 0,
{
    if a >= 0 {
        (a + d / 2) / d
    } else {
        -((-a + d / 2) / d)
    }
}

/// Truncating division shrinks magnitudes: `|a| <= m` gives
/// `|divq(a, d)| <= m / d <= m`, and the sign of the quotient follows `a`.
pub proof fn lemma_divq_le(a: int, d: int, m: int)
    requires
        d > 0,
        -m <= a <= m,
    ensures
        -(m / d) <= divq(a, d) <= m / d,
        -m <= divq(a, d) <= m,
        a >= 0 ==> divq(a, d) >= 0,
        a <= 0 ==> divq(a, d) <= 0,
{
    assert(m >= 0);
    if a >= 0 {
        vstd::arithmetic::div_mod::lemma_div_is_ordered(a, m, d);
        vstd::arithmetic::div_mod::lemma_div_pos_is_pos(a, d);
    } else {
        vstd::arithmetic::div_mod::lemma_div_is_ordered(-a, m, d);
        vstd::arithmetic::div_mod::lemma_div_pos_is_pos(-a, d);
    }
    assert(m / d <= m) by (nonlinear_arith)
        requires
            m >= 0,
            d >= 1,
    ;
}

/// Rounding division overshoots truncating division by at most one unit.
pub proof fn lemma_rdivq_le(a: int, d: int, m: int)
    requires
        d > 0,
        -m <= a <= m,
    ensures
        -(m / d + 1) <= rdivq(a, d) <= m / d + 1,
{
    assert(m >= 0);
    if a >= 0 {
        vstd::arithmetic::div_mod::lemma_div_is_ordered(a + d / 2, m + d / 2, d);
        vstd::arithmetic::div_mod::lemma_div_pos_is_pos(a + d / 2, d);
        assert((m + d / 2) / d <= m / d + 1) by (nonlinear_arith)
            requires
                m >= 0,
                d >= 1,
        ;
    } else {
        vstd::arithmetic::div_mod::lemma_div_is_ordered(-a + d / 2, m + d / 2, d);
        vstd::arithmetic::div_mod::lemma_div_pos_is_pos(-a + d / 2, d);
        assert((m + d / 2) / d <= m / d + 1) by (nonlinear_arith)
            requires
                m >= 0,
                d >= 1,
        ;
    }
}

/// A product of bounded factors is bounded by the product of the bounds.
pub proof fn lemma_mul_bound(a: int, b: int, ma: int, mb: int)
    requires
        -ma <= a <= ma,
        -mb <= b <= mb,
    ensures
        -(ma * mb) <= a * b <= ma * mb,
{
    assert(-(ma * mb) <= a * b <= ma * mb) by (nonlinear_arith)
        requires
            -ma <= a <= ma,
            -mb <= b <= mb,
    ;
}

/// Clamp a sample into `[lo, hi]`.
pub fn clamp_i64(v: i64, lo: i64, hi: i64) -> (r: i64)
    requires
        lo <= hi,
    ensures
        r == clampi(v as int, lo as int, hi as int),
{
    if v < lo {
        lo
    } else if v > hi {
        hi
    } else {
        v
    }
}

/// Truncating division by a positive divisor, computed through unsigned
/// division on the operands' magnitudes.
pub fn div_q(a: i64, d: i64) -> (r: i64)
    requires
        d > 0,
        a > i64::MIN,
    ensures
        r == divq(a as int, d as int),
{
    proof {
        lemma_divq_le(a as int, d as int, if a >= 0 { a as int } else { -(a as int) });
    }
    if a >= 0 {
        ((a as u64) / (d as u64)) as i64
    } else {
        -((((-a) as u64) / (d as u64)) as i64)
    }
}

/// Rounding division (ties away from zero) by a positive divisor.
pub fn rdiv_q(a: i64, d: i64) -> (r: i64)
    requires
        d > 0,
        -0x4000_0000_0000_0000 < a < 0x4000_0000_0000_0000,
        d < 0x4000_0000_0000_0000,
    ensures
        r == rdivq(a as int, d as int),
{
    proof {
        lemma_rdivq_le(a as int, d as int, if a >= 0 { a as int } else { -(a as int) });
    }
    if a >= 0 {
        (((a as u64) + ((d / 2) as u64)) / (d as u64)) as i64
    } else {
        -(((((-a) as u64) + ((d / 2) as u64)) / (d as u64)) as i64)
    }
}

/// Q16.16 multiplication of two samples whose product fits in `i64`.
pub fn mul_q(a: i64, b: i64) -> (r: i64)
    requires
        -0x7fff_ffff_ffff_ffff <= a * b <= 0x7fff_ffff_ffff_ffff,
    ensures
        r == mulq(a as int, b as int),
{
    let p: i64 = a * b;
    div_q(p, ONE)
}

} // verus!
