//! Fixed-point curve evaluations: a parabolic sine and a decaying
//! exponential, both in Q16.16 and both with results pinned by their spec
//! functions and provably inside `[-ONE, ONE]` (the exponential inside
//! `[0, ONE]`).

use crate::fixed::{absi, clampi, div_q, divq, lemma_divq_le, HALF, ONE};
use vstd::arithmetic::div_mod::{
    lemma_div_is_ordered, lemma_div_pos_is_pos, lemma_mod_division_less_than_divisor,
    lemma_multiply_divide_lt,
};
use vstd::prelude::*;

verus! {

/// ln 2 in Q16.16.
pub const LN2: i64 = 45426;

/// The parabolic arch `4*u*(ONE - u) / ONE`, which approximates
/// `sin(pi * u / ONE)` for `u` in `[0, ONE]`.
pub open spec fn sin_arch(u: int) -> int
    recommends
        0 <= u <= ONE,
{
    divq(4 * u * (ONE - u), ONE as int)
}

/// `sin(pi * v / ONE)` for any Q16.16 argument: the argument is reduced
/// modulo one full cycle (`2 * ONE`), negative arguments use the sine's odd
/// symmetry, and each half cycle is the parabolic arch.
pub open spec fn sin_pi(v: int) -> int {
    let m = absi(v) % (2 * ONE as int);
    let s = if m <= ONE {
        sin_arch(m)
    } else {
        -sin_arch(m - ONE)
    };
    if v >= 0 {
        s
    } else {
        -s
    }
}

/// `cos(pi * v / ONE)`: the sine shifted a quarter cycle.
pub open spec fn cos_pi(v: int) -> int {
    sin_pi(v + HALF)
}

/// The arch stays within `[0, ONE]` on its half cycle.
pub proof fn lemma_sin_arch_range(u: int)
    requires
        0 <= u <= ONE,
    ensures
        0 <= sin_arch(u) <= ONE,
{
    assert(0 <= 4 * u * (ONE - u) <= ONE * ONE) by (nonlinear_arith)
        requires
            0 <= u <= ONE,
    ;
    lemma_divq_le(4 * u * (ONE - u), ONE as int, ONE * ONE);
}

/// The sine stays within `[-ONE, ONE]` everywhere.
pub proof fn lemma_sin_pi_range(v: int)
    ensures
        -ONE <= sin_pi(v) <= ONE,
{
    let m = absi(v) % (2 * ONE as int);
    lemma_mod_division_less_than_divisor(absi(v), 2 * ONE as int);
    if m <= ONE {
        lemma_sin_arch_range(m);
    } else {
        lemma_sin_arch_range(m - ONE);
    }
}

/// The parabolic arch, executable.
fn sin_arch_q(u: i64) -> (r: i64)
    requires
        0 <= u <= ONE,
    ensures
        r == sin_arch(u as int),
        0 <= r <= ONE,
{
    proof {
        lemma_sin_arch_range(u as int);
        assert(0 <= 4 * u * (ONE - u) <= ONE * ONE) by (nonlinear_arith)
            requires
                0 <= u <= ONE,
        ;
    }
    let p: i64 = 4 * u * (ONE - u);
    div_q(p, ONE)
}

/// `sin(pi * v / ONE)`, executable.
pub fn sin_pi_q(v: i64) -> (r: i64)
    requires
        -0x1000_0000_0000_0000 < v < 0x1000_0000_0000_0000,
    ensures
        r == sin_pi(v as int),
        -ONE <= r <= ONE,
{
    proof {
        lemma_sin_pi_range(v as int);
        lemma_mod_division_less_than_divisor(absi(v as int), 2 * ONE as int);
    }
    let a: i64 = if v >= 0 {
        v
    } else {
        -v
    };
    let m: i64 = ((a as u64) % (2 * 65536u64)) as i64;
    let s: i64 = if m <= ONE {
        sin_arch_q(m)
    } else {
        -sin_arch_q(m - ONE)
    };
    if v >= 0 {
        s
    } else {
        -s
    }
}

/// `cos(pi * v / ONE)`, executable.
pub fn cos_pi_q(v: i64) -> (r: i64)
    requires
        -0x1000_0000_0000_0000 < v < 0x0fff_ffff_ffff_0000,
    ensures
        r == cos_pi(v as int),
        -ONE <= r <= ONE,
{
    sin_pi_q(v + HALF)
}

/// Powers of two.
pub open spec fn pw2(k: int) -> int
    decreases k,
{
    if k <= 0 {
        1
    } else {
        2 * pw2(k - 1)
    }
}

/// `exp(-x / ONE)` for `x` in `[0, 5 * ONE]`, Q16.16: split `x` as
/// `k * ln 2 + r` with `0 <= r < ln 2`, evaluate the cubic
/// `1 - r + r^2/2 - r^3/6` on the remainder and halve it `k` times.
pub open spec fn exp_neg(x: int) -> int
    recommends
        0 <= x <= 5 * ONE,
{
    let k = x / (LN2 as int);
    let r = x % (LN2 as int);
    let t2 = r * r / (2 * ONE as int);
    let t3 = (r * r / (ONE as int)) * r / (6 * ONE as int);
    let p = ONE - r + t2 - t3;
    clampi(p / pw2(k), 0, ONE as int)
}

/// `exp(-x / ONE)`, executable.
pub fn exp_neg_q(x: i64) -> (res: i64)
    requires
        0 <= x <= 5 * ONE,
    ensures
        res == exp_neg(x as int),
        0 <= res <= ONE,
{
    let k: i64 = ((x as u64) / (LN2 as u64)) as i64;
    let r: i64 = ((x as u64) % (LN2 as u64)) as i64;
    proof {
        lemma_mod_division_less_than_divisor(x as int, LN2 as int);
        lemma_div_pos_is_pos(x as int, LN2 as int);
        lemma_multiply_divide_lt(x as int, LN2 as int, 8);
        assert(r * r <= LN2 * LN2) by (nonlinear_arith)
            requires
                0 <= r < LN2,
        ;
        lemma_div_is_ordered(r * r, LN2 * LN2, 2 * ONE as int);
        lemma_div_is_ordered(r * r, LN2 * LN2, ONE as int);
        lemma_div_pos_is_pos(r * r, 2 * ONE as int);
        lemma_div_pos_is_pos(r * r, ONE as int);
    }
    let t2: i64 = ((r as u64) * (r as u64) / (2 * 65536u64)) as i64;
    let rr: i64 = ((r as u64) * (r as u64) / 65536u64) as i64;
    proof {
        assert(rr * r <= (LN2 * LN2 / ONE as int) * LN2) by (nonlinear_arith)
            requires
                0 <= r < LN2,
                0 <= rr <= LN2 * LN2 / ONE as int,
        ;
        lemma_div_is_ordered(rr * r, (LN2 * LN2 / ONE as int) * LN2, 6 * ONE as int);
        lemma_div_pos_is_pos(rr * r, 6 * ONE as int);
    }
    let t3: i64 = ((rr as u64) * (r as u64) / (6 * 65536u64)) as i64;
    let p: i64 = ONE - r + t2 - t3;
    let pw: i64 = pw2_q(k);
    proof {
        lemma_div_pos_is_pos(p as int, pw as int);
        lemma_div_is_ordered(p as int, 2 * ONE as int, pw as int);
    }
    let q: i64 = ((p as u64) / (pw as u64)) as i64;
    if q > ONE {
        ONE
    } else {
        q
    }
}

/// `2^k` stays within `[1, 32768]` for `k` in `[0, 15]`.
pub proof fn lemma_pw2_range(k: int)
    requires
        0 <= k <= 15,
    ensures
        1 <= pw2(k) <= 32768,
{
    assert(pw2(0) == 1);
    assert(pw2(1) == 2);
    assert(pw2(2) == 4);
    assert(pw2(3) == 8);
    assert(pw2(4) == 16);
    assert(pw2(5) == 32);
    assert(pw2(6) == 64);
    assert(pw2(7) == 128);
    assert(pw2(8) == 256);
    assert(pw2(9) == 512);
    assert(pw2(10) == 1024);
    assert(pw2(11) == 2048);
    assert(pw2(12) == 4096);
    assert(pw2(13) == 8192);
    assert(pw2(14) == 16384);
    assert(pw2(15) == 32768);
}

/// `2^k` for small `k`, executable.
pub fn pw2_q(k: i64) -> (r: i64)
    requires
        0 <= k <= 15,
    ensures
        r == pw2(k as int),
        1 <= r <= 32768,
{
    proof {
        assert(pw2(0) == 1);
        assert(pw2(1) == 2);
        assert(pw2(2) == 4);
        assert(pw2(3) == 8);
        assert(pw2(4) == 16);
        assert(pw2(5) == 32);
        assert(pw2(6) == 64);
        assert(pw2(7) == 128);
        assert(pw2(8) == 256);
        assert(pw2(9) == 512);
        assert(pw2(10) == 1024);
        assert(pw2(11) == 2048);
        assert(pw2(12) == 4096);
        assert(pw2(13) == 8192);
        assert(pw2(14) == 16384);
        assert(pw2(15) == 32768);
    }
    if k <= 0 {
        1
    } else if k == 1 {
        2
    } else if k == 2 {
        4
    } else if k == 3 {
        8
    } else if k == 4 {
        16
    } else if k == 5 {
        32
    } else if k == 6 {
        64
    } else if k == 7 {
        128
    } else if k == 8 {
        256
    } else if k == 9 {
        512
    } else if k == 10 {
        1024
    } else if k == 11 {
        2048
    } else if k == 12 {
        4096
    } else if k == 13 {
        8192
    } else if k == 14 {
        16384
    } else {
        32768
    }
}

/// `exp(-5 * n / den)` for a stage `n` samples into a stretch of `den`
/// samples: the decay curve the envelope follows.
pub open spec fn exp5(n: int, den: int) -> int
    recommends
        0 <= n < den,
{
    exp_neg(5 * ONE * n / den)
}

/// `exp5`, executable.
pub fn exp5_q(n: u64, den: u64) -> (res: i64)
    requires
        n < den,
        den <= 0x4000_0000,
    ensures
        res == exp5(n as int, den as int),
        0 <= res <= ONE,
{
    proof {
        lemma_div_pos_is_pos(5 * ONE * n, den as int);
        assert(5 * ONE * n < den * (5 * ONE)) by (nonlinear_arith)
            requires
                n < den,
        ;
        lemma_multiply_divide_lt(5 * ONE * n, den as int, 5 * ONE as int);
    }
    let x: i64 = ((5 * 65536u64 * n) / den) as i64;
    exp_neg_q(x)
}

} // verus!
