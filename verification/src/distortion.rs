//! Memoryless waveshaping distortion with five transfer functions.
//!
//! The input sample is saturated to the dynamic range, scaled by the drive,
//! pushed through the selected transfer function, cross-faded with the dry
//! signal by the mix, and scaled by the output gain.  There is no state
//! across samples.

use crate::curves::{pw2, pw2_q, sin_pi, sin_pi_q};
use crate::fixed::{
    absi, clamp_i64, clampi, div_q, divq, lemma_divq_le, lemma_mul_bound, lemma_rdivq_le, mulq,
    rdiv_q, rdivq, ONE, SAMPLE_MAX,
};
use crate::strutil::str_eq;
use vstd::arithmetic::div_mod::{
    lemma_div_is_ordered, lemma_div_multiples_vanish, lemma_fundamental_div_mod,
    lemma_mod_division_less_than_divisor,
};
use vstd::prelude::*;

verus! {

/// Smallest drive, 1.0 in Q16.16.
pub const DRIVE_MIN: i64 = 65536;

/// Largest drive, 100.0 in Q16.16.
pub const DRIVE_MAX: i64 = 100 * 65536;

/// Largest magnitude a driven sample can take: `DRIVE_MAX * SAMPLE_MAX / ONE`.
pub const DRIVEN_MAX: i64 = 100 * 0x10_0000_0000;

/// The transfer function a distortion applies to the driven sample.
#[derive(Clone, Copy, Debug, PartialEq, Eq, Structural)]
pub enum DistortionType {
    Soft,
    Hard,
    Foldback,
    Sine,
    Bitcrush,
}

/// Ghost state of a distortion, in Q16.16.
pub struct DistortionModel {
    pub distortion_type: DistortionType,
    pub drive: int,
    pub mix: int,
    pub output_gain: int,
    pub bit_depth: int,
}

impl DistortionModel {
    /// Well-formedness: every parameter inside its documented range.
    pub open spec fn inv(self) -> bool {
        &&& DRIVE_MIN <= self.drive <= DRIVE_MAX
        &&& 0 <= self.mix <= ONE
        &&& 0 <= self.output_gain <= ONE
        &&& 1 <= self.bit_depth <= 16
    }
}

/// Soft clipping: a rational approximation of `tanh(v / ONE)`,
/// `v * (27 + v^2) / (27 + 9 * v^2)` on `[-3, 3]` and `±1` beyond, clamped
/// into `[-ONE, ONE]`.
pub open spec fn tanh_q(v: int) -> int {
    if v >= 3 * ONE {
        ONE as int
    } else if v <= -3 * ONE {
        -ONE as int
    } else {
        let x2 = divq(v * v, ONE as int);
        let num = divq(v * (27 * ONE + x2), ONE as int);
        let den = 27 * ONE + 9 * x2;
        clampi(divq(num * ONE, den), -ONE as int, ONE as int)
    }
}

/// Foldback: reflect the value across `±ONE` until it lands inside.  Each
/// reflection strictly shrinks the magnitude, so the recursion terminates
/// for every finite input.
pub open spec fn fold_q(v: int) -> int
    decreases absi(v),
{
    if -ONE <= v <= ONE {
        v
    } else if v > ONE {
        fold_q(2 * ONE - v)
    } else {
        fold_q(-2 * ONE - v)
    }
}

/// The folded value always lands inside `[-ONE, ONE]`.
pub proof fn lemma_fold_range(v: int)
    ensures
        -ONE <= fold_q(v) <= ONE,
    decreases absi(v),
{
    if -ONE <= v <= ONE {
    } else if v > ONE {
        lemma_fold_range(2 * ONE - v);
    } else {
        lemma_fold_range(-2 * ONE - v);
    }
}

/// Bitcrush: quantize to `2^(bit_depth - 1)` levels by rounding, ties away
/// from zero.
pub open spec fn bitcrush_q(v: int, bit_depth: int) -> int
    recommends
        1 <= bit_depth <= 16,
{
    let scale = pw2(bit_depth - 1);
    divq(rdivq(v * scale, ONE as int) * ONE, scale)
}

/// The selected transfer function applied to the driven sample
/// `x * drive / ONE`.
pub open spec fn dist_shape(m: DistortionModel, x: int) -> int {
    let v = mulq(x, m.drive);
    match m.distortion_type {
        DistortionType::Soft => tanh_q(v),
        DistortionType::Hard => clampi(v, -ONE as int, ONE as int),
        DistortionType::Foldback => fold_q(v),
        DistortionType::Sine => sin_pi(v),
        DistortionType::Bitcrush => bitcrush_q(v, m.bit_depth),
    }
}

/// The full per-sample output: saturate the input, shape it, cross-fade dry
/// against wet by the mix, and apply the output gain.
pub open spec fn dist_out(m: DistortionModel, input: int) -> int {
    let x = clampi(input, -SAMPLE_MAX as int, SAMPLE_MAX as int);
    let shaped = dist_shape(m, x);
    let mixed = divq(x * (ONE - m.mix) + shaped * m.mix, ONE as int);
    divq(mixed * m.output_gain, ONE as int)
}

/// The numeric code a `"type"` parameter selects a transfer function by;
/// unknown codes fall back to `Soft`.
pub open spec fn dist_type_of_code(code: int) -> DistortionType {
    if code == 1 {
        DistortionType::Hard
    } else if code == 2 {
        DistortionType::Foldback
    } else if code == 3 {
        DistortionType::Sine
    } else if code == 4 {
        DistortionType::Bitcrush
    } else {
        DistortionType::Soft
    }
}

/// What `set_parameter` does: the updated model and whether the name was
/// recognized.
pub open spec fn dist_param(m: DistortionModel, name: Seq<char>, value: int) -> (
    DistortionModel,
    bool,
) {
    if name == "drive"@ {
        (
            DistortionModel { drive: clampi(value, DRIVE_MIN as int, DRIVE_MAX as int), ..m },
            true,
        )
    } else if name == "mix"@ {
        (DistortionModel { mix: clampi(value, 0, ONE as int), ..m }, true)
    } else if name == "output_gain"@ {
        (DistortionModel { output_gain: clampi(value, 0, ONE as int), ..m }, true)
    } else if name == "type"@ {
        (
            DistortionModel {
                distortion_type: dist_type_of_code(divq(clampi(value, 0, 5 * ONE as int), ONE as int)),
                ..m
            },
            true,
        )
    } else if name == "bit_depth"@ {
        (
            DistortionModel {
                bit_depth: clampi(divq(clampi(value, 0, 17 * ONE as int), ONE as int), 1, 16),
                ..m
            },
            true,
        )
    } else {
        (m, false)
    }
}

/// Memoryless waveshaping distortion, Q16.16.
pub struct Distortion {
    distortion_type: DistortionType,
    drive: i64,
    mix: i64,
    output_gain: i64,
    bit_depth: i64,
}

impl View for Distortion {
    type V = DistortionModel;

    closed spec fn view(&self) -> DistortionModel {
        DistortionModel {
            distortion_type: self.distortion_type,
            drive: self.drive as int,
            mix: self.mix as int,
            output_gain: self.output_gain as int,
            bit_depth: self.bit_depth as int,
        }
    }
}

impl Distortion {
    /// A distortion with the given transfer function; drive, mix and gain
    /// are clamped to their ranges and the bit depth starts at 8.
    pub fn new(distortion_type: DistortionType, drive: i64, mix: i64, output_gain: i64) -> (r:
        Distortion)
        ensures
            r@.inv(),
            r@.distortion_type == distortion_type,
            r@.drive == clampi(drive as int, DRIVE_MIN as int, DRIVE_MAX as int),
            r@.mix == clampi(mix as int, 0, ONE as int),
            r@.output_gain == clampi(output_gain as int, 0, ONE as int),
            r@.bit_depth == 8,
    {
        Distortion {
            distortion_type,
            drive: clamp_i64(drive, DRIVE_MIN, DRIVE_MAX),
            mix: clamp_i64(mix, 0, ONE),
            output_gain: clamp_i64(output_gain, 0, ONE),
            bit_depth: 8,
        }
    }

    /// Set the drive, clamped to `[1.0, 100.0]`.
    pub fn set_drive(&mut self, drive: i64)
        ensures
            final(self)@ == (DistortionModel {
                drive: clampi(drive as int, DRIVE_MIN as int, DRIVE_MAX as int),
                ..old(self)@
            }),
    {
        self.drive = clamp_i64(drive, DRIVE_MIN, DRIVE_MAX);
    }

    /// Set the dry/wet mix, clamped to `[0, 1]`.
    pub fn set_mix(&mut self, mix: i64)
        ensures
            final(self)@ == (DistortionModel {
                mix: clampi(mix as int, 0, ONE as int),
                ..old(self)@
            }),
    {
        self.mix = clamp_i64(mix, 0, ONE);
    }

    /// Set the output gain, clamped to `[0, 1]`.
    pub fn set_output_gain(&mut self, gain: i64)
        ensures
            final(self)@ == (DistortionModel {
                output_gain: clampi(gain as int, 0, ONE as int),
                ..old(self)@
            }),
    {
        self.output_gain = clamp_i64(gain, 0, ONE);
    }

    /// Select the transfer function.
    pub fn set_distortion_type(&mut self, distortion_type: DistortionType)
        ensures
            final(self)@ == (DistortionModel { distortion_type, ..old(self)@ }),
    {
        self.distortion_type = distortion_type;
    }

    /// Set the bitcrush depth, clamped to `[1, 16]` bits.
    pub fn set_bit_depth(&mut self, bit_depth: i64)
        ensures
            final(self)@ == (DistortionModel {
                bit_depth: clampi(bit_depth as int, 1, 16),
                ..old(self)@
            }),
    {
        self.bit_depth = clamp_i64(bit_depth, 1, 16);
    }

    /// Shape one sample.  The distortion is memoryless, so the state is
    /// untouched and the output is a pure function of the parameters and the
    /// input.
    pub fn process(&mut self, input: i64) -> (out: i64)
        requires
            old(self)@.inv(),
        ensures
            final(self)@ == old(self)@,
            out == dist_out(old(self)@, input as int),
    {
        let x = clamp_i64(input, -SAMPLE_MAX, SAMPLE_MAX);
        proof {
            lemma_mul_bound(x as int, self.drive as int, SAMPLE_MAX as int, DRIVE_MAX as int);
            lemma_divq_le(x * self.drive, ONE as int, SAMPLE_MAX * DRIVE_MAX);
        }
        let v = div_q(x * self.drive, ONE);
        let shaped: i64 = match self.distortion_type {
            DistortionType::Soft => tanh_exec(v),
            DistortionType::Hard => clamp_i64(v, -ONE, ONE),
            DistortionType::Foldback => fold_exec(v),
            DistortionType::Sine => sin_pi_q(v),
            DistortionType::Bitcrush => bitcrush_exec(v, self.bit_depth),
        };
        proof {
            lemma_mul_bound(x as int, (ONE - self.mix) as int, SAMPLE_MAX as int, ONE as int);
            lemma_mul_bound(
                shaped as int,
                self.mix as int,
                (DRIVEN_MAX + ONE) as int,
                ONE as int,
            );
            lemma_divq_le(
                x * (ONE - self.mix) + shaped * self.mix,
                ONE as int,
                SAMPLE_MAX * ONE + (DRIVEN_MAX + ONE) * ONE,
            );
        }
        let mixed = div_q(x * (ONE - self.mix) + shaped * self.mix, ONE);
        proof {
            lemma_mul_bound(
                mixed as int,
                self.output_gain as int,
                (SAMPLE_MAX + DRIVEN_MAX + ONE + 1) as int,
                ONE as int,
            );
        }
        div_q(mixed * self.output_gain, ONE)
    }

    /// The distortion holds no state across samples, so reset is a no-op.
    pub fn reset(&mut self)
        ensures
            final(self)@ == old(self)@,
    {
    }

    /// Set a parameter by name: `"drive"`, `"mix"`, `"output_gain"`,
    /// `"type"` (code 0-4 selecting Soft/Hard/Foldback/Sine/Bitcrush) or
    /// `"bit_depth"`.  Unknown names change nothing and return `false`.
    pub fn set_parameter(&mut self, name: &str, value: i64) -> (recognized: bool)
        ensures
            (final(self)@, recognized) == dist_param(old(self)@, name@, value as int),
    {
        if str_eq(name, "drive") {
            self.set_drive(value);
            true
        } else if str_eq(name, "mix") {
            self.set_mix(value);
            true
        } else if str_eq(name, "output_gain") {
            self.set_output_gain(value);
            true
        } else if str_eq(name, "type") {
            let code = div_q(clamp_i64(value, 0, 5 * ONE), ONE);
            let t = if code == 1 {
                DistortionType::Hard
            } else if code == 2 {
                DistortionType::Foldback
            } else if code == 3 {
                DistortionType::Sine
            } else if code == 4 {
                DistortionType::Bitcrush
            } else {
                DistortionType::Soft
            };
            self.set_distortion_type(t);
            true
        } else if str_eq(name, "bit_depth") {
            let bits = div_q(clamp_i64(value, 0, 17 * ONE), ONE);
            self.set_bit_depth(bits);
            true
        } else {
            false
        }
    }

    /// The effect's name.
    pub fn name(&self) -> (r: &'static str)
        ensures
            r@ == "Distortion"@,
    {
        "Distortion"
    }
}

/// Soft clipping, executable.
fn tanh_exec(v: i64) -> (r: i64)
    requires
        -DRIVEN_MAX <= v <= DRIVEN_MAX,
    ensures
        r == tanh_q(v as int),
        -ONE <= r <= ONE,
{
    if v >= 3 * ONE {
        ONE
    } else if v <= -3 * ONE {
        -ONE
    } else {
        proof {
            lemma_mul_bound(v as int, v as int, 3 * ONE as int, 3 * ONE as int);
            lemma_divq_le(v * v, ONE as int, 9 * ONE * ONE);
        }
        let x2 = div_q(v * v, ONE);
        proof {
            assert(v * v >= 0) by (nonlinear_arith);
            lemma_divq_le(v * v, ONE as int, 9 * ONE * ONE);
            lemma_mul_bound(v as int, (27 * ONE + x2) as int, 3 * ONE as int, 36 * ONE as int);
            lemma_divq_le(v * (27 * ONE + x2), ONE as int, 3 * ONE * (36 * ONE));
        }
        let num = div_q(v * (27 * ONE + x2), ONE);
        let den = 27 * ONE + 9 * x2;
        proof {
            lemma_mul_bound(num as int, ONE as int, 108 * ONE as int, ONE as int);
        }
        clamp_i64(div_q(num * ONE, den), -ONE, ONE)
    }
}

/// Foldback, executable: reflect across `±ONE` until the value lands inside.
fn fold_exec(v0: i64) -> (r: i64)
    requires
        -DRIVEN_MAX <= v0 <= DRIVEN_MAX,
    ensures
        r == fold_q(v0 as int),
        -ONE <= r <= ONE,
{
    let mut v: i64 = v0;
    while v > ONE || v < -ONE
        invariant
            -DRIVEN_MAX <= v <= DRIVEN_MAX,
            fold_q(v as int) == fold_q(v0 as int),
        decreases absi(v as int),
    {
        if v > ONE {
            v = 2 * ONE - v;
        } else {
            v = -2 * ONE - v;
        }
    }
    v
}

/// The quantized value overshoots the driven range by at most one unit,
/// whatever the bit depth.
proof fn lemma_bitcrush_range(v: int, bit_depth: int)
    requires
        1 <= bit_depth <= 16,
        -DRIVEN_MAX <= v <= DRIVEN_MAX,
    ensures
        -(DRIVEN_MAX + ONE) <= bitcrush_q(v, bit_depth) <= DRIVEN_MAX + ONE,
        absi(rdivq(v * pw2(bit_depth - 1), ONE as int)) <= DRIVEN_MAX * pw2(bit_depth - 1) / (
        ONE as int) + 1,
{
    let scale = pw2(bit_depth - 1);
    crate::curves::lemma_pw2_range(bit_depth - 1);
    lemma_mul_bound(v, scale, DRIVEN_MAX as int, scale);
    lemma_rdivq_le(v * scale, ONE as int, DRIVEN_MAX * scale);
    let q = rdivq(v * scale, ONE as int);
    let qb = DRIVEN_MAX * scale / (ONE as int) + 1;
    assert(absi(q) <= qb);
    lemma_fundamental_div_mod(DRIVEN_MAX * scale, ONE as int);
    lemma_mod_division_less_than_divisor(DRIVEN_MAX * scale, ONE as int);
    assert(qb * ONE <= DRIVEN_MAX * scale + ONE);
    assert(-(DRIVEN_MAX * scale + ONE) <= q * ONE <= DRIVEN_MAX * scale + ONE) by (
    nonlinear_arith)
        requires
            absi(q) <= qb,
            qb * ONE <= DRIVEN_MAX * scale + ONE,
            qb >= 0,
    ;
    lemma_divq_le(q * ONE, scale, DRIVEN_MAX * scale + ONE);
    lemma_div_is_ordered(DRIVEN_MAX * scale + ONE, (DRIVEN_MAX + ONE) * scale, scale);
    lemma_div_multiples_vanish(DRIVEN_MAX + ONE as int, scale);
}

/// Bitcrush, executable.
fn bitcrush_exec(v: i64, bit_depth: i64) -> (r: i64)
    requires
        -DRIVEN_MAX <= v <= DRIVEN_MAX,
        1 <= bit_depth <= 16,
    ensures
        r == bitcrush_q(v as int, bit_depth as int),
        -(DRIVEN_MAX + ONE) <= r <= DRIVEN_MAX + ONE,
{
    proof {
        lemma_bitcrush_range(v as int, bit_depth as int);
    }
    let scale = pw2_q(bit_depth - 1);
    proof {
        lemma_mul_bound(v as int, scale as int, DRIVEN_MAX as int, scale as int);
        lemma_rdivq_le(v * scale, ONE as int, DRIVEN_MAX * (scale as int));
        lemma_div_is_ordered(DRIVEN_MAX * scale, DRIVEN_MAX * 32768, ONE as int);
        assert(DRIVEN_MAX * scale <= DRIVEN_MAX * 32768);
    }
    let q = rdiv_q(v * scale, ONE);
    proof {
        lemma_mul_bound(
            q as int,
            ONE as int,
            DRIVEN_MAX * (scale as int) / (ONE as int) + 1,
            ONE as int,
        );
    }
    div_q(q * ONE, scale)
}

} // verus!
