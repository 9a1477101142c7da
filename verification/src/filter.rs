//! Two-pole recursive (biquad) filter with four modes.
//!
//! Coefficients follow the standard cookbook formulas, evaluated in Q16.16
//! with the parabolic sine of [`crate::curves`], and are recomputed eagerly
//! on every parameter change, so a processing step never sees parameters
//! without matching coefficients.  The output is saturated to the dynamic
//! range, which also keeps the recursive history bounded.

use crate::curves::{cos_pi, cos_pi_q, lemma_sin_pi_range, sin_arch, sin_pi, sin_pi_q};
use crate::fixed::{
    clamp_i64, clampi, div_q, divq, lemma_divq_le, lemma_mul_bound, ONE, SAMPLE_MAX,
    SAMPLE_RATE_MAX,
};
use crate::strutil::str_eq;
use vstd::arithmetic::div_mod::{
    lemma_div_is_ordered, lemma_div_is_ordered_by_denominator, lemma_div_pos_is_pos,
    lemma_fundamental_div_mod, lemma_mod_division_less_than_divisor, lemma_multiply_divide_le,
    lemma_small_mod,
};
use vstd::prelude::*;

verus! {

/// Lowest cutoff: 20 Hz in Q16.16.
pub const CUTOFF_MIN: i64 = 20 * 65536;

/// Lowest resonance, just above 0.1 in Q16.16.
pub const RESONANCE_MIN: i64 = 6554;

/// Highest resonance: 20.0 in Q16.16.
pub const RESONANCE_MAX: i64 = 20 * 65536;

/// Lowest sample rate the filter accepts, in Hz: below this the Nyquist-safe
/// cutoff range `[20 Hz, 0.49 * sample_rate]` would be empty.
pub const FILTER_RATE_MIN: u32 = 41;

/// Bound on every normalized coefficient's magnitude: 5.0 in Q16.16.
pub const COEFF_MAX: i64 = 5 * 65536;

/// The filter's response shape.
#[derive(Clone, Copy, Debug, PartialEq, Eq, Structural)]
pub enum FilterType {
    LowPass,
    HighPass,
    BandPass,
    Notch,
}

/// The five normalized biquad coefficients, Q16.16: the output is
/// `a0*x + a1*x1 + a2*x2 - b1*y1 - b2*y2`.
pub struct Coeffs {
    pub a0: int,
    pub a1: int,
    pub a2: int,
    pub b1: int,
    pub b2: int,
}

/// Ghost state of a filter.
pub struct FilterModel {
    pub filter_type: FilterType,
    pub cutoff: int,
    pub resonance: int,
    pub sample_rate: int,
    pub x1: int,
    pub x2: int,
    pub y1: int,
    pub y2: int,
    pub coeffs: Coeffs,
}

/// The top of the Nyquist-safe cutoff range: `0.49 * sample_rate`, in
/// Q16.16 Hz.
pub open spec fn cutoff_max(sample_rate: int) -> int {
    49 * sample_rate * ONE / 100
}

/// The cookbook biquad coefficients for the given parameters, normalized by
/// `1 + alpha`, where `omega = pi * (2 * cutoff / sample_rate)` and
/// `alpha = sin(omega) / (2 * resonance)`.
pub open spec fn filter_coeffs(
    filter_type: FilterType,
    cutoff: int,
    resonance: int,
    sample_rate: int,
) -> Coeffs
    recommends
        FILTER_RATE_MIN <= sample_rate,
        CUTOFF_MIN <= cutoff <= cutoff_max(sample_rate),
        RESONANCE_MIN <= resonance,
{
    let w = 2 * cutoff / sample_rate;
    let sinw = sin_pi(w);
    let cosw = cos_pi(w);
    let alpha = sinw * ONE / (2 * resonance);
    let a0r = ONE + alpha;
    let rb0 = match filter_type {
        FilterType::LowPass => divq(ONE - cosw, 2),
        FilterType::HighPass => divq(ONE + cosw, 2),
        FilterType::BandPass => divq(sinw, 2),
        FilterType::Notch => ONE as int,
    };
    let rb1 = match filter_type {
        FilterType::LowPass => ONE - cosw,
        FilterType::HighPass => -(ONE + cosw),
        FilterType::BandPass => 0int,
        FilterType::Notch => -2 * cosw,
    };
    let rb2 = match filter_type {
        FilterType::LowPass => divq(ONE - cosw, 2),
        FilterType::HighPass => divq(ONE + cosw, 2),
        FilterType::BandPass => -divq(sinw, 2),
        FilterType::Notch => ONE as int,
    };
    let ra1 = -2 * cosw;
    let ra2 = ONE - alpha;
    Coeffs {
        a0: divq(rb0 * ONE, a0r),
        a1: divq(rb1 * ONE, a0r),
        a2: divq(rb2 * ONE, a0r),
        b1: divq(ra1 * ONE, a0r),
        b2: divq(ra2 * ONE, a0r),
    }
}

impl FilterModel {
    /// Well-formedness: parameters inside their clamped ranges, coefficients
    /// exactly those of the parameters (never stale), history saturated.
    pub open spec fn inv(self) -> bool {
        &&& FILTER_RATE_MIN <= self.sample_rate <= SAMPLE_RATE_MAX
        &&& CUTOFF_MIN <= self.cutoff <= cutoff_max(self.sample_rate)
        &&& RESONANCE_MIN <= self.resonance <= RESONANCE_MAX
        &&& self.coeffs == filter_coeffs(
            self.filter_type,
            self.cutoff,
            self.resonance,
            self.sample_rate,
        )
        &&& -SAMPLE_MAX <= self.x1 <= SAMPLE_MAX
        &&& -SAMPLE_MAX <= self.x2 <= SAMPLE_MAX
        &&& -SAMPLE_MAX <= self.y1 <= SAMPLE_MAX
        &&& -SAMPLE_MAX <= self.y2 <= SAMPLE_MAX
    }
}

/// One direct-form biquad step: saturate the input, take the weighted sum of
/// it, the input history and the output history, saturate, and shift the
/// history.
pub open spec fn filter_step(m: FilterModel, input: int) -> (FilterModel, int) {
    let x = clampi(input, -SAMPLE_MAX as int, SAMPLE_MAX as int);
    let acc = m.coeffs.a0 * x + m.coeffs.a1 * m.x1 + m.coeffs.a2 * m.x2 - m.coeffs.b1 * m.y1
        - m.coeffs.b2 * m.y2;
    let y = clampi(divq(acc, ONE as int), -SAMPLE_MAX as int, SAMPLE_MAX as int);
    (FilterModel { x1: x, x2: m.x1, y1: y, y2: m.y1, ..m }, y)
}

/// A filter with zeroed history produces exactly zero on a zero input, and
/// its state stays zeroed — whatever the type, cutoff and resonance.
pub proof fn lemma_filter_zero_input(m: FilterModel)
    requires
        m.x1 == 0,
        m.x2 == 0,
        m.y1 == 0,
        m.y2 == 0,
    ensures
        filter_step(m, 0) == (m, 0int),
{
    assert(m.coeffs.a0 * 0 == 0) by (nonlinear_arith);
    assert(m.coeffs.a1 * 0 == 0) by (nonlinear_arith);
    assert(m.coeffs.a2 * 0 == 0) by (nonlinear_arith);
    assert(m.coeffs.b1 * 0 == 0) by (nonlinear_arith);
    assert(m.coeffs.b2 * 0 == 0) by (nonlinear_arith);
    let (m2, y) = filter_step(m, 0);
    assert(m2 == m);
}

/// The model after re-clamping the cutoff and recomputing coefficients.
pub open spec fn filter_with_cutoff(m: FilterModel, cutoff: int) -> FilterModel {
    let nc = clampi(cutoff, CUTOFF_MIN as int, cutoff_max(m.sample_rate));
    FilterModel {
        cutoff: nc,
        coeffs: filter_coeffs(m.filter_type, nc, m.resonance, m.sample_rate),
        ..m
    }
}

/// The model after re-clamping the resonance and recomputing coefficients.
pub open spec fn filter_with_resonance(m: FilterModel, resonance: int) -> FilterModel {
    let nr = clampi(resonance, RESONANCE_MIN as int, RESONANCE_MAX as int);
    FilterModel {
        resonance: nr,
        coeffs: filter_coeffs(m.filter_type, m.cutoff, nr, m.sample_rate),
        ..m
    }
}

/// The model after switching the type and recomputing coefficients.
pub open spec fn filter_with_type(m: FilterModel, filter_type: FilterType) -> FilterModel {
    FilterModel {
        filter_type,
        coeffs: filter_coeffs(filter_type, m.cutoff, m.resonance, m.sample_rate),
        ..m
    }
}

/// The numeric code a `"type"` parameter selects a response shape by;
/// unknown codes fall back to `LowPass`.
pub open spec fn filter_type_of_code(code: int) -> FilterType {
    if code == 1 {
        FilterType::HighPass
    } else if code == 2 {
        FilterType::BandPass
    } else if code == 3 {
        FilterType::Notch
    } else {
        FilterType::LowPass
    }
}

/// What `set_parameter` does: the updated model and whether the name was
/// recognized.
pub open spec fn filter_param(m: FilterModel, name: Seq<char>, value: int) -> (FilterModel, bool) {
    if name == "cutoff"@ {
        (filter_with_cutoff(m, value), true)
    } else if name == "resonance"@ {
        (filter_with_resonance(m, value), true)
    } else if name == "type"@ {
        (
            filter_with_type(
                m,
                filter_type_of_code(divq(clampi(value, 0, 4 * ONE as int), ONE as int)),
            ),
            true,
        )
    } else {
        (m, false)
    }
}

/// For parameters in range, `omega / pi` lands in `[0, ONE]`, its sine is
/// the nonnegative parabolic arch, and every normalized coefficient's
/// magnitude stays within [`COEFF_MAX`].
pub proof fn lemma_coeffs_bounds(
    filter_type: FilterType,
    cutoff: int,
    resonance: int,
    sample_rate: int,
)
    requires
        FILTER_RATE_MIN <= sample_rate <= SAMPLE_RATE_MAX,
        CUTOFF_MIN <= cutoff <= cutoff_max(sample_rate),
        RESONANCE_MIN <= resonance <= RESONANCE_MAX,
    ensures
        ({
            let c = filter_coeffs(filter_type, cutoff, resonance, sample_rate);
            &&& -COEFF_MAX <= c.a0 <= COEFF_MAX
            &&& -COEFF_MAX <= c.a1 <= COEFF_MAX
            &&& -COEFF_MAX <= c.a2 <= COEFF_MAX
            &&& -COEFF_MAX <= c.b1 <= COEFF_MAX
            &&& -COEFF_MAX <= c.b2 <= COEFF_MAX
        }),
        0 <= 2 * cutoff / sample_rate <= ONE,
        0 <= sin_pi(2 * cutoff / sample_rate) <= ONE,
        0 <= sin_pi(2 * cutoff / sample_rate) * ONE / (2 * resonance) <= 5 * ONE,
{
    let w = 2 * cutoff / sample_rate;
    let q = 49 * sample_rate * ONE / 100;
    lemma_fundamental_div_mod(49 * sample_rate * ONE, 100);
    lemma_mod_division_less_than_divisor(49 * sample_rate * ONE, 100);
    assert(2 * q <= sample_rate * ONE);
    lemma_multiply_divide_le(2 * cutoff, sample_rate, ONE as int);
    lemma_div_pos_is_pos(2 * cutoff, sample_rate);
    assert(0 <= w <= ONE);
    lemma_small_mod(w as nat, (2 * ONE) as nat);
    assert(sin_pi(w) == sin_arch(w));
    crate::curves::lemma_sin_arch_range(w);
    let sinw = sin_pi(w);
    let cosw = cos_pi(w);
    lemma_sin_pi_range(w + (ONE / 2));
    let alpha = sinw * ONE / (2 * resonance);
    lemma_div_pos_is_pos(sinw * ONE, 2 * resonance);
    lemma_div_is_ordered(sinw * ONE, ONE * ONE, 2 * resonance);
    lemma_div_is_ordered_by_denominator(ONE * ONE, 2 * RESONANCE_MIN as int, 2 * resonance);
    assert(0 <= alpha <= 5 * ONE);
    let a0r = ONE + alpha;
    let c = filter_coeffs(filter_type, cutoff, resonance, sample_rate);
    lemma_divq_le(ONE - cosw, 2, 2 * ONE as int);
    lemma_divq_le(ONE + cosw, 2, 2 * ONE as int);
    lemma_divq_le(sinw, 2, ONE as int);
    let rb0 = match filter_type {
        FilterType::LowPass => divq(ONE - cosw, 2),
        FilterType::HighPass => divq(ONE + cosw, 2),
        FilterType::BandPass => divq(sinw, 2),
        FilterType::Notch => ONE as int,
    };
    let rb1 = match filter_type {
        FilterType::LowPass => ONE - cosw,
        FilterType::HighPass => -(ONE + cosw),
        FilterType::BandPass => 0int,
        FilterType::Notch => -2 * cosw,
    };
    let rb2 = match filter_type {
        FilterType::LowPass => divq(ONE - cosw, 2),
        FilterType::HighPass => divq(ONE + cosw, 2),
        FilterType::BandPass => -divq(sinw, 2),
        FilterType::Notch => ONE as int,
    };
    let ra1 = -2 * cosw;
    let ra2 = ONE - alpha;
    assert(-5 * ONE <= rb0 <= 5 * ONE);
    assert(-5 * ONE <= rb1 <= 5 * ONE);
    assert(-5 * ONE <= rb2 <= 5 * ONE);
    assert(-5 * ONE <= ra1 <= 5 * ONE);
    assert(-5 * ONE <= ra2 <= 5 * ONE);
    lemma_norm_bound(rb0, a0r);
    lemma_norm_bound(rb1, a0r);
    lemma_norm_bound(rb2, a0r);
    lemma_norm_bound(ra1, a0r);
    lemma_norm_bound(ra2, a0r);
}

/// Normalizing a raw coefficient by `1 + alpha >= ONE` never grows its
/// magnitude past [`COEFF_MAX`].
proof fn lemma_norm_bound(raw: int, a0r: int)
    requires
        a0r >= ONE,
        -5 * ONE <= raw <= 5 * ONE,
    ensures
        -COEFF_MAX <= divq(raw * ONE, a0r) <= COEFF_MAX,
{
    lemma_mul_bound(raw, ONE as int, 5 * ONE as int, ONE as int);
    lemma_divq_le(raw * ONE, a0r, 5 * ONE * ONE);
    lemma_div_is_ordered_by_denominator(5 * ONE * ONE, ONE as int, a0r);
    vstd::arithmetic::div_mod::lemma_div_multiples_vanish(5 * ONE as int, ONE as int);
}

/// Biquad filter, Q16.16.
pub struct Filter {
    filter_type: FilterType,
    cutoff: i64,
    resonance: i64,
    sample_rate: u32,
    x1: i64,
    x2: i64,
    y1: i64,
    y2: i64,
    a0: i64,
    a1: i64,
    a2: i64,
    b1: i64,
    b2: i64,
}

impl View for Filter {
    type V = FilterModel;

    closed spec fn view(&self) -> FilterModel {
        FilterModel {
            filter_type: self.filter_type,
            cutoff: self.cutoff as int,
            resonance: self.resonance as int,
            sample_rate: self.sample_rate as int,
            x1: self.x1 as int,
            x2: self.x2 as int,
            y1: self.y1 as int,
            y2: self.y2 as int,
            coeffs: Coeffs {
                a0: self.a0 as int,
                a1: self.a1 as int,
                a2: self.a2 as int,
                b1: self.b1 as int,
                b2: self.b2 as int,
            },
        }
    }
}

impl Filter {
    /// A filter with zeroed history.  The cutoff (Q16.16 Hz) is clamped into
    /// the Nyquist-safe range `[20 Hz, 0.49 * sample_rate]`, the resonance
    /// into `[0.1, 20.0]`, and the sample rate into
    /// `[FILTER_RATE_MIN, SAMPLE_RATE_MAX]` Hz; the coefficients are
    /// computed immediately.
    pub fn new(filter_type: FilterType, cutoff: i64, resonance: i64, sample_rate: u32) -> (r:
        Filter)
        ensures
            r@.inv(),
            r@.filter_type == filter_type,
            r@.sample_rate == clampi(
                sample_rate as int,
                FILTER_RATE_MIN as int,
                SAMPLE_RATE_MAX as int,
            ),
            r@.cutoff == clampi(cutoff as int, CUTOFF_MIN as int, cutoff_max(r@.sample_rate)),
            r@.resonance == clampi(resonance as int, RESONANCE_MIN as int, RESONANCE_MAX as int),
            r@.x1 == 0 && r@.x2 == 0 && r@.y1 == 0 && r@.y2 == 0,
    {
        let sr: u32 = if sample_rate < FILTER_RATE_MIN {
            FILTER_RATE_MIN
        } else if sample_rate > SAMPLE_RATE_MAX {
            SAMPLE_RATE_MAX
        } else {
            sample_rate
        };
        let cmax = cutoff_top(sr);
        let mut f = Filter {
            filter_type,
            cutoff: clamp_i64(cutoff, CUTOFF_MIN, cmax),
            resonance: clamp_i64(resonance, RESONANCE_MIN, RESONANCE_MAX),
            sample_rate: sr,
            x1: 0,
            x2: 0,
            y1: 0,
            y2: 0,
            a0: 0,
            a1: 0,
            a2: 0,
            b1: 0,
            b2: 0,
        };
        f.calculate_coefficients();
        f
    }

    /// Recompute the five coefficients from the current parameters.
    fn calculate_coefficients(&mut self)
        requires
            FILTER_RATE_MIN <= old(self)@.sample_rate <= SAMPLE_RATE_MAX,
            CUTOFF_MIN <= old(self)@.cutoff <= cutoff_max(old(self)@.sample_rate),
            RESONANCE_MIN <= old(self)@.resonance <= RESONANCE_MAX,
        ensures
            final(self)@ == (FilterModel {
                coeffs: filter_coeffs(
                    old(self)@.filter_type,
                    old(self)@.cutoff,
                    old(self)@.resonance,
                    old(self)@.sample_rate,
                ),
                ..old(self)@
            }),
    {
        proof {
            lemma_coeffs_bounds(
                self.filter_type,
                self.cutoff as int,
                self.resonance as int,
                self.sample_rate as int,
            );
        }
        let w: i64 = div_q(2 * self.cutoff, self.sample_rate as i64);
        let sinw: i64 = sin_pi_q(w);
        let cosw: i64 = cos_pi_q(w);
        let alpha: i64 = div_q(sinw * ONE, 2 * self.resonance);
        let a0r: i64 = ONE + alpha;
        let rb0: i64 = match self.filter_type {
            FilterType::LowPass => div_q(ONE - cosw, 2),
            FilterType::HighPass => div_q(ONE + cosw, 2),
            FilterType::BandPass => div_q(sinw, 2),
            FilterType::Notch => ONE,
        };
        let rb1: i64 = match self.filter_type {
            FilterType::LowPass => ONE - cosw,
            FilterType::HighPass => -(ONE + cosw),
            FilterType::BandPass => 0,
            FilterType::Notch => -2 * cosw,
        };
        let rb2: i64 = match self.filter_type {
            FilterType::LowPass => div_q(ONE - cosw, 2),
            FilterType::HighPass => div_q(ONE + cosw, 2),
            FilterType::BandPass => -div_q(sinw, 2),
            FilterType::Notch => ONE,
        };
        let ra1: i64 = -2 * cosw;
        let ra2: i64 = ONE - alpha;
        proof {
            lemma_divq_le((ONE - cosw) as int, 2, 2 * ONE as int);
            lemma_divq_le((ONE + cosw) as int, 2, 2 * ONE as int);
            lemma_divq_le(sinw as int, 2, ONE as int);
        }
        self.a0 = div_q(rb0 * ONE, a0r);
        self.a1 = div_q(rb1 * ONE, a0r);
        self.a2 = div_q(rb2 * ONE, a0r);
        self.b1 = div_q(ra1 * ONE, a0r);
        self.b2 = div_q(ra2 * ONE, a0r);
    }

    /// Set the cutoff (Q16.16 Hz), clamped Nyquist-safe, and recompute the
    /// coefficients immediately.
    pub fn set_cutoff(&mut self, cutoff: i64)
        requires
            old(self)@.inv(),
        ensures
            final(self)@.inv(),
            final(self)@ == filter_with_cutoff(old(self)@, cutoff as int),
    {
        let cmax = cutoff_top(self.sample_rate);
        self.cutoff = clamp_i64(cutoff, CUTOFF_MIN, cmax);
        self.calculate_coefficients();
    }

    /// Set the resonance, clamped to `[0.1, 20.0]`, and recompute the
    /// coefficients immediately.
    pub fn set_resonance(&mut self, resonance: i64)
        requires
            old(self)@.inv(),
        ensures
            final(self)@.inv(),
            final(self)@ == filter_with_resonance(old(self)@, resonance as int),
    {
        self.resonance = clamp_i64(resonance, RESONANCE_MIN, RESONANCE_MAX);
        self.calculate_coefficients();
    }

    /// Switch the response shape and recompute the coefficients immediately.
    pub fn set_filter_type(&mut self, filter_type: FilterType)
        requires
            old(self)@.inv(),
        ensures
            final(self)@.inv(),
            final(self)@ == filter_with_type(old(self)@, filter_type),
    {
        self.filter_type = filter_type;
        self.calculate_coefficients();
    }

    /// One biquad step, exactly [`filter_step`] on the model.
    pub fn process(&mut self, input: i64) -> (out: i64)
        requires
            old(self)@.inv(),
        ensures
            final(self)@.inv(),
            (final(self)@, out as int) == filter_step(old(self)@, input as int),
    {
        proof {
            lemma_coeffs_bounds(
                self.filter_type,
                self.cutoff as int,
                self.resonance as int,
                self.sample_rate as int,
            );
            lemma_mul_bound(self.a0 as int, 0, COEFF_MAX as int, SAMPLE_MAX as int);
        }
        let x = clamp_i64(input, -SAMPLE_MAX, SAMPLE_MAX);
        proof {
            lemma_mul_bound(self.a0 as int, x as int, COEFF_MAX as int, SAMPLE_MAX as int);
            lemma_mul_bound(self.a1 as int, self.x1 as int, COEFF_MAX as int, SAMPLE_MAX as int);
            lemma_mul_bound(self.a2 as int, self.x2 as int, COEFF_MAX as int, SAMPLE_MAX as int);
            lemma_mul_bound(self.b1 as int, self.y1 as int, COEFF_MAX as int, SAMPLE_MAX as int);
            lemma_mul_bound(self.b2 as int, self.y2 as int, COEFF_MAX as int, SAMPLE_MAX as int);
            lemma_divq_le(
                self.a0 * x + self.a1 * self.x1 + self.a2 * self.x2 - self.b1 * self.y1 - self.b2
                    * self.y2,
                ONE as int,
                5 * (COEFF_MAX * SAMPLE_MAX),
            );
        }
        let acc: i64 = self.a0 * x + self.a1 * self.x1 + self.a2 * self.x2 - self.b1 * self.y1
            - self.b2 * self.y2;
        let y = clamp_i64(div_q(acc, ONE), -SAMPLE_MAX, SAMPLE_MAX);
        self.x2 = self.x1;
        self.x1 = x;
        self.y2 = self.y1;
        self.y1 = y;
        y
    }

    /// Zero the two-sample input and output history; parameters and
    /// coefficients are kept.
    pub fn reset(&mut self)
        ensures
            final(self)@ == (FilterModel { x1: 0, x2: 0, y1: 0, y2: 0, ..old(self)@ }),
    {
        self.x1 = 0;
        self.x2 = 0;
        self.y1 = 0;
        self.y2 = 0;
    }

    /// Set a parameter by name: `"cutoff"` (Q16.16 Hz), `"resonance"`, or
    /// `"type"` (code 0-3 selecting LowPass/HighPass/BandPass/Notch).
    /// Unknown names change nothing and return `false`.
    pub fn set_parameter(&mut self, name: &str, value: i64) -> (recognized: bool)
        requires
            old(self)@.inv(),
        ensures
            final(self)@.inv(),
            (final(self)@, recognized) == filter_param(old(self)@, name@, value as int),
    {
        if str_eq(name, "cutoff") {
            self.set_cutoff(value);
            true
        } else if str_eq(name, "resonance") {
            self.set_resonance(value);
            true
        } else if str_eq(name, "type") {
            let code = div_q(clamp_i64(value, 0, 4 * ONE), ONE);
            let t = if code == 1 {
                FilterType::HighPass
            } else if code == 2 {
                FilterType::BandPass
            } else if code == 3 {
                FilterType::Notch
            } else {
                FilterType::LowPass
            };
            self.set_filter_type(t);
            true
        } else {
            false
        }
    }

    /// The effect's name.
    pub fn name(&self) -> (r: &'static str)
        ensures
            r@ == "Filter"@,
    {
        "Filter"
    }
}

/// `0.49 * sample_rate` in Q16.16 Hz, executable, and at least `CUTOFF_MIN`
/// for any accepted sample rate.
fn cutoff_top(sample_rate: u32) -> (r: i64)
    requires
        FILTER_RATE_MIN <= sample_rate <= SAMPLE_RATE_MAX,
    ensures
        r == cutoff_max(sample_rate as int),
        CUTOFF_MIN <= r <= 0x4_0000_0000,
{
    proof {
        lemma_div_pos_is_pos(49 * (sample_rate as int) * ONE, 100);
        lemma_div_is_ordered(
            49 * 41 * ONE as int,
            49 * (sample_rate as int) * ONE,
            100,
        );
        lemma_div_is_ordered(
            49 * (sample_rate as int) * ONE,
            49 * (SAMPLE_RATE_MAX as int) * ONE,
            100,
        );
    }
    ((49 * (sample_rate as u64) * 65536u64) / 100u64) as i64
}

} // verus!
