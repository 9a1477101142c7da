//! Exponential smoothing of a scalar control value.
//!
//! Each `process` call moves the current value a fixed fraction of the way
//! toward the target: `current += factor * (target - current)`, in Q16.16.
//! A factor of 0 freezes the value, a factor of `ONE` jumps to the target in
//! one step, and any factor strictly between shrinks the distance to the
//! target without ever overshooting it.

use crate::fixed::{absi, clamp_i64, clampi, div_q, divq, lemma_divq_le, ONE, SAMPLE_MAX};
use vstd::arithmetic::div_mod::{lemma_basic_div, lemma_div_is_ordered, lemma_div_multiples_vanish};
use vstd::prelude::*;

verus! {

/// Ghost state of a smoother, in Q16.16.
pub struct SmootherModel {
    pub current: int,
    pub target: int,
    pub factor: int,
}

impl SmootherModel {
    /// Well-formedness: values within the engine's dynamic range, and the
    /// smoothing factor within `[0, 1]`.
    pub open spec fn inv(self) -> bool {
        &&& -SAMPLE_MAX <= self.current <= SAMPLE_MAX
        &&& -SAMPLE_MAX <= self.target <= SAMPLE_MAX
        &&& 0 <= self.factor <= ONE
    }
}

/// The current value after one smoothing step.
pub open spec fn smooth_step(m: SmootherModel) -> int {
    m.current + divq(m.factor * (m.target - m.current), ONE as int)
}

/// One smoothing step lands between the old current value and the target
/// (inclusive), so it never overshoots and never leaves the dynamic range.
pub proof fn lemma_smooth_step_between(m: SmootherModel)
    requires
        m.inv(),
    ensures
        m.current <= m.target ==> m.current <= smooth_step(m) <= m.target,
        m.target <= m.current ==> m.target <= smooth_step(m) <= m.current,
{
    let diff = m.target - m.current;
    if diff >= 0 {
        assert(0 <= m.factor * diff <= ONE * diff) by (nonlinear_arith)
            requires
                0 <= m.factor <= ONE,
                diff >= 0,
        ;
        lemma_divq_le(m.factor * diff, ONE as int, ONE * diff);
        lemma_div_is_ordered(m.factor * diff, ONE * diff, ONE as int);
        lemma_div_multiples_vanish(diff, ONE as int);
        assert(ONE * diff == (ONE as int) * diff);
        assert(divq(m.factor * diff, ONE as int) <= diff);
    } else {
        assert(ONE * diff <= m.factor * diff <= 0) by (nonlinear_arith)
            requires
                0 <= m.factor <= ONE,
                diff < 0,
        ;
        assert(-(m.factor * diff) == m.factor * -diff) by (nonlinear_arith);
        assert(-(ONE * diff) == ONE * -diff) by (nonlinear_arith);
        lemma_divq_le(m.factor * diff, ONE as int, -(ONE * diff));
        lemma_div_is_ordered(m.factor * -diff, ONE * -diff, ONE as int);
        lemma_div_multiples_vanish(-diff, ONE as int);
        assert(divq(m.factor * diff, ONE as int) >= diff);
    }
}

/// Smoothing never moves the value away from the target: the distance
/// `|current - target|` never grows.
pub proof fn lemma_smoother_non_expansion(m: SmootherModel)
    requires
        m.inv(),
    ensures
        absi(smooth_step(m) - m.target) <= absi(m.current - m.target),
{
    lemma_smooth_step_between(m);
}

/// While the step is large enough to register in Q16.16 (that is, while
/// `factor * |target - current| >= ONE`), each step strictly shrinks the
/// distance to the target.  Once the product falls below `ONE` the update
/// truncates to zero and the value freezes, so that bound is exact.
pub proof fn lemma_smoother_strict_progress(m: SmootherModel)
    requires
        m.inv(),
        m.factor * absi(m.target - m.current) >= ONE,
    ensures
        absi(smooth_step(m) - m.target) < absi(m.current - m.target),
{
    lemma_smooth_step_between(m);
    let diff = m.target - m.current;
    if diff >= 0 {
        lemma_div_is_ordered(ONE as int, m.factor * diff, ONE as int);
        assert(divq(m.factor * diff, ONE as int) >= 1);
    } else {
        assert(m.factor * -diff >= ONE);
        assert(-(m.factor * diff) == m.factor * -diff) by (nonlinear_arith);
        lemma_div_is_ordered(ONE as int, m.factor * -diff, ONE as int);
        assert((-(m.factor * diff)) / (ONE as int) >= 1);
        assert(divq(m.factor * diff, ONE as int) <= -1);
    }
}

/// A factor of exactly `ONE` reaches the target in a single step.
pub proof fn lemma_smoother_jump(m: SmootherModel)
    requires
        m.inv(),
        m.factor == ONE,
    ensures
        smooth_step(m) == m.target,
{
    let diff = m.target - m.current;
    if diff >= 0 {
        lemma_div_multiples_vanish(diff, ONE as int);
        assert(ONE * diff == (ONE as int) * diff);
    } else {
        lemma_div_multiples_vanish(-diff, ONE as int);
        assert(-(ONE * diff) == (ONE as int) * -diff) by (nonlinear_arith);
    }
}

/// A factor of exactly zero freezes the current value.
pub proof fn lemma_smoother_freeze(m: SmootherModel)
    requires
        m.inv(),
        m.factor == 0,
    ensures
        smooth_step(m) == m.current,
{
    let diff = m.target - m.current;
    assert(0 * diff == 0) by (nonlinear_arith);
}

/// The smoother after one step: the new current value, same target and
/// factor.
pub open spec fn smooth_next(m: SmootherModel) -> SmootherModel {
    SmootherModel { current: smooth_step(m), ..m }
}

/// The smoother after `n` steps.
pub open spec fn smooth_iter(m: SmootherModel, n: nat) -> SmootherModel
    decreases n,
{
    if n == 0 {
        m
    } else {
        smooth_next(smooth_iter(m, (n - 1) as nat))
    }
}

/// Iterating from a stepped state is one more iteration from the start.
proof fn lemma_smooth_iter_shift(m: SmootherModel, n: nat)
    ensures
        smooth_iter(smooth_next(m), n) == smooth_iter(m, n + 1),
    decreases n,
{
    if n == 0 {
        assert(smooth_iter(m, 0) == m);
        assert(smooth_iter(smooth_next(m), 0) == smooth_next(m));
        assert(smooth_iter(m, 1) == smooth_next(smooth_iter(m, 0)));
    } else {
        lemma_smooth_iter_shift(m, (n - 1) as nat);
        assert(smooth_iter(smooth_next(m), n) == smooth_next(smooth_iter(smooth_next(m), (n - 1) as nat)));
        assert(smooth_iter(m, n + 1) == smooth_next(smooth_iter(m, n)));
    }
}

/// Once the step falls below one Q16.16 unit (that is, once
/// `factor * |target - current| < ONE`), the update truncates to zero and
/// the current value is frozen.
pub proof fn lemma_smoother_quantum_freeze(m: SmootherModel)
    requires
        m.inv(),
        m.factor * absi(m.target - m.current) < ONE,
    ensures
        smooth_step(m) == m.current,
{
    let diff = m.target - m.current;
    if diff >= 0 {
        assert(0 <= m.factor * diff < ONE) by (nonlinear_arith)
            requires
                m.factor >= 0,
                diff >= 0,
                m.factor * absi(m.target - m.current) < ONE,
                diff == m.target - m.current,
        ;
        lemma_basic_div(m.factor * diff, ONE as int);
    } else {
        assert(0 <= m.factor * -diff < ONE) by (nonlinear_arith)
            requires
                m.factor >= 0,
                diff < 0,
                m.factor * absi(m.target - m.current) < ONE,
                diff == m.target - m.current,
        ;
        assert(-(m.factor * diff) == m.factor * -diff) by (nonlinear_arith);
        lemma_basic_div(m.factor * -diff, ONE as int);
    }
}

/// Whether `n` smoothing steps from `m` have reached the quantization
/// floor, past which the value no longer moves.
pub open spec fn smoother_frozen_at(m: SmootherModel, n: nat) -> bool {
    let r = smooth_iter(m, n);
    r.factor * absi(r.target - r.current) < ONE
}

/// Repeated smoothing converges: for every well-formed smoother some finite
/// number of steps reaches the quantization floor
/// `factor * |target - current| < ONE`, past which the value is frozen (see
/// [`lemma_smoother_quantum_freeze`]).  This is as close to the target as
/// Q16.16 smoothing can come: with a factor of `ONE` the floor means the
/// target itself, with smaller factors it is reached once the remaining
/// distance no longer registers against the factor.
pub proof fn lemma_smoother_eventually_frozen(m: SmootherModel)
    requires
        m.inv(),
    ensures
        exists|n: nat| smoother_frozen_at(m, n),
    decreases absi(m.target - m.current),
{
    if m.factor * absi(m.target - m.current) < ONE {
        assert(smooth_iter(m, 0) == m);
        assert(smoother_frozen_at(m, 0));
    } else {
        lemma_smoother_strict_progress(m);
        lemma_smooth_step_between(m);
        let m2 = smooth_next(m);
        lemma_smoother_eventually_frozen(m2);
        let n2 = choose|n: nat| smoother_frozen_at(m2, n);
        lemma_smooth_iter_shift(m, n2);
        assert(smoother_frozen_at(m, n2 + 1));
    }
}

/// Exponential smoother for a scalar control value, Q16.16.
pub struct ParameterSmoother {
    current_value: i64,
    target_value: i64,
    smoothing_factor: i64,
}

impl View for ParameterSmoother {
    type V = SmootherModel;

    closed spec fn view(&self) -> SmootherModel {
        SmootherModel {
            current: self.current_value as int,
            target: self.target_value as int,
            factor: self.smoothing_factor as int,
        }
    }
}

impl ParameterSmoother {
    /// A smoother at rest: current and target both at `initial_value`
    /// (clamped to the dynamic range), factor clamped to `[0, ONE]`.
    pub fn new(initial_value: i64, smoothing_factor: i64) -> (r: ParameterSmoother)
        ensures
            r@.inv(),
            r@.current == clampi(initial_value as int, -SAMPLE_MAX as int, SAMPLE_MAX as int),
            r@.target == r@.current,
            r@.factor == clampi(smoothing_factor as int, 0, ONE as int),
    {
        let v = clamp_i64(initial_value, -SAMPLE_MAX, SAMPLE_MAX);
        ParameterSmoother {
            current_value: v,
            target_value: v,
            smoothing_factor: clamp_i64(smoothing_factor, 0, ONE),
        }
    }

    /// Aim at a new target (clamped to the dynamic range); the current value
    /// and the factor are untouched.
    pub fn set_target(&mut self, target: i64)
        ensures
            final(self)@.target == clampi(target as int, -SAMPLE_MAX as int, SAMPLE_MAX as int),
            final(self)@.current == old(self)@.current,
            final(self)@.factor == old(self)@.factor,
    {
        self.target_value = clamp_i64(target, -SAMPLE_MAX, SAMPLE_MAX);
    }

    /// Set the smoothing factor, clamped to `[0, ONE]`.
    pub fn set_smoothing_factor(&mut self, factor: i64)
        ensures
            final(self)@.factor == clampi(factor as int, 0, ONE as int),
            final(self)@.current == old(self)@.current,
            final(self)@.target == old(self)@.target,
    {
        self.smoothing_factor = clamp_i64(factor, 0, ONE);
    }

    /// One smoothing step: move `factor * (target - current)` toward the
    /// target and return the new current value.
    pub fn process(&mut self) -> (r: i64)
        requires
            old(self)@.inv(),
        ensures
            final(self)@.inv(),
            final(self)@.current == smooth_step(old(self)@),
            final(self)@.target == old(self)@.target,
            final(self)@.factor == old(self)@.factor,
            r == final(self)@.current,
    {
        proof {
            lemma_smooth_step_between(self@);
        }
        let diff: i64 = self.target_value - self.current_value;
        let step: i64 = div_q(self.smoothing_factor * diff, ONE);
        self.current_value = self.current_value + step;
        self.current_value
    }

    /// Force both current and target to `value` (clamped).
    pub fn reset(&mut self, value: i64)
        ensures
            final(self)@.inv() <==> 0 <= old(self)@.factor <= ONE,
            final(self)@.current == clampi(value as int, -SAMPLE_MAX as int, SAMPLE_MAX as int),
            final(self)@.target == final(self)@.current,
            final(self)@.factor == old(self)@.factor,
    {
        let v = clamp_i64(value, -SAMPLE_MAX, SAMPLE_MAX);
        self.current_value = v;
        self.target_value = v;
    }

    /// Whether the current value is within `threshold` of the target.
    pub fn is_close_to_target(&self, threshold: i64) -> (r: bool)
        requires
            self@.inv(),
        ensures
            r == (absi(self@.current - self@.target) < threshold),
    {
        let d: i64 = if self.current_value >= self.target_value {
            self.current_value - self.target_value
        } else {
            self.target_value - self.current_value
        };
        d < threshold
    }
}

} // verus!
