//! ADSR amplitude envelope with a hold stage.
//!
//! The envelope is a six-state machine advanced one sample per `process`
//! call: Idle, a linear Attack from the level at trigger time up to one, an
//! exponential Decay from one down to the sustain level, a timed Hold, an
//! indefinite Sustain, and an exponential Release from the level at release
//! time down to zero.  Stage lengths are held as sample counts, converted
//! from Q16.16 seconds when parameters are set.  `trigger` deliberately
//! keeps the current level (legato), so retriggering never produces a
//! discontinuity.

use crate::curves::{exp5, exp5_q};
use crate::fixed::{clamp_i64, clampi, ONE, SAMPLE_RATE_MAX};
use vstd::arithmetic::div_mod::{
    lemma_div_is_ordered, lemma_div_multiples_vanish, lemma_div_pos_is_pos,
};
use vstd::prelude::*;

verus! {

/// Shortest attack, decay or release: about one millisecond, in Q16.16
/// seconds.  A positive floor keeps the stage formulas well defined.
pub const MIN_STAGE_TIME: i64 = 66;

/// Longest stage: ten minutes, in Q16.16 seconds.
pub const MAX_STAGE_TIME: i64 = 600 * 65536;

/// Most samples a stage can span: `MAX_STAGE_TIME * SAMPLE_RATE_MAX / ONE`.
pub const STAGE_SAMPLES_MAX: i64 = 600 * 384000;

/// The envelope's stage.
#[derive(Clone, Copy, Debug, PartialEq, Eq, Structural)]
pub enum EnvelopeStage {
    Idle,
    Attack,
    Decay,
    Hold,
    Sustain,
    Release,
}

/// Ghost state of an envelope.
pub struct EnvelopeModel {
    pub stage: EnvelopeStage,
    pub attack_samples: int,
    pub decay_samples: int,
    pub hold_samples: int,
    pub sustain_level: int,
    pub release_samples: int,
    pub current_level: int,
    pub stage_samples: int,
    pub stage_start_level: int,
    pub sample_rate: int,
}

impl EnvelopeModel {
    /// Well-formedness: levels inside `[0, ONE]`, stage spans inside their
    /// converted ranges, the elapsed-sample counter inside its saturating
    /// range.
    pub open spec fn inv(self) -> bool {
        &&& 0 <= self.current_level <= ONE
        &&& 0 <= self.stage_start_level <= ONE
        &&& 0 <= self.sustain_level <= ONE
        &&& 0 <= self.attack_samples <= STAGE_SAMPLES_MAX
        &&& 0 <= self.decay_samples <= STAGE_SAMPLES_MAX
        &&& 0 <= self.hold_samples <= STAGE_SAMPLES_MAX
        &&& 0 <= self.release_samples <= STAGE_SAMPLES_MAX
        &&& 0 <= self.stage_samples <= u64::MAX
        &&& 1 <= self.sample_rate <= SAMPLE_RATE_MAX
    }
}

/// How many samples a stage time (Q16.16 seconds, clamped to
/// `[lo, MAX_STAGE_TIME]`) spans at a sample rate.
pub open spec fn env_span(t: int, lo: int, sample_rate: int) -> int {
    clampi(t, lo, MAX_STAGE_TIME as int) * sample_rate / (ONE as int)
}

/// One envelope tick: advance the elapsed-sample counter (saturating) and
/// evaluate the current stage.  Attack ramps linearly from the level at
/// trigger time to one; Decay falls exponentially from one toward the
/// sustain level with time constant a fifth of the stage; Hold pins the
/// level until its span elapses; Sustain pins it indefinitely; Release falls
/// exponentially from the level at release time toward zero.  Each timed
/// stage snaps to its end value when its span elapses.
pub open spec fn env_step(m: EnvelopeModel) -> (EnvelopeModel, int) {
    let t = if m.stage_samples < u64::MAX {
        m.stage_samples + 1
    } else {
        m.stage_samples
    };
    match m.stage {
        EnvelopeStage::Idle => (EnvelopeModel { current_level: 0, stage_samples: t, ..m }, 0int),
        EnvelopeStage::Attack => {
            if t >= m.attack_samples {
                (
                    EnvelopeModel {
                        current_level: ONE as int,
                        stage: EnvelopeStage::Decay,
                        stage_samples: 0,
                        ..m
                    },
                    ONE as int,
                )
            } else {
                let lvl = m.stage_start_level + (ONE - m.stage_start_level) * t
                    / m.attack_samples;
                (EnvelopeModel { current_level: lvl, stage_samples: t, ..m }, lvl)
            }
        },
        EnvelopeStage::Decay => {
            if t >= m.decay_samples {
                (
                    EnvelopeModel {
                        current_level: m.sustain_level,
                        stage: EnvelopeStage::Hold,
                        stage_samples: 0,
                        ..m
                    },
                    m.sustain_level,
                )
            } else {
                let lvl = m.sustain_level + (ONE - m.sustain_level) * exp5(t, m.decay_samples)
                    / (ONE as int);
                (EnvelopeModel { current_level: lvl, stage_samples: t, ..m }, lvl)
            }
        },
        EnvelopeStage::Hold => {
            if t >= m.hold_samples {
                (
                    EnvelopeModel { stage: EnvelopeStage::Sustain, stage_samples: t, ..m },
                    m.current_level,
                )
            } else {
                (EnvelopeModel { stage_samples: t, ..m }, m.current_level)
            }
        },
        EnvelopeStage::Sustain => (
            EnvelopeModel { current_level: m.sustain_level, stage_samples: t, ..m },
            m.sustain_level,
        ),
        EnvelopeStage::Release => {
            if t >= m.release_samples {
                (
                    EnvelopeModel {
                        current_level: 0,
                        stage: EnvelopeStage::Idle,
                        stage_samples: t,
                        ..m
                    },
                    0int,
                )
            } else {
                let lvl = m.stage_start_level * exp5(t, m.release_samples) / (ONE as int);
                (EnvelopeModel { current_level: lvl, stage_samples: t, ..m }, lvl)
            }
        },
    }
}

/// What `release` does: from any stage but Idle, move to Release and restart
/// the stage clock, keeping the current level as the release's starting
/// point; from Idle it is a no-op.
pub open spec fn env_release(m: EnvelopeModel) -> EnvelopeModel {
    if m.stage != EnvelopeStage::Idle {
        EnvelopeModel {
            stage: EnvelopeStage::Release,
            stage_samples: 0,
            stage_start_level: m.current_level,
            ..m
        }
    } else {
        m
    }
}

/// ADSR envelope with hold, Q16.16.
pub struct Envelope {
    stage: EnvelopeStage,
    attack_samples: u64,
    decay_samples: u64,
    hold_samples: u64,
    sustain_level: i64,
    release_samples: u64,
    current_level: i64,
    stage_samples: u64,
    stage_start_level: i64,
    sample_rate: u32,
}

impl View for Envelope {
    type V = EnvelopeModel;

    closed spec fn view(&self) -> EnvelopeModel {
        EnvelopeModel {
            stage: self.stage,
            attack_samples: self.attack_samples as int,
            decay_samples: self.decay_samples as int,
            hold_samples: self.hold_samples as int,
            sustain_level: self.sustain_level as int,
            release_samples: self.release_samples as int,
            current_level: self.current_level as int,
            stage_samples: self.stage_samples as int,
            stage_start_level: self.stage_start_level as int,
            sample_rate: self.sample_rate as int,
        }
    }
}

/// Convert a stage time (Q16.16 seconds) to samples, executable.
fn span_q(t: i64, lo: i64, sample_rate: u32) -> (r: u64)
    requires
        0 <= lo <= MIN_STAGE_TIME,
        1 <= sample_rate <= SAMPLE_RATE_MAX,
    ensures
        r == env_span(t as int, lo as int, sample_rate as int),
        r <= STAGE_SAMPLES_MAX,
{
    let c = clamp_i64(t, lo, MAX_STAGE_TIME);
    proof {
        lemma_div_pos_is_pos(c * sample_rate, ONE as int);
        crate::fixed::lemma_mul_bound(
            c as int,
            sample_rate as int,
            MAX_STAGE_TIME as int,
            SAMPLE_RATE_MAX as int,
        );
        lemma_div_is_ordered(
            c * sample_rate,
            MAX_STAGE_TIME * SAMPLE_RATE_MAX,
            ONE as int,
        );
    }
    ((c as u64) * (sample_rate as u64)) / 65536u64
}

impl Envelope {
    /// An idle envelope at the given sample rate (clamped to
    /// `[1, SAMPLE_RATE_MAX]` Hz) with the default parameters: 10 ms attack,
    /// 100 ms decay, no hold, 0.7 sustain, 300 ms release.
    pub fn new(sample_rate: u32) -> (r: Envelope)
        ensures
            r@.inv(),
            r@.stage == EnvelopeStage::Idle,
            r@.sample_rate == clampi(sample_rate as int, 1, SAMPLE_RATE_MAX as int),
            r@.attack_samples == env_span(655, MIN_STAGE_TIME as int, r@.sample_rate),
            r@.decay_samples == env_span(6554, MIN_STAGE_TIME as int, r@.sample_rate),
            r@.hold_samples == env_span(0, 0, r@.sample_rate),
            r@.sustain_level == 45875,
            r@.release_samples == env_span(19661, MIN_STAGE_TIME as int, r@.sample_rate),
            r@.current_level == 0,
            r@.stage_samples == 0,
            r@.stage_start_level == 0,
    {
        let sr: u32 = if sample_rate < 1 {
            1
        } else if sample_rate > SAMPLE_RATE_MAX {
            SAMPLE_RATE_MAX
        } else {
            sample_rate
        };
        Envelope {
            stage: EnvelopeStage::Idle,
            attack_samples: span_q(655, MIN_STAGE_TIME, sr),
            decay_samples: span_q(6554, MIN_STAGE_TIME, sr),
            hold_samples: span_q(0, 0, sr),
            sustain_level: 45875,
            release_samples: span_q(19661, MIN_STAGE_TIME, sr),
            current_level: 0,
            stage_samples: 0,
            stage_start_level: 0,
            sample_rate: sr,
        }
    }

    /// Set the five parameters, all Q16.16: attack, decay and release times
    /// in seconds (floored at about 1 ms), hold time in seconds (floored at
    /// zero), sustain level clamped to `[0, 1]`.  The running stage and
    /// level are untouched.
    pub fn set_parameters(&mut self, attack: i64, decay: i64, hold: i64, sustain: i64, release: i64)
        requires
            old(self)@.inv(),
        ensures
            final(self)@.inv(),
            final(self)@ == (EnvelopeModel {
                attack_samples: env_span(
                    attack as int,
                    MIN_STAGE_TIME as int,
                    old(self)@.sample_rate,
                ),
                decay_samples: env_span(
                    decay as int,
                    MIN_STAGE_TIME as int,
                    old(self)@.sample_rate,
                ),
                hold_samples: env_span(hold as int, 0, old(self)@.sample_rate),
                sustain_level: clampi(sustain as int, 0, ONE as int),
                release_samples: env_span(
                    release as int,
                    MIN_STAGE_TIME as int,
                    old(self)@.sample_rate,
                ),
                ..old(self)@
            }),
    {
        self.attack_samples = span_q(attack, MIN_STAGE_TIME, self.sample_rate);
        self.decay_samples = span_q(decay, MIN_STAGE_TIME, self.sample_rate);
        self.hold_samples = span_q(hold, 0, self.sample_rate);
        self.sustain_level = clamp_i64(sustain, 0, ONE);
        self.release_samples = span_q(release, MIN_STAGE_TIME, self.sample_rate);
    }

    /// Begin the Attack stage from any state, restarting the stage clock but
    /// deliberately keeping the current level, so legato retriggers ramp
    /// from wherever the level stands instead of jumping to zero.
    pub fn trigger(&mut self)
        ensures
            final(self)@ == (EnvelopeModel {
                stage: EnvelopeStage::Attack,
                stage_samples: 0,
                stage_start_level: old(self)@.current_level,
                ..old(self)@
            }),
    {
        self.stage = EnvelopeStage::Attack;
        self.stage_samples = 0;
        self.stage_start_level = self.current_level;
    }

    /// Begin the Release stage unless the envelope is Idle, in which case
    /// nothing changes.
    pub fn release(&mut self)
        ensures
            final(self)@ == env_release(old(self)@),
    {
        if !matches!(self.stage, EnvelopeStage::Idle) {
            self.stage = EnvelopeStage::Release;
            self.stage_samples = 0;
            self.stage_start_level = self.current_level;
        }
    }

    /// One envelope tick, exactly [`env_step`] on the model; returns the new
    /// level, always inside `[0, ONE]`.
    pub fn process(&mut self) -> (out: i64)
        requires
            old(self)@.inv(),
        ensures
            final(self)@.inv(),
            (final(self)@, out as int) == env_step(old(self)@),
            0 <= out <= ONE,
    {
        let t: u64 = if self.stage_samples < u64::MAX {
            self.stage_samples + 1
        } else {
            self.stage_samples
        };
        match self.stage {
            EnvelopeStage::Idle => {
                self.current_level = 0;
                self.stage_samples = t;
                0
            },
            EnvelopeStage::Attack => {
                if t >= self.attack_samples {
                    self.current_level = ONE;
                    self.stage = EnvelopeStage::Decay;
                    self.stage_samples = 0;
                    ONE
                } else {
                    proof {
                        lemma_level_fraction(
                            (ONE - self.stage_start_level) as int,
                            t as int,
                            self.attack_samples as int,
                        );
                    }
                    let rise: u64 = (ONE - self.stage_start_level) as u64 * t
                        / self.attack_samples;
                    let lvl: i64 = self.stage_start_level + (rise as i64);
                    self.current_level = lvl;
                    self.stage_samples = t;
                    lvl
                }
            },
            EnvelopeStage::Decay => {
                if t >= self.decay_samples {
                    self.current_level = self.sustain_level;
                    self.stage = EnvelopeStage::Hold;
                    self.stage_samples = 0;
                    self.sustain_level
                } else {
                    let e = exp5_q(t, self.decay_samples);
                    proof {
                        lemma_level_fraction(
                            (ONE - self.sustain_level) as int,
                            e as int,
                            ONE as int,
                        );
                    }
                    let fall: u64 = (ONE - self.sustain_level) as u64 * (e as u64) / 65536u64;
                    let lvl: i64 = self.sustain_level + (fall as i64);
                    self.current_level = lvl;
                    self.stage_samples = t;
                    lvl
                }
            },
            EnvelopeStage::Hold => {
                if t >= self.hold_samples {
                    self.stage = EnvelopeStage::Sustain;
                }
                self.stage_samples = t;
                self.current_level
            },
            EnvelopeStage::Sustain => {
                self.current_level = self.sustain_level;
                self.stage_samples = t;
                self.sustain_level
            },
            EnvelopeStage::Release => {
                if t >= self.release_samples {
                    self.current_level = 0;
                    self.stage = EnvelopeStage::Idle;
                    self.stage_samples = t;
                    0
                } else {
                    let e = exp5_q(t, self.release_samples);
                    proof {
                        lemma_level_fraction(
                            self.stage_start_level as int,
                            e as int,
                            ONE as int,
                        );
                    }
                    let lvl64: u64 = (self.stage_start_level as u64) * (e as u64) / 65536u64;
                    let lvl: i64 = lvl64 as i64;
                    self.current_level = lvl;
                    self.stage_samples = t;
                    lvl
                }
            },
        }
    }

    /// Whether the envelope is in any stage but Idle.
    pub fn is_active(&self) -> (r: bool)
        ensures
            r == (self@.stage != EnvelopeStage::Idle),
    {
        !matches!(self.stage, EnvelopeStage::Idle)
    }
}

/// A fraction `a * t / den` with `a` in `[0, ONE]` and `0 <= t <= den` stays
/// inside `[0, a]`: the partial rise or fall of a stage never leaves the
/// unit range.
proof fn lemma_level_fraction(a: int, t: int, den: int)
    requires
        0 <= a <= ONE,
        0 < den,
        0 <= t <= den,
    ensures
        0 <= a * t / den <= a,
        a * t <= ONE * den,
{
    assert(0 <= a * t <= a * den) by (nonlinear_arith)
        requires
            0 <= a,
            0 <= t <= den,
    ;
    assert(a * den <= ONE * den) by (nonlinear_arith)
        requires
            a <= ONE,
            0 < den,
    ;
    lemma_div_pos_is_pos(a * t, den);
    lemma_div_is_ordered(a * t, a * den, den);
    lemma_div_multiples_vanish(a, den);
    assert(den * a == a * den) by (nonlinear_arith);
}

} // verus!
