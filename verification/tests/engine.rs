//! End-to-end tests of the fixed-point effects engine, with exact expected
//! values computed from the Q16.16 arithmetic the contracts state.

use sampler_fx::delay::Delay;
use sampler_fx::distortion::{Distortion, DistortionType};
use sampler_fx::effects::{Effect, EffectsChain};
use sampler_fx::envelope::Envelope;
use sampler_fx::filter::{Filter, FilterType};
use sampler_fx::smoother::ParameterSmoother;

const ONE: i64 = 65536;
const HALF: i64 = 32768;

#[test]
fn filter_zero_input_all_types() {
    let types = [
        FilterType::LowPass,
        FilterType::HighPass,
        FilterType::BandPass,
        FilterType::Notch,
    ];
    for t in types {
        let mut f = Filter::new(t, 1000 * ONE, ONE, 44100);
        // Disturb the history, then reset: every output on silence is zero.
        f.process(12345);
        f.process(-54321);
        f.reset();
        for _ in 0..50 {
            assert_eq!(f.process(0), 0);
        }
    }
}

#[test]
fn filter_lowpass_impulse_exact() {
    let mut f = Filter::new(FilterType::LowPass, 1000 * ONE, ONE, 44100);
    assert_eq!(f.process(ONE), 248);
    assert_eq!(f.process(0), 948);
    assert_eq!(f.process(0), 1770);
}

#[test]
fn filter_set_parameter_names() {
    let mut f = Filter::new(FilterType::LowPass, 1000 * ONE, ONE, 44100);
    assert!(f.set_parameter("cutoff", 2000 * ONE));
    assert!(f.set_parameter("resonance", 2 * ONE));
    assert!(f.set_parameter("type", 3 * ONE));
    assert!(!f.set_parameter("wetness", ONE));
    assert!(!f.set_parameter("", ONE));
}

#[test]
fn filter_type_code_switches_response() {
    // Code 1 selects HighPass: both filters must then produce identical
    // outputs on the same input sequence.
    let mut by_code = Filter::new(FilterType::LowPass, 1000 * ONE, ONE, 44100);
    assert!(by_code.set_parameter("type", ONE));
    let mut direct = Filter::new(FilterType::HighPass, 1000 * ONE, ONE, 44100);
    for i in 0..20i64 {
        let x = (i - 10) * 1000;
        assert_eq!(by_code.process(x), direct.process(x));
    }
}

#[test]
fn delay_echo_impulse() {
    // 0.1 s at 100 Hz spans 10 samples; feedback 0.5, fully wet.
    let mut d = Delay::new(6554, HALF, ONE, 100);
    let mut outs = Vec::new();
    for tick in 0..31 {
        let input = if tick == 0 { ONE } else { 0 };
        outs.push(d.process(input));
    }
    assert_eq!(outs[10], ONE);
    assert_eq!(outs[20], HALF);
    assert_eq!(outs[30], 16384);
}

#[test]
fn delay_growth_preserves_content() {
    // Write an impulse, grow the delay window past the buffer, and check the
    // retained impulse still comes out, at the new delay distance.
    let mut d = Delay::new(6554, 0, ONE, 100);
    assert_eq!(d.process(ONE), 0);
    for _ in 0..3 {
        assert_eq!(d.process(0), 0);
    }
    // The impulse sits 4 ticks back; grow from 10 to 20 samples of delay.
    d.set_delay_time(13108);
    for j in 0..16 {
        let out = d.process(0);
        if j == 6 {
            assert_eq!(out, ONE);
        } else {
            assert_eq!(out, 0);
        }
    }
}

#[test]
fn delay_reset_silences() {
    let mut d = Delay::new(6554, HALF, ONE, 100);
    d.process(ONE);
    d.process(ONE);
    d.reset();
    for _ in 0..40 {
        assert_eq!(d.process(0), 0);
    }
}

#[test]
fn delay_set_parameter_names() {
    let mut d = Delay::new(6554, HALF, ONE, 100);
    assert!(d.set_parameter("time", 13108));
    assert!(d.set_parameter("feedback", HALF));
    assert!(d.set_parameter("mix", ONE));
    assert!(!d.set_parameter("cutoff", ONE));
}

#[test]
fn delay_zero_mix_is_dry() {
    let mut d = Delay::new(6554, HALF, 0, 100);
    assert_eq!(d.process(1234), 1234);
    assert_eq!(d.process(-777), -777);
}

#[test]
fn distortion_hard_clip() {
    let mut d = Distortion::new(DistortionType::Hard, ONE, ONE, ONE);
    assert_eq!(d.process(HALF), HALF);
    assert_eq!(d.process(2 * ONE), ONE);
    assert_eq!(d.process(-2 * ONE), -ONE);
}

#[test]
fn distortion_foldback_bounded() {
    let mut d = Distortion::new(DistortionType::Foldback, 100 * ONE, ONE, ONE);
    // A large driven value folds many times and still lands inside one unit.
    let out = d.process(12345678);
    assert!(-ONE <= out && out <= ONE);
    // Exact small case with drive 3: 3.0 reflects once to -1.0.
    let mut d3 = Distortion::new(DistortionType::Foldback, 3 * ONE, ONE, ONE);
    assert_eq!(d3.process(ONE), -ONE);
}

#[test]
fn distortion_soft_values() {
    let mut d = Distortion::new(DistortionType::Soft, ONE, ONE, ONE);
    // Small signals pass almost linearly through the tanh approximation.
    assert_eq!(d.process(655), 654);
    // Past the knee the approximation saturates exactly to +/- one.
    assert_eq!(d.process(4 * ONE), ONE);
    assert_eq!(d.process(-4 * ONE), -ONE);
}

#[test]
fn distortion_sine_half_is_one() {
    let mut d = Distortion::new(DistortionType::Sine, ONE, ONE, ONE);
    assert_eq!(d.process(HALF), ONE);
}

#[test]
fn distortion_bitcrush_two_bits() {
    let mut d = Distortion::new(DistortionType::Bitcrush, ONE, ONE, ONE);
    assert!(d.set_parameter("bit_depth", 2 * ONE));
    // 0.3 quantized to half-unit levels rounds to 0.5.
    assert_eq!(d.process(19661), HALF);
}

#[test]
fn distortion_set_parameter_names() {
    let mut d = Distortion::new(DistortionType::Soft, ONE, ONE, ONE);
    assert!(d.set_parameter("drive", 2 * ONE));
    assert!(d.set_parameter("mix", HALF));
    assert!(d.set_parameter("output_gain", HALF));
    assert!(d.set_parameter("type", 2 * ONE));
    assert!(d.set_parameter("bit_depth", 8 * ONE));
    assert!(!d.set_parameter("tone", ONE));
}

#[test]
fn distortion_type_code_selects_hard() {
    let mut by_code = Distortion::new(DistortionType::Soft, ONE, ONE, ONE);
    assert!(by_code.set_parameter("type", ONE));
    assert_eq!(by_code.process(2 * ONE), ONE);
}

#[test]
fn distortion_output_gain_scales() {
    let mut d = Distortion::new(DistortionType::Hard, ONE, ONE, HALF);
    assert_eq!(d.process(HALF), 16384);
}

#[test]
fn envelope_stage_sequence() {
    // One-sample attack, decay and release at 100 Hz; sustain at 0.5.
    let mut e = Envelope::new(100);
    e.set_parameters(656, 656, 0, HALF, 656);
    e.trigger();
    assert!(e.is_active());
    assert_eq!(e.process(), ONE);
    assert!(e.is_active());
    assert_eq!(e.process(), HALF);
    assert_eq!(e.process(), HALF);
    assert_eq!(e.process(), HALF);
    assert!(e.is_active());
    e.release();
    assert_eq!(e.process(), 0);
    assert!(!e.is_active());
}

#[test]
fn envelope_decay_curve_exact() {
    // Two-sample decay: one sample in, the level follows the exponential.
    let mut e = Envelope::new(100);
    e.set_parameters(656, 1311, 0, HALF, 656);
    e.trigger();
    assert_eq!(e.process(), ONE);
    assert_eq!(e.process(), 35452);
    assert_eq!(e.process(), HALF);
}

#[test]
fn envelope_legato_retrigger() {
    // A one-second attack at 100 Hz ramps 1/100 of the remaining way per
    // tick; retriggering mid-ramp continues from the level reached.
    let mut e = Envelope::new(100);
    e.set_parameters(ONE, 656, 0, HALF, 656);
    e.trigger();
    assert_eq!(e.process(), 655);
    assert_eq!(e.process(), 1310);
    assert_eq!(e.process(), 1966);
    e.trigger();
    assert_eq!(e.process(), 2601);
}

#[test]
fn envelope_release_noop_when_idle() {
    let mut e = Envelope::new(100);
    assert!(!e.is_active());
    e.release();
    assert!(!e.is_active());
    assert_eq!(e.process(), 0);
}

#[test]
fn smoother_converges() {
    let mut s = ParameterSmoother::new(0, HALF);
    s.set_target(ONE);
    let mut prev_dist = ONE;
    for _ in 0..10 {
        let v = s.process();
        let dist = (ONE - v).abs();
        assert!(dist < prev_dist);
        prev_dist = dist;
    }
    assert!(s.is_close_to_target(100));
    assert!(!s.is_close_to_target(1));
}

#[test]
fn smoother_first_steps_exact() {
    let mut s = ParameterSmoother::new(0, HALF);
    s.set_target(ONE);
    assert_eq!(s.process(), HALF);
    assert_eq!(s.process(), HALF + 16384);
}

#[test]
fn smoother_jump_with_factor_one() {
    let mut s = ParameterSmoother::new(123, ONE);
    s.set_target(-4567);
    assert_eq!(s.process(), -4567);
}

#[test]
fn smoother_freeze_with_factor_zero() {
    let mut s = ParameterSmoother::new(123, 0);
    s.set_target(ONE);
    for _ in 0..5 {
        assert_eq!(s.process(), 123);
    }
    assert!(!s.is_close_to_target(100));
}

#[test]
fn smoother_reset_pins_both() {
    let mut s = ParameterSmoother::new(0, HALF);
    s.set_target(ONE);
    s.process();
    s.reset(777);
    assert!(s.is_close_to_target(1));
    assert_eq!(s.process(), 777);
}

#[test]
fn chain_composition_matches_individual() {
    // A delay followed by a hard clipper, fed a pulse train: the chain's
    // output must equal running the two effects by hand in order.
    let mut chain = EffectsChain::new();
    chain.add_effect(Effect::Delay(Delay::new(6554, HALF, ONE, 100)));
    chain.add_effect(Effect::Distortion(Distortion::new(
        DistortionType::Hard,
        2 * ONE,
        ONE,
        ONE,
    )));
    let mut d = Delay::new(6554, HALF, ONE, 100);
    let mut c = Distortion::new(DistortionType::Hard, 2 * ONE, ONE, ONE);
    for tick in 0..40i64 {
        let input = if tick % 7 == 0 { ONE } else { -HALF };
        let expected = c.process(d.process(input));
        assert_eq!(chain.process(input), expected);
    }
}

#[test]
fn chain_empty_passes_through() {
    let mut chain = EffectsChain::new();
    assert_eq!(chain.process(4242), 4242);
    assert_eq!(chain.count(), 0);
}

#[test]
fn chain_remove_invalid_index() {
    let mut chain = EffectsChain::new();
    chain.add_effect(Effect::Distortion(Distortion::new(
        DistortionType::Hard,
        ONE,
        ONE,
        ONE,
    )));
    let before = chain.process(HALF);
    assert!(!chain.remove_effect(1));
    assert!(!chain.remove_effect(usize::MAX));
    assert_eq!(chain.count(), 1);
    assert_eq!(chain.process(HALF), before);
}

#[test]
fn chain_count_tracks_adds_and_removes() {
    let mut chain = EffectsChain::new();
    assert_eq!(chain.count(), 0);
    chain.add_effect(Effect::Filter(Filter::new(
        FilterType::LowPass,
        1000 * ONE,
        ONE,
        44100,
    )));
    chain.add_effect(Effect::Delay(Delay::new(6554, 0, ONE, 100)));
    chain.add_effect(Effect::Distortion(Distortion::new(
        DistortionType::Soft,
        ONE,
        ONE,
        ONE,
    )));
    assert_eq!(chain.count(), 3);
    assert!(chain.remove_effect(1));
    assert_eq!(chain.count(), 2);
    assert!(chain.remove_effect(0));
    assert!(chain.remove_effect(0));
    assert_eq!(chain.count(), 0);
}

#[test]
fn chain_set_effect_parameter() {
    let mut chain = EffectsChain::new();
    chain.add_effect(Effect::Distortion(Distortion::new(
        DistortionType::Hard,
        ONE,
        ONE,
        ONE,
    )));
    assert!(chain.set_effect_parameter(0, "output_gain", HALF));
    assert_eq!(chain.process(HALF), 16384);
    assert!(!chain.set_effect_parameter(0, "bogus", ONE));
    assert!(!chain.set_effect_parameter(5, "output_gain", ONE));
}

#[test]
fn chain_reset_all_silences_members() {
    let mut chain = EffectsChain::new();
    chain.add_effect(Effect::Delay(Delay::new(6554, HALF, ONE, 100)));
    chain.add_effect(Effect::Filter(Filter::new(
        FilterType::LowPass,
        1000 * ONE,
        ONE,
        44100,
    )));
    chain.process(ONE);
    chain.process(ONE);
    chain.reset_all();
    for _ in 0..40 {
        assert_eq!(chain.process(0), 0);
    }
}

#[test]
fn effect_names() {
    let f = Effect::Filter(Filter::new(FilterType::Notch, 1000 * ONE, ONE, 44100));
    let d = Effect::Delay(Delay::new(6554, 0, ONE, 100));
    let w = Effect::Distortion(Distortion::new(DistortionType::Soft, ONE, ONE, ONE));
    assert_eq!(f.name(), "Filter");
    assert_eq!(d.name(), "Delay");
    assert_eq!(w.name(), "Distortion");
}

#[test]
fn parameters_are_clamped() {
    // Out-of-range settings are silently clamped, never rejected: feedback
    // above the cap stays stable, and a huge mix behaves as fully wet.
    let mut d = Delay::new(6554, 10 * ONE, 10 * ONE, 100);
    let mut reference = Delay::new(6554, 64880, ONE, 100);
    for tick in 0..25i64 {
        let input = if tick == 0 { ONE } else { 0 };
        assert_eq!(d.process(input), reference.process(input));
    }
}

#[test]
fn distortion_bitcrush_one_bit() {
    // At one bit the quantization levels are whole units: 0.5 rounds up to
    // 1.0 (ties away from zero), small values collapse to 0.
    let mut d = Distortion::new(DistortionType::Bitcrush, ONE, ONE, ONE);
    assert!(d.set_parameter("bit_depth", ONE));
    assert_eq!(d.process(HALF), ONE);
    assert_eq!(d.process(100), 0);
    assert_eq!(d.process(-HALF), -ONE);
}

#[test]
fn delay_time_is_clamped_to_ten_seconds() {
    // An absurd delay time clamps to 10 s; at 100 Hz that is 1000 samples.
    let mut d = Delay::new(i64::MAX, 0, ONE, 100);
    assert_eq!(d.process(ONE), 0);
    for tick in 1..1001 {
        let out = d.process(0);
        if tick == 1000 {
            assert_eq!(out, ONE);
        } else {
            assert_eq!(out, 0);
        }
    }
}

#[test]
fn smoother_reaches_quantization_floor() {
    // With factor 0.5, the value stops moving once the remaining distance
    // times the factor is below one unit; it never overshoots on the way.
    let mut s = ParameterSmoother::new(0, HALF);
    s.set_target(1000);
    let mut prev: i64 = 0;
    for _ in 0..64 {
        let v = s.process();
        assert!(prev <= v && v <= 1000);
        prev = v;
    }
    // Frozen exactly where 0.5 * (target - current) < 1, i.e. at 999.
    assert_eq!(s.process(), 999);
    assert_eq!(s.process(), 999);
}
