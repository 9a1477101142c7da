//! A real-time, single-sample audio effects engine in Q16.16 fixed point.
//!
//! The engine transforms one input sample into one output sample per call,
//! driven by a host render loop that invokes it once per audio frame.  It
//! offers three signal processors (a biquad filter, a feedback delay line and
//! a waveshaping distortion), an ordered chain that composes them, an ADSR
//! envelope with a hold stage, and an exponential parameter smoother.
//!
//! All signal values, control values and times are Q16.16 fixed-point numbers
//! held in `i64`: the value `1.0` is [`fixed::ONE`] (65536).  Every operation
//! is total: out-of-range parameters are silently clamped to their documented
//! ranges, unknown parameter names make setters return `false`, and samples
//! are saturated to the engine's dynamic range, so no call ever panics.

pub mod curves;
pub mod delay;
pub mod distortion;
pub mod effects;
pub mod envelope;
pub mod filter;
pub mod fixed;
pub mod smoother;
pub mod strutil;
