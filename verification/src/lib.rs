//! A stateful, per-sample digital signal processor that emulates the
//! behaviour of analog magnetic tape: hysteresis, magnetic saturation, bias,
//! stochastic domain quantization, wow/flutter speed instability,
//! self-erasure, and recording/playback noise.
//!
//! Every signal value is a Q47.16 fixed-point number held in an `i64`
//! (`fixed::FP_ONE` stands for 1.0), so the whole pipeline is exact integer
//! arithmetic with clamping, and each stage carries a contract that pins its
//! result down. The host shell converts floating-point samples at the
//! boundary.

pub mod compute;
pub mod delay;
pub mod engine;
pub mod filters;
pub mod modulation;
pub mod fixed;
pub mod rng;

pub use fixed::FP_LIMIT;
pub use fixed::FP_ONE;
