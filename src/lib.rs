//! A real-time software oscillator modelled over exact integers.
//!
//! The sample rate is counted in hertz and the frequency in centihertz, so the
//! phase of the oscillator is an exact rational number of samples. Each tick
//! yields a [`Sample`]: an exact description of the output value (the partials
//! to sum, a square level, or a noise draw) that a caller turns into audio.

pub mod control;
pub mod oscillator;
pub mod wave;

pub use control::{pack, unpack, Params, SharedParams};
pub use oscillator::{noise_value, OscState, Synth};
pub use wave::{Sample, WaveType};
