//! A sonification core for algorithm visualisers: a command protocol between
//! producer threads and a single audio thread, shared oscillator state with
//! per-voice persisted phase, a phase-continuous fixed-point waveform
//! generator, and a cooperative session lifecycle.
//!
//! All quantities are integers: frequencies are millihertz, a full waveform
//! cycle is `PHASE_SCALE` phase units, and samples are micro-units of
//! amplitude (`UNIT` is full scale 1.0). The hosting binary converts samples
//! to the audio device's own format at the edge.

pub mod generator;
pub mod lifecycle;
pub mod notes;
pub mod oscillator;
pub mod score;
pub mod signal;
pub mod tone;

use vstd::prelude::*;

verus! {

/// Number of phase units in one full waveform cycle (2 pi radians).
pub const PHASE_SCALE: u64 = 0x1_0000_0000;

/// Amplitude scale: a sample value of `UNIT` stands for full scale 1.0.
pub const UNIT: i64 = 1_000_000;

} // verus!
