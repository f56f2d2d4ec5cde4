//! The playback-mode tone: a sawtooth wave with a sharp repeating decay
//! envelope, the brighter tone a single pre-scripted note is played with.
//! Like the chord generator it is fixed point: a full cycle is
//! `PHASE_SCALE` phase units and samples are micro-units of amplitude.

use vstd::arithmetic::div_mod::{lemma_div_is_ordered, lemma_div_pos_is_pos, lemma_mod_bound};
use vstd::prelude::*;

verus! {

use crate::{PHASE_SCALE, UNIT};
use crate::generator::{advance_spec, div_toward_zero, phase_increment};

/// One fifth of a cycle in phase units (rounded down): the period of the
/// decay envelope.
pub const ENVELOPE_PERIOD: u64 = 858993459;

/// The sawtooth at a phase: rising linearly from -UNIT at the start of
/// the cycle towards +UNIT at its end.
pub open spec fn saw_spec(phase: u64) -> int {
    2_000_000 * (phase as int) / (PHASE_SCALE as int) - 1_000_000
}

/// The decay envelope at a phase: full scale at the start of each fifth
/// of a cycle, falling linearly to nothing at its end.
pub open spec fn envelope_spec(phase: u64) -> int {
    1_000_000 - 5 * ((phase as int) % (ENVELOPE_PERIOD as int)) * 1_000_000 / (PHASE_SCALE as int)
}

/// One playback sample: the sawtooth at the phase the sample starts on,
/// shaped by the envelope at the phase it ends on.
pub open spec fn tone_sample_spec(start_phase: u64, end_phase: u64) -> int {
    div_toward_zero(saw_spec(start_phase) * envelope_spec(end_phase), 1_000_000)
}

/// The sawtooth value at a phase.
fn saw_value(phase: u64) -> (s: i64)
    requires
        phase < PHASE_SCALE,
    ensures
        s as int == saw_spec(phase),
        -1_000_000 <= s < 1_000_000,
{
    proof {
        lemma_div_pos_is_pos(2_000_000 * (phase as int), PHASE_SCALE as int);
        lemma_div_is_ordered(
            2_000_000 * (phase as int),
            2_000_000 * 0xffff_ffffint,
            PHASE_SCALE as int,
        );
    }
    let scaled = (2_000_000u64 * phase) / 4294967296u64;
    (scaled as i64) - 1_000_000
}

/// The envelope value at a phase.
fn envelope_value(phase: u64) -> (e: u64)
    requires
        phase < PHASE_SCALE,
    ensures
        e as int == envelope_spec(phase),
        0 < e <= 1_000_000,
{
    let m = phase % ENVELOPE_PERIOD;
    proof {
        lemma_mod_bound(phase as int, ENVELOPE_PERIOD as int);
        lemma_div_pos_is_pos(5 * (m as int) * 1_000_000, PHASE_SCALE as int);
        lemma_div_is_ordered(
            5 * (m as int) * 1_000_000,
            5 * 858993458int * 1_000_000,
            PHASE_SCALE as int,
        );
    }
    let d = (5u64 * m * 1_000_000) / 4294967296u64;
    1_000_000 - d
}

/// The playback tone for one note: its frequency, the sample rate it is
/// rendered at, and its running phase.
pub struct NoteWave {
    pub sample_rate: u32,
    pub frequency_millihertz: u64,
    pub phase: u64,
}

impl NoteWave {
    /// A positive sample rate and a phase wrapped below one cycle.
    pub open spec fn wf(&self) -> bool {
        &&& self.sample_rate >= 1
        &&& self.phase < PHASE_SCALE
    }

    /// A tone starting at the beginning of its cycle.
    pub fn new(sample_rate: u32, frequency_millihertz: u64) -> (r: NoteWave)
        requires
            sample_rate >= 1,
        ensures
            r.wf(),
            r.sample_rate == sample_rate,
            r.frequency_millihertz == frequency_millihertz,
            r.phase == 0,
    {
        NoteWave { sample_rate, frequency_millihertz, phase: 0 }
    }

    /// Synthesises one sample and advances the phase by one step.
    pub fn next_sample(&mut self) -> (s: i64)
        requires
            old(self).wf(),
        ensures
            final(self).wf(),
            final(self).sample_rate == old(self).sample_rate,
            final(self).frequency_millihertz == old(self).frequency_millihertz,
            final(self).phase == advance_spec(
                old(self).phase,
                old(self).frequency_millihertz,
                old(self).sample_rate,
            ),
            s as int == tone_sample_spec(old(self).phase, final(self).phase),
            -UNIT <= s <= UNIT,
    {
        let saw = saw_value(self.phase);
        let inc = phase_increment(self.frequency_millihertz, self.sample_rate);
        self.phase = (self.phase + inc) % PHASE_SCALE;
        proof {
            lemma_mod_bound((old(self).phase + inc) as int, PHASE_SCALE as int);
        }
        let env = envelope_value(self.phase);
        if saw >= 0 {
            proof {
                assert((saw as int) * (env as int) <= 1_000_000 * 1_000_000int) by (
                nonlinear_arith)
                    requires
                        0 <= saw <= 1_000_000,
                        0 <= env <= 1_000_000,
                {
                }
                lemma_div_pos_is_pos((saw as int) * (env as int), 1_000_000);
                lemma_div_is_ordered(
                    (saw as int) * (env as int),
                    1_000_000 * 1_000_000int,
                    1_000_000,
                );
            }
            (((saw as u64) * env) / 1_000_000) as i64
        } else {
            let mag = (-saw) as u64;
            proof {
                assert((mag as int) * (env as int) <= 1_000_000 * 1_000_000int
                    && (-(saw as int)) * (env as int) == -((saw as int) * (env as int))) by (
                nonlinear_arith)
                    requires
                        0 <= mag <= 1_000_000,
                        0 <= env <= 1_000_000,
                        mag == -(saw as int),
                {
                }
                lemma_div_pos_is_pos((mag as int) * (env as int), 1_000_000);
                lemma_div_is_ordered(
                    (mag as int) * (env as int),
                    1_000_000 * 1_000_000int,
                    1_000_000,
                );
            }
            -(((mag * env) / 1_000_000) as i64)
        }
    }
}

} // verus!
