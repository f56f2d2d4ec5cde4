//! The phase-continuous waveform generator.
//!
//! Each voice contributes its fundamental plus one octave-up harmonic at
//! half amplitude; the contributions are divided by the voice count before
//! summing, and the mix is scaled by an overall gain of 3/5. The sine is a
//! fixed-point rational approximation whose value at a phase is a function
//! of that phase alone; samples are micro-units of amplitude, so full scale
//! 1.0 is `UNIT` = 1,000,000.

use vstd::arithmetic::div_mod::{
    lemma_div_is_ordered, lemma_div_multiples_vanish, lemma_div_pos_is_pos,
    lemma_fundamental_div_mod, lemma_mod_bound,
};
use vstd::arithmetic::mul::lemma_mul_inequality;
use vstd::prelude::*;

verus! {

use crate::{PHASE_SCALE, UNIT};
use crate::oscillator::OscillatorSet;
use crate::signal::AudioSignal;

/// Phase units in half a cycle (pi radians).
pub const HALF_CYCLE: u64 = 0x8000_0000;

/// Largest magnitude of one voice's contribution: the fundamental at full
/// scale plus the harmonic at half scale.
pub const CONTRIB_MAX: i64 = 1_500_000;

/// Largest magnitude of a finished sample: `CONTRIB_MAX` scaled by the 3/5
/// output gain.
pub const SAMPLE_MAX: i64 = 900_000;

/// Division that rounds towards zero, for a positive divisor.
pub open spec fn div_toward_zero(a: int, b: int) -> int {
    if a >= 0 {
        a / b
    } else {
        -((-a) / b)
    }
}

/// The fixed-point sine over the first half cycle, scaled to `UNIT`:
/// a rational approximation in the reduced argument `x` (the phase's top
/// 15 bits), exact 0 at both ends and exactly `UNIT` at the quarter cycle.
pub open spec fn sine_half_spec(p: u64) -> int {
    let x = (p as int) / 65536;
    let y = 32768 - x;
    16 * x * y * 1_000_000 / (5368709120 - 4 * x * y)
}

/// The fixed-point sine over a full cycle: the second half mirrors the
/// first with opposite sign.
pub open spec fn sine_spec(phase: u64) -> int {
    if phase < HALF_CYCLE {
        sine_half_spec(phase)
    } else {
        -sine_half_spec((phase - HALF_CYCLE) as u64)
    }
}

/// The phase of the octave-up harmonic: twice the voice phase, wrapped.
pub open spec fn harmonic_phase_spec(phase: u64) -> u64 {
    ((2 * (phase as int)) % (PHASE_SCALE as int)) as u64
}

/// One voice's contribution: fundamental plus harmonic at half amplitude.
pub open spec fn contribution_spec(phase: u64) -> int {
    sine_spec(phase) + div_toward_zero(sine_spec(harmonic_phase_spec(phase)), 2)
}

/// The sum of the first `k` voices' contributions, each divided by the
/// voice count `n` before being added.
pub open spec fn mix_prefix_spec(phases: Seq<u64>, n: int, k: int) -> int
    decreases k,
{
    if k <= 0 {
        0
    } else {
        mix_prefix_spec(phases, n, k - 1) + div_toward_zero(
            contribution_spec(phases[k - 1]),
            n,
        )
    }
}

/// The raw mixed sample of the whole voice set, before the output gain.
pub open spec fn raw_mix_spec(phases: Seq<u64>) -> int {
    mix_prefix_spec(phases, phases.len() as int, phases.len() as int)
}

/// The finished sample: the raw mix scaled by the 3/5 output gain.
pub open spec fn sample_spec(phases: Seq<u64>) -> int {
    div_toward_zero(3 * raw_mix_spec(phases), 5)
}

/// How far a voice's phase moves per sample: its frequency's share of a
/// full cycle, wrapped.
pub open spec fn phase_increment_spec(freq: u64, sample_rate: u32) -> u64 {
    (((freq as int) * (PHASE_SCALE as int) / (1000 * (sample_rate as int))) % (
    PHASE_SCALE as int)) as u64
}

/// A voice's phase after one sample.
pub open spec fn advance_spec(phase: u64, freq: u64, sample_rate: u32) -> u64 {
    (((phase as int) + (phase_increment_spec(freq, sample_rate) as int)) % (
    PHASE_SCALE as int)) as u64
}

/// The phase vector after `k` samples have been generated.
pub open spec fn phases_after_spec(
    phases: Seq<u64>,
    freqs: Seq<u64>,
    sample_rate: u32,
    k: int,
) -> Seq<u64>
    decreases k,
{
    if k <= 0 {
        phases
    } else {
        advanced_phases_spec(
            phases_after_spec(phases, freqs, sample_rate, k - 1),
            freqs,
            sample_rate,
        )
    }
}

/// The sample generated `k` steps into the stream.
pub open spec fn sample_at_spec(
    phases: Seq<u64>,
    freqs: Seq<u64>,
    sample_rate: u32,
    k: int,
) -> int {
    sample_spec(phases_after_spec(phases, freqs, sample_rate, k))
}

/// The whole phase vector after one sample.
pub open spec fn advanced_phases_spec(
    phases: Seq<u64>,
    freqs: Seq<u64>,
    sample_rate: u32,
) -> Seq<u64> {
    Seq::new(phases.len(), |i: int| advance_spec(phases[i], freqs[i], sample_rate))
}

/// The sine over the first half cycle stays within `[0, UNIT]`.
pub proof fn lemma_sine_half_bounds(p: u64)
    requires
        p < HALF_CYCLE,
    ensures
        0 <= sine_half_spec(p) <= UNIT,
{
    let x = (p as int) / 65536;
    let y = 32768 - x;
    assert(0 <= x) by {
        lemma_div_pos_is_pos(p as int, 65536);
    }
    assert(x <= 32767) by {
        lemma_div_is_ordered(p as int, 0x7fff_ffff, 65536);
    }
    let prod = x * y;
    assert(0 <= prod && prod <= 268435456) by (nonlinear_arith)
        requires
            0 <= x <= 32767,
            y == 32768 - x,
            prod == x * y,
    {
    }
    assert(16 * x * y * 1_000_000 == 16 * prod * 1_000_000 && 4 * x * y == 4 * prod)
        by (nonlinear_arith)
        requires
            prod == x * y,
    {
    }
    let num = 16 * prod * 1_000_000;
    let den = 5368709120 - 4 * prod;
    assert(den >= 4294967296);
    assert(num >= 0);
    assert(num <= 1_000_000 * den);
    assert(sine_half_spec(p) == num / den);
    assert(0 <= num / den) by {
        lemma_div_pos_is_pos(num, den);
    }
    assert(num / den <= 1_000_000) by {
        lemma_div_is_ordered(num, 1_000_000 * den, den);
        lemma_div_multiples_vanish(1_000_000, den);
        assert(den * 1_000_000 == 1_000_000 * den);
    }
}

/// The landmarks of the fixed-point sine: exact zeroes at the start and
/// the middle of the cycle, exact full scale at the quarter points.
pub proof fn lemma_sine_landmarks()
    ensures
        sine_spec(0) == 0,
        sine_spec(HALF_CYCLE) == 0,
        sine_spec(0x4000_0000) == UNIT,
        sine_spec(0xC000_0000) == -UNIT,
{
    assert(sine_half_spec(0) == 0);
    assert(sine_half_spec(0x4000_0000) == UNIT) by {
        let x = 0x4000_0000int / 65536;
        let y = 32768 - x;
        assert(x == 16384 && y == 16384);
        assert(16 * x * y * 1_000_000 == 4294967296000000int && 4 * x * y == 1073741824int) by (
        nonlinear_arith)
            requires
                x == 16384,
                y == 16384,
        {
        }
        assert(4294967296000000int / 4294967296int == 1_000_000);
    }
}

/// The sine stays within `[-UNIT, UNIT]` over the whole cycle.
pub proof fn lemma_sine_bounds(phase: u64)
    requires
        phase < PHASE_SCALE,
    ensures
        -UNIT <= sine_spec(phase) <= UNIT,
{
    if phase < HALF_CYCLE {
        lemma_sine_half_bounds(phase);
    } else {
        lemma_sine_half_bounds((phase - HALF_CYCLE) as u64);
    }
}

/// Division towards zero by a positive divisor keeps the quotient within
/// the scaled bound.
proof fn lemma_div_toward_zero_bound(a: int, b: int, m: int)
    requires
        0 < b,
        0 <= m,
        -m <= a <= m,
    ensures
        -(m / b) <= div_toward_zero(a, b) <= m / b,
        -m <= div_toward_zero(a, b) <= m,
{
    lemma_div_pos_is_pos(m, b);
    if a >= 0 {
        lemma_div_pos_is_pos(a, b);
        lemma_div_is_ordered(a, m, b);
        lemma_div_is_ordered(0, a, b);
        assert(m / b <= m) by {
            lemma_fundamental_div_mod(m, b);
            lemma_mod_bound(m, b);
            lemma_mul_inequality(1, b, m / b);
        }
    } else {
        lemma_div_pos_is_pos(-a, b);
        lemma_div_is_ordered(-a, m, b);
        lemma_div_is_ordered(0, -a, b);
        assert(m / b <= m) by {
            lemma_fundamental_div_mod(m, b);
            lemma_mod_bound(m, b);
            lemma_mul_inequality(1, b, m / b);
        }
    }
}

/// Each voice's contribution has magnitude at most `CONTRIB_MAX`.
pub proof fn lemma_contribution_bound(phase: u64)
    requires
        phase < PHASE_SCALE,
    ensures
        -CONTRIB_MAX <= contribution_spec(phase) <= CONTRIB_MAX,
{
    lemma_sine_bounds(phase);
    assert(harmonic_phase_spec(phase) < PHASE_SCALE) by {
        lemma_mod_bound(2 * (phase as int), PHASE_SCALE as int);
    }
    lemma_sine_bounds(harmonic_phase_spec(phase));
    lemma_div_toward_zero_bound(sine_spec(harmonic_phase_spec(phase)), 2, UNIT as int);
}

/// The partial mix of `k` of `n` voices has magnitude at most
/// `k * (CONTRIB_MAX / n)`, and in particular at most `CONTRIB_MAX`.
proof fn lemma_mix_prefix_bound(phases: Seq<u64>, n: int, k: int)
    requires
        1 <= n,
        0 <= k <= n,
        k <= phases.len(),
        forall|i: int| 0 <= i < phases.len() ==> phases[i] < PHASE_SCALE,
    ensures
        -(k * (CONTRIB_MAX as int / n)) <= mix_prefix_spec(phases, n, k) <= k * (
        CONTRIB_MAX as int / n),
        -CONTRIB_MAX <= mix_prefix_spec(phases, n, k) <= CONTRIB_MAX,
    decreases k,
{
    let b = CONTRIB_MAX as int / n;
    lemma_div_pos_is_pos(CONTRIB_MAX as int, n);
    assert(n * b <= CONTRIB_MAX) by {
        lemma_fundamental_div_mod(CONTRIB_MAX as int, n);
        lemma_mod_bound(CONTRIB_MAX as int, n);
    }
    if k == 0 {
    } else {
        lemma_mix_prefix_bound(phases, n, k - 1);
        lemma_contribution_bound(phases[k - 1]);
        lemma_div_toward_zero_bound(contribution_spec(phases[k - 1]), n, CONTRIB_MAX as int);
        let t = div_toward_zero(contribution_spec(phases[k - 1]), n);
        assert(-b <= t <= b);
        assert(k * b == (k - 1) * b + b) by (nonlinear_arith);
        assert(k * b <= n * b) by {
            lemma_mul_inequality(k, n, b);
        }
    }
}

/// Mixing normalization: however many voices there are, the raw mix before
/// the output gain never exceeds one and a half times full scale, because
/// every contribution is divided by the voice count.
pub proof fn lemma_mixing_normalized(phases: Seq<u64>)
    requires
        forall|i: int| 0 <= i < phases.len() ==> phases[i] < PHASE_SCALE,
    ensures
        -CONTRIB_MAX <= raw_mix_spec(phases) <= CONTRIB_MAX,
{
    if phases.len() > 0 {
        lemma_mix_prefix_bound(phases, phases.len() as int, phases.len() as int);
    }
}

/// Silence on the empty voice set: the generated sample is exactly zero.
pub proof fn lemma_silence_on_empty(phases: Seq<u64>)
    requires
        phases.len() == 0,
    ensures
        sample_spec(phases) == 0,
{
    assert(raw_mix_spec(phases) == 0);
    assert(0int / 5 == 0);
}

/// The finished sample has magnitude at most `SAMPLE_MAX`.
pub proof fn lemma_sample_bound(phases: Seq<u64>)
    requires
        forall|i: int| 0 <= i < phases.len() ==> phases[i] < PHASE_SCALE,
    ensures
        -SAMPLE_MAX <= sample_spec(phases) <= SAMPLE_MAX,
{
    lemma_mixing_normalized(phases);
    lemma_div_toward_zero_bound(3 * raw_mix_spec(phases), 5, 4_500_000);
    assert(4_500_000int / 5 == 900_000);
}

/// The fixed-point sine over the first half cycle.
fn sine_half(p: u64) -> (r: u64)
    requires
        p < HALF_CYCLE,
    ensures
        r as int == sine_half_spec(p),
        r <= 1_000_000,
{
    proof {
        lemma_sine_half_bounds(p);
    }
    let x: u64 = p / 65536;
    assert(x <= 32767) by {
        lemma_div_is_ordered(p as int, 0x7fff_ffff, 65536);
    }
    let y: u64 = 32768 - x;
    proof {
        assert((x as int) * (y as int) <= 268435456) by (nonlinear_arith)
            requires
                x <= 32767,
                y == 32768 - x,
        {
        }
    }
    let prod: u64 = x * y;
    let num: u64 = 16 * prod * 1_000_000;
    let den: u64 = 5368709120 - 4 * prod;
    proof {
        let sx = (p as int) / 65536;
        let sy = 32768 - sx;
        assert(16 * sx * sy * 1_000_000 == 16 * (prod as int) * 1_000_000 && 4 * sx * sy == 4 * (
        prod as int)) by (nonlinear_arith)
            requires
                (prod as int) == sx * sy,
        {
        }
        assert(sine_half_spec(p) == (num as int) / (den as int));
    }
    num / den
}

/// The fixed-point sine over the whole cycle.
fn sine_fixed(phase: u64) -> (s: i64)
    requires
        phase < PHASE_SCALE,
    ensures
        s as int == sine_spec(phase),
        -UNIT <= s <= UNIT,
{
    if phase < HALF_CYCLE {
        sine_half(phase) as i64
    } else {
        -(sine_half(phase - HALF_CYCLE) as i64)
    }
}

/// Division towards zero of a bounded sample value by a positive count.
fn div_mag(a: i64, b: u64) -> (r: i64)
    requires
        1 <= b,
        -4_500_000 <= a <= 4_500_000,
    ensures
        r as int == div_toward_zero(a as int, b as int),
        -4_500_000 <= r <= 4_500_000,
{
    proof {
        lemma_div_toward_zero_bound(a as int, b as int, 4_500_000);
    }
    if a >= 0 {
        proof {
            lemma_div_pos_is_pos(a as int, b as int);
            lemma_div_is_ordered(a as int, 4_500_000, b as int);
        }
        ((a as u64) / b) as i64
    } else {
        proof {
            lemma_div_pos_is_pos(-a as int, b as int);
            lemma_div_is_ordered(-a as int, 4_500_000, b as int);
        }
        -(((-a) as u64 / b) as i64)
    }
}

/// One voice's contribution at its current phase.
fn contribution(phase: u64) -> (c: i64)
    requires
        phase < PHASE_SCALE,
    ensures
        c as int == contribution_spec(phase),
        -CONTRIB_MAX <= c <= CONTRIB_MAX,
{
    let s1 = sine_fixed(phase);
    let h: u64 = (2 * phase) % PHASE_SCALE;
    proof {
        lemma_mod_bound(2 * (phase as int), PHASE_SCALE as int);
    }
    let s2 = sine_fixed(h);
    let half = div_mag(s2, 2);
    proof {
        lemma_div_toward_zero_bound(s2 as int, 2, UNIT as int);
    }
    s1 + half
}

/// The per-sample phase step for one voice.
pub fn phase_increment(freq: u64, sample_rate: u32) -> (inc: u64)
    requires
        1 <= sample_rate,
    ensures
        inc as int == phase_increment_spec(freq, sample_rate) as int,
        inc < PHASE_SCALE,
{
    let denom: u128 = 1000u128 * (sample_rate as u128);
    proof {
        assert((freq as int) * (PHASE_SCALE as int) <= 0xffff_ffff_ffff_ffffint
            * 0x1_0000_0000int) by (nonlinear_arith)
            requires
                freq <= 0xffff_ffff_ffff_ffffu64,
        {
        }
    }
    let q: u128 = ((freq as u128) * (PHASE_SCALE as u128)) / denom;
    let inc: u64 = (q % (PHASE_SCALE as u128)) as u64;
    proof {
        lemma_mod_bound(q as int, PHASE_SCALE as int);
    }
    inc
}

/// The waveform generator: a sample rate and the voice set whose phases it
/// advances, one sample at a time.
pub struct ChordGenerator {
    pub sample_rate: u32,
    pub voices: OscillatorSet,
}

impl ChordGenerator {
    /// A positive sample rate and a well-formed voice set.
    pub open spec fn wf(&self) -> bool {
        &&& self.sample_rate >= 1
        &&& self.voices.wf()
    }

    /// A generator with no voices yet: it synthesises silence.
    pub fn new(sample_rate: u32) -> (r: ChordGenerator)
        requires
            sample_rate >= 1,
        ensures
            r.wf(),
            r.sample_rate == sample_rate,
            r.voices.frequencies@.len() == 0,
    {
        ChordGenerator { sample_rate, voices: OscillatorSet::new() }
    }

    /// Applies one control signal to the voice set; see
    /// [`OscillatorSet::apply`] for the phase-preservation contract.
    pub fn apply(&mut self, signal: &AudioSignal)
        requires
            old(self).wf(),
        ensures
            final(self).wf(),
            final(self).sample_rate == old(self).sample_rate,
            (final(self).voices.frequencies@, final(self).voices.phases@)
                == crate::oscillator::apply_spec(
                old(self).voices.frequencies@,
                old(self).voices.phases@,
                *signal,
            ),
    {
        self.voices.apply(signal);
    }

    /// Drains a backlog of signals, oldest first.
    pub fn apply_all(&mut self, signals: &Vec<AudioSignal>)
        requires
            old(self).wf(),
        ensures
            final(self).wf(),
            final(self).sample_rate == old(self).sample_rate,
            (final(self).voices.frequencies@, final(self).voices.phases@)
                == crate::oscillator::apply_seq_spec(
                old(self).voices.frequencies@,
                old(self).voices.phases@,
                signals@,
            ),
    {
        self.voices.apply_all(signals);
    }

    /// Synthesises one sample at the current state and advances every
    /// voice's phase by one step. With no voices the sample is exactly 0.
    pub fn next_sample(&mut self) -> (s: i64)
        requires
            old(self).wf(),
        ensures
            final(self).wf(),
            final(self).sample_rate == old(self).sample_rate,
            final(self).voices.frequencies@ == old(self).voices.frequencies@,
            final(self).voices.phases@ == advanced_phases_spec(
                old(self).voices.phases@,
                old(self).voices.frequencies@,
                old(self).sample_rate,
            ),
            s as int == sample_spec(old(self).voices.phases@),
            -SAMPLE_MAX <= s <= SAMPLE_MAX,
            old(self).voices.phases@.len() == 0 ==> s == 0,
    {
        let ghost orig = self.voices.phases@;
        let n = self.voices.frequencies.len();
        let mut acc: i64 = 0;
        let mut i: usize = 0;
        while i < n
            invariant
                self.wf(),
                self.sample_rate == old(self).sample_rate,
                self.voices.frequencies@ == old(self).voices.frequencies@,
                n == self.voices.frequencies@.len(),
                i <= n,
                orig == old(self).voices.phases@,
                self.voices.phases@.len() == orig.len(),
                forall|k: int| 0 <= k < orig.len() ==> orig[k] < PHASE_SCALE,
                forall|k: int| 0 <= k < i ==> self.voices.phases@[k] == advance_spec(
                    orig[k],
                    self.voices.frequencies@[k],
                    self.sample_rate,
                ),
                forall|k: int| i <= k < orig.len() ==> self.voices.phases@[k] == orig[k],
                acc as int == mix_prefix_spec(orig, n as int, i as int),
                -CONTRIB_MAX <= acc <= CONTRIB_MAX,
            decreases n - i,
        {
            let ph = self.voices.phases[i];
            let f = self.voices.frequencies[i];
            let c = contribution(ph);
            let term = div_mag(c, n as u64);
            proof {
                lemma_mix_prefix_bound(orig, n as int, i as int);
                lemma_mix_prefix_bound(orig, n as int, i + 1);
            }
            acc = acc + term;
            let inc = phase_increment(f, self.sample_rate);
            let np = (ph + inc) % PHASE_SCALE;
            proof {
                lemma_mod_bound((ph + inc) as int, PHASE_SCALE as int);
            }
            self.voices.phases.set(i, np);
            i = i + 1;
        }
        proof {
            lemma_mixing_normalized(orig);
            lemma_sample_bound(orig);
            assert(self.voices.phases@ == advanced_phases_spec(
                orig,
                self.voices.frequencies@,
                self.sample_rate,
            ));
            if orig.len() == 0 {
                lemma_silence_on_empty(orig);
            }
        }
        let s = div_mag(3 * acc, 5);
        s
    }

    /// Renders one output buffer: `frames` consecutive samples, each
    /// replicated identically across all `channels` of its frame, in
    /// stream order. Entry `j` of the buffer holds the sample generated
    /// `j / channels` steps into the stream.
    pub fn render(&mut self, frames: usize, channels: usize) -> (out: Vec<i64>)
        requires
            old(self).wf(),
            channels >= 1,
            frames * channels <= usize::MAX,
        ensures
            final(self).wf(),
            final(self).sample_rate == old(self).sample_rate,
            final(self).voices.frequencies@ == old(self).voices.frequencies@,
            final(self).voices.phases@ == phases_after_spec(
                old(self).voices.phases@,
                old(self).voices.frequencies@,
                old(self).sample_rate,
                frames as int,
            ),
            out@.len() == frames * channels,
            forall|j: int| 0 <= j < out@.len() ==> out@[j] as int == sample_at_spec(
                old(self).voices.phases@,
                old(self).voices.frequencies@,
                old(self).sample_rate,
                j / (channels as int),
            ),
    {
        let ghost orig_phases = self.voices.phases@;
        let ghost freqs = self.voices.frequencies@;
        let ghost sr = self.sample_rate;
        let mut out: Vec<i64> = Vec::new();
        let mut f: usize = 0;
        while f < frames
            invariant
                self.wf(),
                self.sample_rate == sr,
                self.voices.frequencies@ == freqs,
                f <= frames,
                frames * channels <= usize::MAX,
                channels >= 1,
                self.voices.phases@ == phases_after_spec(orig_phases, freqs, sr, f as int),
                out@.len() == f * channels,
                forall|j: int| 0 <= j < out@.len() ==> out@[j] as int == sample_at_spec(
                    orig_phases,
                    freqs,
                    sr,
                    j / (channels as int),
                ),
            decreases frames - f,
        {
            proof {
                lemma_mul_inequality(f as int + 1, frames as int, channels as int);
                assert((f + 1) * (channels as int) == f * (channels as int) + (channels as int))
                    by (nonlinear_arith);
            }
            let s = self.next_sample();
            let mut c: usize = 0;
            while c < channels
                invariant
                    c <= channels,
                    channels >= 1,
                    out@.len() == f * channels + c,
                    f * channels + channels <= usize::MAX,
                    s as int == sample_at_spec(orig_phases, freqs, sr, f as int),
                    forall|j: int| 0 <= j < f * channels ==> out@[j] as int == sample_at_spec(
                        orig_phases,
                        freqs,
                        sr,
                        j / (channels as int),
                    ),
                    forall|j: int| f * channels <= j < out@.len() ==> out@[j] == s,
                decreases channels - c,
            {
                out.push(s);
                c = c + 1;
            }
            proof {
                assert forall|j: int| f * channels <= j < out@.len() implies #[trigger] (j / (
                channels as int)) == f as int by {
                    vstd::arithmetic::div_mod::lemma_fundamental_div_mod_converse_div(
                        j,
                        channels as int,
                        f as int,
                        j - f * channels,
                    );
                }
            }
            f = f + 1;
        }
        out
    }
}

} // verus!
