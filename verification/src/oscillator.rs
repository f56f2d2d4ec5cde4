//! Shared oscillator state: target frequencies and per-voice running phase.

use vstd::prelude::*;

verus! {

use crate::PHASE_SCALE;
use crate::signal::{AudioSignal, signal_freqs};

/// The current target frequencies (millihertz) and running phases
/// (phase units, wrapped below `PHASE_SCALE`) of the voices.
///
/// The two vectors always have the same length; their shared length is the
/// voice count.
pub struct OscillatorSet {
    pub frequencies: Vec<u64>,
    pub phases: Vec<u64>,
}

/// What applying one signal does to the oscillator state: the frequency
/// vector becomes the signal's, and the phases are preserved exactly when
/// the voice count is unchanged, reset to all zeroes otherwise.
pub open spec fn apply_spec(
    freqs: Seq<u64>,
    phases: Seq<u64>,
    signal: AudioSignal,
) -> (Seq<u64>, Seq<u64>) {
    let nf = signal_freqs(signal);
    if nf.len() == phases.len() {
        (nf, phases)
    } else {
        (nf, Seq::new(nf.len(), |i: int| 0u64))
    }
}

/// Applying a whole backlog of signals, oldest first.
pub open spec fn apply_seq_spec(
    freqs: Seq<u64>,
    phases: Seq<u64>,
    signals: Seq<AudioSignal>,
) -> (Seq<u64>, Seq<u64>)
    decreases signals.len(),
{
    if signals.len() == 0 {
        (freqs, phases)
    } else {
        let prev = apply_seq_spec(freqs, phases, signals.drop_last());
        apply_spec(prev.0, prev.1, signals.last())
    }
}

/// Coalescing: after draining a non-empty backlog, the frequency vector is
/// the one the most recent signal asked for; the earlier signals leave no
/// trace in it.
pub proof fn lemma_command_coalescing(
    freqs: Seq<u64>,
    phases: Seq<u64>,
    signals: Seq<AudioSignal>,
)
    requires
        signals.len() > 0,
    ensures
        apply_seq_spec(freqs, phases, signals).0 == signal_freqs(signals.last()),
{
}

/// Phase continuity: a run of signals that each keep the voice count
/// unchanged leaves every voice's phase untouched.
pub proof fn lemma_phase_continuity(
    freqs: Seq<u64>,
    phases: Seq<u64>,
    signals: Seq<AudioSignal>,
)
    requires
        forall|k: int|
            0 <= k < signals.len() ==> signal_freqs(signals[k]).len() == phases.len(),
    ensures
        apply_seq_spec(freqs, phases, signals).1 == phases,
    decreases signals.len(),
{
    if signals.len() > 0 {
        assert(forall|k: int|
            0 <= k < signals.drop_last().len()
                ==> signal_freqs(signals.drop_last()[k]).len() == phases.len());
        lemma_phase_continuity(freqs, phases, signals.drop_last());
    }
}

/// Copies a frequency vector element by element.
fn copy_freqs(src: &Vec<u64>) -> (r: Vec<u64>)
    ensures
        r@ == src@,
{
    let mut r: Vec<u64> = Vec::new();
    let mut i: usize = 0;
    while i < src.len()
        invariant
            i <= src@.len(),
            r@ == src@.take(i as int),
        decreases src@.len() - i,
    {
        r.push(src[i]);
        i = i + 1;
    }
    assert(r@ == src@);
    r
}

/// A vector of `n` zero phases.
fn zero_phases(n: usize) -> (r: Vec<u64>)
    ensures
        r@ == Seq::new(n as nat, |i: int| 0u64),
{
    let mut r: Vec<u64> = Vec::new();
    let mut i: usize = 0;
    while i < n
        invariant
            i <= n,
            r@.len() == i,
            forall|k: int| 0 <= k < i ==> r@[k] == 0u64,
        decreases n - i,
    {
        r.push(0);
        i = i + 1;
    }
    assert(r@ == Seq::new(n as nat, |i: int| 0u64));
    r
}

impl OscillatorSet {
    /// Every phase is wrapped below one full cycle, and there is exactly one
    /// phase per voice.
    pub open spec fn wf(&self) -> bool {
        &&& self.phases@.len() == self.frequencies@.len()
        &&& forall|i: int| 0 <= i < self.phases@.len() ==> self.phases@[i] < PHASE_SCALE
    }

    /// The empty oscillator set: no voices, silence.
    pub fn new() -> (r: OscillatorSet)
        ensures
            r.wf(),
            r.frequencies@.len() == 0,
    {
        OscillatorSet { frequencies: Vec::new(), phases: Vec::new() }
    }

    /// Applies one signal: replaces the frequency vector, preserving the
    /// phases exactly when the voice count is unchanged and resetting them
    /// all to zero otherwise.
    pub fn apply(&mut self, signal: &AudioSignal)
        requires
            old(self).wf(),
        ensures
            final(self).wf(),
            (final(self).frequencies@, final(self).phases@) == apply_spec(
                old(self).frequencies@,
                old(self).phases@,
                *signal,
            ),
            final(self).frequencies@ == signal_freqs(*signal),
            signal_freqs(*signal).len() == old(self).phases@.len() ==> final(self).phases@
                == old(self).phases@,
            signal_freqs(*signal).len() != old(self).phases@.len()
                ==> (final(self).phases@.len() == signal_freqs(*signal).len() && forall|i: int|
                0 <= i < final(self).phases@.len() ==> final(self).phases@[i] == 0u64),
    {
        match signal {
            AudioSignal::Single(f) => {
                let mut v: Vec<u64> = Vec::new();
                v.push(*f);
                self.frequencies = v;
                assert(self.frequencies@ == signal_freqs(*signal));
                if self.phases.len() != 1 {
                    self.phases = zero_phases(1);
                }
            },
            AudioSignal::Chord(fs) => {
                let same = fs.len() == self.phases.len();
                self.frequencies = copy_freqs(fs);
                if !same {
                    self.phases = zero_phases(self.frequencies.len());
                }
            },
        }
    }

    /// Drains a backlog of signals, oldest first, applying each in turn.
    pub fn apply_all(&mut self, signals: &Vec<AudioSignal>)
        requires
            old(self).wf(),
        ensures
            final(self).wf(),
            (final(self).frequencies@, final(self).phases@) == apply_seq_spec(
                old(self).frequencies@,
                old(self).phases@,
                signals@,
            ),
    {
        let ghost orig_freqs = self.frequencies@;
        let ghost orig_phases = self.phases@;
        let mut i: usize = 0;
        while i < signals.len()
            invariant
                self.wf(),
                i <= signals@.len(),
                (self.frequencies@, self.phases@) == apply_seq_spec(
                    orig_freqs,
                    orig_phases,
                    signals@.take(i as int),
                ),
            decreases signals@.len() - i,
        {
            self.apply(&signals[i]);
            proof {
                assert(signals@.take(i + 1).drop_last() == signals@.take(i as int));
                assert(signals@.take(i + 1).last() == signals@[i as int]);
            }
            i = i + 1;
        }
        proof {
            assert(signals@.take(signals@.len() as int) == signals@);
        }
    }
}

} // verus!
