//! The command protocol between producers and the audio thread.

use vstd::prelude::*;

verus! {

/// A control message sent by a producer to the audio thread.
///
/// Frequencies are in millihertz; a frequency of 0 is the producers'
/// silence signal and is synthesised as a flat waveform, not rejected.
/// Frequencies are unsigned, so a negative frequency — which has no
/// synthesis meaning — cannot arrive at this boundary at all.
pub enum AudioSignal {
    /// Collapse to exactly one voice at the given frequency.
    Single(u64),
    /// Set the full voice set to the given frequencies, in order.
    Chord(Vec<u64>),
}

/// The frequency vector a signal asks for.
pub open spec fn signal_freqs(signal: AudioSignal) -> Seq<u64> {
    match signal {
        AudioSignal::Single(f) => seq![f],
        AudioSignal::Chord(v) => v@,
    }
}

} // verus!
