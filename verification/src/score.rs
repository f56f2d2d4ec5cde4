//! Playback-mode scores: ordered sequences of notes with durations, built
//! from written note names or from the two fixed demonstration melodies.

use vstd::prelude::*;
use vstd::string::StringSliceAdditionalSpecFns;

verus! {

use crate::notes::{
    note_millihertz, note_millihertz_spec, note_of_text, Note, NoteError, NoteName, MAX_OCTAVE,
};

/// A score: notes in playing order, their total duration in milliseconds,
/// and the sample rate playback is meant for.
pub struct Notes {
    pub sample_rate: u32,
    pub time: u64,
    pub notes: Vec<Note>,
}

/// The sum of the durations of the first `k` entries of a written score.
pub open spec fn time_prefix_spec(music: Seq<(&str, u32, u64)>, k: int) -> int
    decreases k,
{
    if k <= 0 {
        0
    } else {
        time_prefix_spec(music, k - 1) + music[k - 1].2
    }
}

/// The total duration of a written score.
pub open spec fn total_time_spec(music: Seq<(&str, u32, u64)>) -> int {
    time_prefix_spec(music, music.len() as int)
}

proof fn lemma_time_prefix_mono(music: Seq<(&str, u32, u64)>, k1: int, k2: int)
    requires
        0 <= k1 <= k2 <= music.len(),
    ensures
        time_prefix_spec(music, k1) <= time_prefix_spec(music, k2),
    decreases k2,
{
    if k1 < k2 {
        lemma_time_prefix_mono(music, k1, k2 - 1);
    }
}

/// Whether a built note is the one a program entry asks for.
pub open spec fn note_matches(nt: Note, name: NoteName, octave: u32, time: u64) -> bool {
    &&& nt.name == name
    &&& nt.octave == octave
    &&& nt.time == time
    &&& nt.frequency_millihertz as int == note_millihertz_spec(name, octave)
}

/// Appends the note a program entry asks for.
fn push_note(notes: &mut Vec<Note>, name: NoteName, octave: u32, time: u64)
    requires
        octave <= MAX_OCTAVE,
        old(notes)@.len() < usize::MAX,
    ensures
        final(notes)@.len() == old(notes)@.len() + 1,
        final(notes)@ == old(notes)@.push(final(notes)@.last()),
        note_matches(final(notes)@.last(), name, octave, time),
{
    let frequency_millihertz = note_millihertz(name, octave);
    notes.push(Note { name, time, frequency_millihertz, octave });
}

impl Notes {
    /// An empty score.
    pub fn new(sample_rate: u32) -> (r: Result<Notes, NoteError>)
        ensures
            r matches Ok(ns) && ns.sample_rate == sample_rate && ns.time == 0 && ns.notes@.len()
                == 0,
    {
        Ok(Notes { sample_rate, time: 0, notes: Vec::new() })
    }

    /// Builds a score from written entries of (note text, octave,
    /// duration). Entries are taken in order; the first entry whose text
    /// names no note rejects the whole score with that text.
    pub fn from(sample_rate: u32, music: Vec<(&str, u32, u64)>) -> (r: Result<Notes, NoteError>)
        requires
            forall|i: int| 0 <= i < music@.len() ==> (#[trigger] music@[i]).1 <= MAX_OCTAVE,
            total_time_spec(music@) <= u64::MAX,
        ensures
            (r is Ok) <==> (forall|i: int|
                0 <= i < music@.len() ==> (#[trigger] note_of_text(
                    music@[i].0.spec_bytes(),
                )) is Some),
            r matches Ok(ns) ==> ns.sample_rate == sample_rate && ns.time as int
                == total_time_spec(music@) && ns.notes@.len() == music@.len() && forall|i: int|
                0 <= i < music@.len() ==> ((#[trigger] ns.notes@[i]).octave == music@[i].1
                    && ns.notes@[i].time == music@[i].2 && Some(ns.notes@[i].name) == note_of_text(
                    music@[i].0.spec_bytes(),
                ) && ns.notes@[i].frequency_millihertz as int == note_millihertz_spec(
                    ns.notes@[i].name,
                    music@[i].1,
                )),
            r matches Err(e) ==> exists|i: int|
                0 <= i < music@.len() && (#[trigger] note_of_text(
                    music@[i].0.spec_bytes(),
                )) is None && (e matches NoteError::InvalidNote(s) && s@ == music@[i].0@) && (
                forall|k: int|
                    0 <= k < i ==> (#[trigger] note_of_text(music@[k].0.spec_bytes())) is Some),
    {
        let mut notes: Vec<Note> = Vec::new();
        let mut total: u64 = 0;
        let mut i: usize = 0;
        while i < music.len()
            invariant
                i <= music@.len(),
                forall|k: int| 0 <= k < music@.len() ==> (#[trigger] music@[k]).1 <= MAX_OCTAVE,
                total_time_spec(music@) <= u64::MAX,
                notes@.len() == i,
                total as int == time_prefix_spec(music@, i as int),
                forall|k: int|
                    0 <= k < i ==> (#[trigger] note_of_text(music@[k].0.spec_bytes())) is Some,
                forall|k: int|
                    0 <= k < i ==> ((#[trigger] notes@[k]).octave == music@[k].1 && notes@[k].time
                        == music@[k].2 && Some(notes@[k].name) == note_of_text(
                        music@[k].0.spec_bytes(),
                    ) && notes@[k].frequency_millihertz as int == note_millihertz_spec(
                        notes@[k].name,
                        music@[k].1,
                    )),
            decreases music@.len() - i,
        {
            let entry = music[i];
            match Note::new(entry.0, entry.1, entry.2) {
                Ok(nt) => {
                    proof {
                        lemma_time_prefix_mono(music@, i + 1, music@.len() as int);
                    }
                    total = total + entry.2;
                    notes.push(nt);
                },
                Err(e) => {
                    return Err(e);
                },
            }
            i = i + 1;
        }
        Ok(Notes { sample_rate, time: total, notes })
    }

    /// The chromatic-scale demonstration: the scale of octave 3 up from C
    /// and back down, short rests between the steps, held C4 notes at the
    /// turn.
    pub fn chromatic_scale(sample_rate: u32) -> (r: Result<Notes, NoteError>)
        ensures
            r matches Ok(ns) && ns.sample_rate == sample_rate && ns.time == 5100
                && ns.notes@.len() == chromatic_program().len() && forall|i: int|
                0 <= i < ns.notes@.len() ==> note_matches(
                    #[trigger] ns.notes@[i],
                    chromatic_program()[i].0,
                    chromatic_program()[i].1,
                    chromatic_program()[i].2,
                ),
    {
        let mut notes: Vec<Note> = Vec::new();
        push_note(&mut notes, NoteName::C, 3, 600);
        push_note(&mut notes, NoteName::Silence, 3, 50);
        push_note(&mut notes, NoteName::D, 3, 150);
        push_note(&mut notes, NoteName::Silence, 3, 50);
        push_note(&mut notes, NoteName::E, 3, 150);
        push_note(&mut notes, NoteName::Silence, 3, 50);
        push_note(&mut notes, NoteName::F, 3, 150);
        push_note(&mut notes, NoteName::Silence, 3, 50);
        push_note(&mut notes, NoteName::G, 3, 150);
        push_note(&mut notes, NoteName::Silence, 3, 50);
        push_note(&mut notes, NoteName::A, 3, 150);
        push_note(&mut notes, NoteName::Silence, 3, 50);
        push_note(&mut notes, NoteName::B, 3, 150);
        push_note(&mut notes, NoteName::Silence, 3, 50);
        push_note(&mut notes, NoteName::C, 4, 600);
        push_note(&mut notes, NoteName::Silence, 3, 150);
        push_note(&mut notes, NoteName::C, 4, 600);
        push_note(&mut notes, NoteName::Silence, 3, 50);
        push_note(&mut notes, NoteName::B, 3, 150);
        push_note(&mut notes, NoteName::Silence, 3, 50);
        push_note(&mut notes, NoteName::A, 3, 150);
        push_note(&mut notes, NoteName::Silence, 3, 50);
        push_note(&mut notes, NoteName::G, 3, 150);
        push_note(&mut notes, NoteName::Silence, 3, 50);
        push_note(&mut notes, NoteName::F, 3, 150);
        push_note(&mut notes, NoteName::Silence, 3, 50);
        push_note(&mut notes, NoteName::E, 3, 150);
        push_note(&mut notes, NoteName::Silence, 3, 50);
        push_note(&mut notes, NoteName::D, 3, 150);
        push_note(&mut notes, NoteName::Silence, 3, 50);
        push_note(&mut notes, NoteName::C, 3, 600);
        push_note(&mut notes, NoteName::Silence, 3, 50);
        Ok(Notes { sample_rate, time: 5100, notes })
    }

    /// The pentatonic-blues demonstration: the minor blues scale on C up
    /// from C4 to E flat 5 and back down, short rests between the steps.
    pub fn pentatonic_blues(sample_rate: u32) -> (r: Result<Notes, NoteError>)
        ensures
            r matches Ok(ns) && ns.sample_rate == sample_rate && ns.time == 8200
                && ns.notes@.len() == blues_program().len() && forall|i: int|
                0 <= i < ns.notes@.len() ==> note_matches(
                    #[trigger] ns.notes@[i],
                    blues_program()[i].0,
                    blues_program()[i].1,
                    blues_program()[i].2,
                ),
    {
        let mut notes: Vec<Note> = Vec::new();
        push_note(&mut notes, NoteName::C, 4, 500);
        push_note(&mut notes, NoteName::Silence, 0, 50);
        push_note(&mut notes, NoteName::EFlat, 4, 500);
        push_note(&mut notes, NoteName::Silence, 0, 50);
        push_note(&mut notes, NoteName::F, 4, 500);
        push_note(&mut notes, NoteName::Silence, 0, 50);
        push_note(&mut notes, NoteName::FSharp, 4, 500);
        push_note(&mut notes, NoteName::Silence, 0, 50);
        push_note(&mut notes, NoteName::G, 4, 500);
        push_note(&mut notes, NoteName::Silence, 0, 50);
        push_note(&mut notes, NoteName::BFlat, 4, 500);
        push_note(&mut notes, NoteName::Silence, 0, 50);
        push_note(&mut notes, NoteName::C, 5, 500);
        push_note(&mut notes, NoteName::Silence, 0, 50);
        push_note(&mut notes, NoteName::EFlat, 5, 500);
        push_note(&mut notes, NoteName::Silence, 0, 50);
        push_note(&mut notes, NoteName::C, 5, 500);
        push_note(&mut notes, NoteName::Silence, 0, 50);
        push_note(&mut notes, NoteName::BFlat, 4, 500);
        push_note(&mut notes, NoteName::Silence, 0, 50);
        push_note(&mut notes, NoteName::G, 4, 500);
        push_note(&mut notes, NoteName::Silence, 0, 50);
        push_note(&mut notes, NoteName::FSharp, 4, 500);
        push_note(&mut notes, NoteName::Silence, 0, 50);
        push_note(&mut notes, NoteName::F, 4, 500);
        push_note(&mut notes, NoteName::Silence, 0, 50);
        push_note(&mut notes, NoteName::EFlat, 4, 500);
        push_note(&mut notes, NoteName::Silence, 0, 50);
        push_note(&mut notes, NoteName::C, 4, 500);
        Ok(Notes { sample_rate, time: 8200, notes })
    }
}

/// The note, octave and duration entries of the chromatic-scale
/// demonstration, in playing order.
pub open spec fn chromatic_program() -> Seq<(NoteName, u32, u64)> {
    seq![
        (NoteName::C, 3u32, 600u64),
        (NoteName::Silence, 3u32, 50u64),
        (NoteName::D, 3u32, 150u64),
        (NoteName::Silence, 3u32, 50u64),
        (NoteName::E, 3u32, 150u64),
        (NoteName::Silence, 3u32, 50u64),
        (NoteName::F, 3u32, 150u64),
        (NoteName::Silence, 3u32, 50u64),
        (NoteName::G, 3u32, 150u64),
        (NoteName::Silence, 3u32, 50u64),
        (NoteName::A, 3u32, 150u64),
        (NoteName::Silence, 3u32, 50u64),
        (NoteName::B, 3u32, 150u64),
        (NoteName::Silence, 3u32, 50u64),
        (NoteName::C, 4u32, 600u64),
        (NoteName::Silence, 3u32, 150u64),
        (NoteName::C, 4u32, 600u64),
        (NoteName::Silence, 3u32, 50u64),
        (NoteName::B, 3u32, 150u64),
        (NoteName::Silence, 3u32, 50u64),
        (NoteName::A, 3u32, 150u64),
        (NoteName::Silence, 3u32, 50u64),
        (NoteName::G, 3u32, 150u64),
        (NoteName::Silence, 3u32, 50u64),
        (NoteName::F, 3u32, 150u64),
        (NoteName::Silence, 3u32, 50u64),
        (NoteName::E, 3u32, 150u64),
        (NoteName::Silence, 3u32, 50u64),
        (NoteName::D, 3u32, 150u64),
        (NoteName::Silence, 3u32, 50u64),
        (NoteName::C, 3u32, 600u64),
        (NoteName::Silence, 3u32, 50u64),
    ]
}

/// The note, octave and duration entries of the pentatonic-blues
/// demonstration, in playing order: the way up, then the way back down.
pub open spec fn blues_program() -> Seq<(NoteName, u32, u64)> {
    seq![
        (NoteName::C, 4u32, 500u64),
        (NoteName::Silence, 0u32, 50u64),
        (NoteName::EFlat, 4u32, 500u64),
        (NoteName::Silence, 0u32, 50u64),
        (NoteName::F, 4u32, 500u64),
        (NoteName::Silence, 0u32, 50u64),
        (NoteName::FSharp, 4u32, 500u64),
        (NoteName::Silence, 0u32, 50u64),
        (NoteName::G, 4u32, 500u64),
        (NoteName::Silence, 0u32, 50u64),
        (NoteName::BFlat, 4u32, 500u64),
        (NoteName::Silence, 0u32, 50u64),
        (NoteName::C, 5u32, 500u64),
        (NoteName::Silence, 0u32, 50u64),
        (NoteName::EFlat, 5u32, 500u64),
        (NoteName::Silence, 0u32, 50u64),
        (NoteName::C, 5u32, 500u64),
        (NoteName::Silence, 0u32, 50u64),
        (NoteName::BFlat, 4u32, 500u64),
        (NoteName::Silence, 0u32, 50u64),
        (NoteName::G, 4u32, 500u64),
        (NoteName::Silence, 0u32, 50u64),
        (NoteName::FSharp, 4u32, 500u64),
        (NoteName::Silence, 0u32, 50u64),
        (NoteName::F, 4u32, 500u64),
        (NoteName::Silence, 0u32, 50u64),
        (NoteName::EFlat, 4u32, 500u64),
        (NoteName::Silence, 0u32, 50u64),
        (NoteName::C, 4u32, 500u64),
    ]
}

} // verus!
