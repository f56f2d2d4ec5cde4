use sonify::notes::{Note, NoteError, NoteName};
use sonify::score::Notes;

#[test]
fn a4_is_exactly_440() {
    let n = Note::new("a", 4, 100).unwrap();
    assert_eq!(n.name, NoteName::A);
    assert_eq!(n.frequency_millihertz, 440_000);
}

#[test]
fn c4_is_equal_temperament_middle_c() {
    let n = Note::new("c", 4, 100).unwrap();
    assert_eq!(n.name, NoteName::C);
    assert_eq!(n.frequency_millihertz, 261_626);
}

#[test]
fn silence_maps_to_zero_in_any_octave() {
    let n = Note::new(" ", 3, 100).unwrap();
    assert_eq!(n.name, NoteName::Silence);
    assert_eq!(n.frequency_millihertz, 0);
    let n0 = Note::new(" ", 0, 100).unwrap();
    assert_eq!(n0.frequency_millihertz, 0);
}

#[test]
fn octaves_scale_by_powers_of_two() {
    assert_eq!(Note::new("a", 5, 1).unwrap().frequency_millihertz, 880_000);
    assert_eq!(Note::new("a", 6, 1).unwrap().frequency_millihertz, 1_760_000);
    assert_eq!(Note::new("a", 3, 1).unwrap().frequency_millihertz, 220_000);
    assert_eq!(Note::new("c", 3, 1).unwrap().frequency_millihertz, 130_813);
    assert_eq!(Note::new("c", 0, 1).unwrap().frequency_millihertz, 16_351);
}

#[test]
fn sharps_and_flats_parse() {
    assert_eq!(Note::new("f#", 4, 1).unwrap().name, NoteName::FSharp);
    assert_eq!(Note::new("eb", 4, 1).unwrap().name, NoteName::EFlat);
    assert_eq!(Note::new("bb", 4, 1).unwrap().name, NoteName::BFlat);
    assert_eq!(Note::new("b", 4, 1).unwrap().name, NoteName::B);
    assert_eq!(Note::new("C#", 4, 1).unwrap().name, NoteName::CSharp);
    assert_eq!(Note::new("Db", 4, 1).unwrap().name, NoteName::DFlat);
}

#[test]
fn enharmonic_spellings_share_a_frequency() {
    let sharp = Note::new("c#", 4, 1).unwrap();
    let flat = Note::new("db", 4, 1).unwrap();
    assert_ne!(sharp.name, flat.name);
    assert_eq!(sharp.frequency_millihertz, flat.frequency_millihertz);
    assert_eq!(sharp.frequency_millihertz, 277_183);
}

#[test]
fn invalid_note_is_rejected_with_its_text() {
    match Note::new("x", 4, 1) {
        Err(NoteError::InvalidNote(s)) => assert_eq!(s, "x"),
        Ok(_) => panic!("x is not a note"),
    }
    assert!(Note::new("e#", 4, 1).is_err());
    assert!(Note::new("cb", 4, 1).is_err());
    assert!(Note::new("hello", 4, 1).is_err());
}

#[test]
fn from_str_trims_and_lowercases() {
    assert_eq!(NoteName::from_str("  G  ").unwrap(), NoteName::G);
    assert_eq!(NoteName::from_str("bb").unwrap(), NoteName::BFlat);
    assert_eq!(NoteName::from_str("gsharp").unwrap(), NoteName::GSharp);
    assert_eq!(NoteName::from_str("aflat").unwrap(), NoteName::AFlat);
    assert_eq!(NoteName::from_str("").unwrap(), NoteName::Silence);
    match NoteName::from_str("q") {
        Err(NoteError::InvalidNote(s)) => assert_eq!(s, "q"),
        Ok(_) => panic!("q is not a note"),
    }
}

#[test]
fn note_indices_count_semitones_from_a() {
    assert_eq!(NoteName::C.to_note_index(), -9);
    assert_eq!(NoteName::A.to_note_index(), 0);
    assert_eq!(NoteName::B.to_note_index(), 2);
    assert_eq!(NoteName::Silence.to_note_index(), 0);
    assert_eq!(NoteName::CSharp.to_note_index(), NoteName::DFlat.to_note_index());
}

#[test]
fn names_print_as_words() {
    assert_eq!(NoteName::A.to_str(), "A");
    assert_eq!(NoteName::EFlat.to_str(), "EFlat");
    assert_eq!(NoteName::Silence.to_str(), "Silence");
}

#[test]
fn empty_score() {
    let ns = Notes::new(44100).unwrap();
    assert_eq!(ns.sample_rate, 44100);
    assert_eq!(ns.time, 0);
    assert_eq!(ns.notes.len(), 0);
}

#[test]
fn score_from_entries() {
    let ns = Notes::from(48000, vec![("a", 4, 500), (" ", 0, 50), ("c", 5, 250)]).unwrap();
    assert_eq!(ns.time, 800);
    assert_eq!(ns.notes.len(), 3);
    assert_eq!(ns.notes[0].frequency_millihertz, 440_000);
    assert_eq!(ns.notes[1].name, NoteName::Silence);
    assert_eq!(ns.notes[2].frequency_millihertz, 523_252);
}

#[test]
fn score_rejects_first_bad_entry() {
    match Notes::from(48000, vec![("a", 4, 500), ("nope", 4, 100)]) {
        Err(NoteError::InvalidNote(s)) => assert_eq!(s, "nope"),
        Ok(_) => panic!("score should be rejected"),
    }
}

#[test]
fn chromatic_scale_program() {
    let ns = Notes::chromatic_scale(44100).unwrap();
    assert_eq!(ns.notes.len(), 32);
    assert_eq!(ns.time, 5100);
    assert_eq!(ns.notes[0].name, NoteName::C);
    assert_eq!(ns.notes[0].octave, 3);
    assert_eq!(ns.notes[0].time, 600);
    assert_eq!(ns.notes[0].frequency_millihertz, 130_813);
    assert_eq!(ns.notes[1].name, NoteName::Silence);
    assert_eq!(ns.notes[14].name, NoteName::C);
    assert_eq!(ns.notes[14].octave, 4);
    assert_eq!(ns.notes[30].name, NoteName::C);
    assert_eq!(ns.notes[31].name, NoteName::Silence);
    let total: u64 = ns.notes.iter().map(|n| n.time).sum();
    assert_eq!(total, ns.time);
}

#[test]
fn pentatonic_blues_program() {
    let ns = Notes::pentatonic_blues(44100).unwrap();
    assert_eq!(ns.notes.len(), 29);
    assert_eq!(ns.time, 8200);
    assert_eq!(ns.notes[0].name, NoteName::C);
    assert_eq!(ns.notes[0].octave, 4);
    assert_eq!(ns.notes[14].name, NoteName::EFlat);
    assert_eq!(ns.notes[14].octave, 5);
    assert_eq!(ns.notes[28].name, NoteName::C);
    assert_eq!(ns.notes[28].octave, 4);
    let total: u64 = ns.notes.iter().map(|n| n.time).sum();
    assert_eq!(total, ns.time);
}
