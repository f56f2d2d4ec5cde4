use sonify::generator::{ChordGenerator, SAMPLE_MAX};
use sonify::oscillator::OscillatorSet;
use sonify::signal::AudioSignal;

const RATE: u32 = 44100;

#[test]
fn empty_generator_is_silent() {
    let mut g = ChordGenerator::new(RATE);
    for _ in 0..64 {
        assert_eq!(g.next_sample(), 0);
    }
}

#[test]
fn empty_chord_is_silent() {
    let mut g = ChordGenerator::new(RATE);
    g.apply(&AudioSignal::Chord(vec![440_000, 550_000]));
    for _ in 0..8 {
        g.next_sample();
    }
    g.apply(&AudioSignal::Chord(vec![]));
    for _ in 0..64 {
        assert_eq!(g.next_sample(), 0);
    }
}

#[test]
fn cardinality_change_resets_phases_and_sets_frequencies() {
    let mut g = ChordGenerator::new(RATE);
    g.apply(&AudioSignal::Chord(vec![440_000, 550_000]));
    for _ in 0..100 {
        g.next_sample();
    }
    assert!(g.voices.phases.iter().any(|&p| p != 0));
    g.apply(&AudioSignal::Chord(vec![100_000, 200_000, 300_000]));
    assert_eq!(g.voices.frequencies, vec![100_000, 200_000, 300_000]);
    assert_eq!(g.voices.phases, vec![0, 0, 0]);
}

#[test]
fn same_cardinality_update_preserves_phases() {
    let mut g = ChordGenerator::new(RATE);
    g.apply(&AudioSignal::Chord(vec![440_000, 550_000]));
    for _ in 0..100 {
        g.next_sample();
    }
    let before = g.voices.phases.clone();
    assert!(before.iter().any(|&p| p != 0));
    g.apply(&AudioSignal::Chord(vec![660_000, 770_000]));
    assert_eq!(g.voices.phases, before);
    assert_eq!(g.voices.frequencies, vec![660_000, 770_000]);
}

#[test]
fn repeated_single_updates_preserve_phase() {
    let mut g = ChordGenerator::new(RATE);
    g.apply(&AudioSignal::Single(440_000));
    for _ in 0..50 {
        g.next_sample();
    }
    let before = g.voices.phases.clone();
    assert!(before[0] != 0);
    g.apply(&AudioSignal::Single(330_000));
    assert_eq!(g.voices.phases, before);
    g.apply(&AudioSignal::Single(220_000));
    assert_eq!(g.voices.phases, before);
    assert_eq!(g.voices.frequencies, vec![220_000]);
}

#[test]
fn single_after_chord_resets_to_one_voice() {
    let mut g = ChordGenerator::new(RATE);
    g.apply(&AudioSignal::Chord(vec![440_000, 550_000, 660_000]));
    for _ in 0..10 {
        g.next_sample();
    }
    g.apply(&AudioSignal::Single(880_000));
    assert_eq!(g.voices.frequencies, vec![880_000]);
    assert_eq!(g.voices.phases, vec![0]);
}

#[test]
fn command_coalescing_last_wins() {
    let mut g = ChordGenerator::new(RATE);
    let backlog = vec![
        AudioSignal::Single(100_000),
        AudioSignal::Chord(vec![200_000, 300_000]),
        AudioSignal::Chord(vec![440_000, 550_000, 660_000]),
    ];
    g.apply_all(&backlog);
    assert_eq!(g.voices.frequencies, vec![440_000, 550_000, 660_000]);
    assert_eq!(g.voices.phases, vec![0, 0, 0]);
}

#[test]
fn coalescing_matches_sequential_application() {
    let mut a = ChordGenerator::new(RATE);
    let mut b = ChordGenerator::new(RATE);
    let backlog = vec![
        AudioSignal::Chord(vec![200_000, 300_000]),
        AudioSignal::Single(440_000),
        AudioSignal::Single(550_000),
    ];
    a.apply_all(&backlog);
    for s in backlog.iter() {
        b.apply(s);
    }
    assert_eq!(a.voices.frequencies, b.voices.frequencies);
    assert_eq!(a.voices.phases, b.voices.phases);
}

#[test]
fn samples_stay_within_mix_bound() {
    for count in [1usize, 2, 8] {
        let freqs: Vec<u64> = (0..count).map(|i| 220_000 + 110_000 * i as u64).collect();
        let mut g = ChordGenerator::new(RATE);
        g.apply(&AudioSignal::Chord(freqs));
        for _ in 0..2000 {
            let s = g.next_sample();
            assert!(s.abs() <= SAMPLE_MAX);
        }
    }
}

#[test]
fn single_voice_reaches_audible_amplitude() {
    let mut g = ChordGenerator::new(RATE);
    g.apply(&AudioSignal::Single(440_000));
    let mut peak: i64 = 0;
    for _ in 0..2000 {
        peak = peak.max(g.next_sample().abs());
    }
    assert!(peak > 500_000);
}

#[test]
fn phase_advances_by_exact_increment() {
    let mut g = ChordGenerator::new(RATE);
    g.apply(&AudioSignal::Single(440_000));
    g.next_sample();
    let expected =
        ((440_000u128 << 32) / (1000u128 * RATE as u128) % (1u128 << 32)) as u64;
    assert_eq!(g.voices.phases[0], expected);
    g.next_sample();
    assert_eq!(g.voices.phases[0], 2 * expected % (1u64 << 32));
}

#[test]
fn zero_frequency_never_advances() {
    let mut g = ChordGenerator::new(RATE);
    g.apply(&AudioSignal::Single(0));
    for _ in 0..100 {
        assert_eq!(g.next_sample(), 0);
    }
    assert_eq!(g.voices.phases, vec![0]);
}

#[test]
fn render_replicates_across_channels() {
    let mut g = ChordGenerator::new(RATE);
    g.apply(&AudioSignal::Chord(vec![440_000, 660_000]));
    let out = g.render(64, 2);
    assert_eq!(out.len(), 128);
    for f in 0..64 {
        assert_eq!(out[2 * f], out[2 * f + 1]);
    }
}

#[test]
fn render_matches_next_sample_stream() {
    let mut a = ChordGenerator::new(RATE);
    let mut b = ChordGenerator::new(RATE);
    a.apply(&AudioSignal::Chord(vec![440_000, 550_000]));
    b.apply(&AudioSignal::Chord(vec![440_000, 550_000]));
    let out = a.render(32, 3);
    for f in 0..32 {
        let s = b.next_sample();
        for c in 0..3 {
            assert_eq!(out[3 * f + c], s);
        }
    }
    assert_eq!(a.voices.phases, b.voices.phases);
}

#[test]
fn oscillator_set_starts_empty() {
    let o = OscillatorSet::new();
    assert_eq!(o.frequencies.len(), 0);
    assert_eq!(o.phases.len(), 0);
}
