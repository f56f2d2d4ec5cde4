use sonify::tone::NoteWave;
use sonify::UNIT;

const RATE: u32 = 44100;

#[test]
fn tone_starts_at_phase_zero() {
    let w = NoteWave::new(RATE, 440_000);
    assert_eq!(w.phase, 0);
    assert_eq!(w.sample_rate, RATE);
    assert_eq!(w.frequency_millihertz, 440_000);
}

#[test]
fn tone_samples_stay_within_full_scale() {
    let mut w = NoteWave::new(RATE, 440_000);
    for _ in 0..5000 {
        let s = w.next_sample();
        assert!(-UNIT <= s && s <= UNIT);
    }
}

#[test]
fn tone_phase_advances_by_exact_increment() {
    let mut w = NoteWave::new(RATE, 440_000);
    w.next_sample();
    let expected = ((440_000u128 << 32) / (1000u128 * RATE as u128) % (1u128 << 32)) as u64;
    assert_eq!(w.phase, expected);
}

#[test]
fn zero_frequency_tone_is_flat() {
    let mut w = NoteWave::new(RATE, 0);
    let first = w.next_sample();
    for _ in 0..100 {
        assert_eq!(w.next_sample(), first);
    }
    assert_eq!(w.phase, 0);
}

#[test]
fn tone_is_not_constant_at_audible_frequency() {
    let mut w = NoteWave::new(RATE, 440_000);
    let first = w.next_sample();
    let mut varied = false;
    for _ in 0..200 {
        if w.next_sample() != first {
            varied = true;
        }
    }
    assert!(varied);
}
