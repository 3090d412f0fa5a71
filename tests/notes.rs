use jam::instrument::{
    adsr, from_duration, HeldButtonInstrument, InstrumentParam, ATTACK_MILLIS, RELEASE_MILLIS,
};
use jam::params::{
    MiscValue, NoteParam, NoteParams, DEFAULT_AMPLITUDE_BITS, DEFAULT_ARTICULATION_BITS,
    DEFAULT_PITCH_BITS,
};

const RATE: u32 = 44_100;

#[test]
fn defaults_are_440_hz_amplitude_tenth_articulation_half() {
    let p = NoteParams::defaults();
    assert_eq!(f32::from_bits(p.pitch), 440.0);
    assert_eq!(f32::from_bits(p.amplitude), 0.1);
    assert_eq!(f32::from_bits(p.articulation), 0.5);
    assert_eq!(DEFAULT_PITCH_BITS, 440.0f32.to_bits());
    assert_eq!(DEFAULT_AMPLITUDE_BITS, 0.1f32.to_bits());
    assert_eq!(DEFAULT_ARTICULATION_BITS, 0.5f32.to_bits());
    assert!(p.other.is_empty());
}

#[test]
fn apply_changes_one_field() {
    let mut p = NoteParams::defaults();
    p.apply(NoteParam::Pitch(880.0f32.to_bits()));
    assert_eq!(f32::from_bits(p.pitch), 880.0);
    assert_eq!(p.amplitude, DEFAULT_AMPLITUDE_BITS);
    p.apply(NoteParam::Other("timbre".to_string(), MiscValue::Float(3)));
    p.apply(NoteParam::Other("timbre".to_string(), MiscValue::Float(4)));
    assert_eq!(p.other.len(), 1);
    assert!(matches!(p.other[0].1, MiscValue::Float(4)));
}

#[test]
fn frames_of_envelope_times_at_44100() {
    assert_eq!(from_duration(RATE, ATTACK_MILLIS), 2205);
    assert_eq!(from_duration(RATE, RELEASE_MILLIS), 22050);
}

#[test]
fn attack_ramps_linearly_over_50_ms() {
    let g = adsr(0, None, RATE);
    assert_eq!((g.num, g.den), (0, 2205));
    let g = adsr(1000, None, RATE);
    assert_eq!((g.num, g.den), (1000, 2205));
    let g = adsr(2205, None, RATE);
    assert_eq!((g.num, g.den), (4410, 4410));
    let g = adsr(3307, None, RATE);
    assert_eq!((g.num, g.den), (4410 - 1102, 4410));
    let g = adsr(4410, None, RATE);
    assert_eq!((g.num, g.den), (1, 2));
    let g = adsr(1_000_000, None, RATE);
    assert_eq!((g.num, g.den), (1, 2));
}

#[test]
fn release_ramps_from_sustain_to_zero() {
    let g = adsr(10_000, Some(10_000), RATE);
    assert_eq!((g.num, g.den), (22050, 44100));
    let g = adsr(21_025, Some(10_000), RATE);
    assert_eq!((g.num, g.den), (11025, 44100));
    let g = adsr(32_050, Some(10_000), RATE);
    assert_eq!(g.num, 0);
    let g = adsr(100_000, Some(10_000), RATE);
    assert_eq!(g.num, 0);
    // Before the mute the envelope is unaffected.
    let g = adsr(100, Some(10_000), RATE);
    assert_eq!((g.num, g.den), (100, 2205));
}

#[test]
fn envelope_never_exceeds_one() {
    for t in (0u64..60_000).step_by(37) {
        for m in [None, Some(0u64), Some(500), Some(3000), Some(20_000)] {
            let g = adsr(t, m, RATE);
            assert!(g.den > 0 && g.num <= g.den);
        }
    }
}

#[test]
fn tiny_sample_rate_has_no_division_by_zero() {
    let g = adsr(5, Some(1), 1);
    assert_eq!((g.num, g.den), (0, 1));
    let g = adsr(5, None, 1);
    assert_eq!((g.num, g.den), (1, 2));
}

#[test]
fn hit_then_attack_follows_ramp_at_440() {
    let mut inst = HeldButtonInstrument::new(RATE, 0);
    inst.set_param(InstrumentParam::NextNote(NoteParam::Pitch(440.0f32.to_bits())));
    let mut note = inst.note(0);
    for t in 0u64..2205 {
        let f = note.render(t);
        assert_eq!(f.handoff, None);
        assert_eq!(f32::from_bits(f.pitch), 440.0);
        assert_eq!((f.gain.num, f.gain.den), (t, 2205));
        let amp = f32::from_bits(f.amplitude);
        let phase = (t - f.change_at) as f32 * std::f32::consts::TAU * 440.0 / RATE as f32;
        let sample = phase.sin() * amp * f.gain.num as f32 / f.gain.den as f32;
        assert!(sample.abs() <= amp * (t as f32 / 2205.0) + 1e-6);
    }
}

#[test]
fn pitch_change_hands_off_phase_continuously() {
    let inst = HeldButtonInstrument::new(RATE, 0);
    let mut note = inst.note(0);
    let switch = 1323u64; // 30 ms
    let tau = std::f32::consts::TAU;
    let mut samples = vec![];
    let mut phase = 0.0f32;
    for t in 0u64..switch + 40 {
        if t == switch {
            note.set_param(NoteParam::Pitch(880.0f32.to_bits()));
        }
        let f = note.render(t);
        if let Some(h) = f.handoff {
            assert_eq!(t, switch);
            assert_eq!(h.since, 0);
            assert_eq!(f32::from_bits(h.pitch), 440.0);
            assert_eq!(f.change_at, switch);
            let p = f32::from_bits(h.phase)
                + (t - h.since) as f32 * tau * f32::from_bits(h.pitch) / RATE as f32;
            phase = p.rem_euclid(tau);
            note.set_change_phase(phase.to_bits());
        }
        let pitch = f32::from_bits(f.pitch);
        let x = phase + (t - f.change_at) as f32 * tau * pitch / RATE as f32;
        samples.push(x.sin() * f32::from_bits(f.amplitude) * f.gain.num as f32 / f.gain.den as f32);
    }
    let amp = 0.1f32;
    let eps = amp * tau * 880.0 / RATE as f32 * 1.5;
    for k in (switch as usize - 5)..(switch as usize + 5) {
        assert!((samples[k + 1] - samples[k]).abs() < eps);
    }
}

#[test]
fn mute_sets_release_start_at_next_render_and_finishes_after_release() {
    let inst = HeldButtonInstrument::new(RATE, 0);
    let mut note = inst.note(0);
    note.render(0);
    assert!(!note.finished(1_000_000));
    note.mute();
    assert!(note.mute_pending);
    note.render(4410);
    assert_eq!(note.mute_at, Some(4410));
    assert!(!note.finished(4410 + 22050));
    assert!(note.finished(4410 + 22051));
    assert!(note.finished(u64::MAX));
}

#[test]
fn finished_is_monotone() {
    let inst = HeldButtonInstrument::new(RATE, 0);
    let mut note = inst.note(0);
    note.mute();
    note.render(100);
    let mut seen = false;
    for r in (0u64..60_000).step_by(13) {
        let f = note.finished(r);
        assert!(!seen || f);
        seen |= f;
    }
    assert!(seen);
}

#[test]
fn instrument_other_parameter_goes_to_template() {
    let mut inst = HeldButtonInstrument::new(RATE, 1);
    inst.set_param(InstrumentParam::Other("shape".to_string(), MiscValue::String("saw".to_string())));
    let note = inst.note(3);
    assert_eq!(note.params.other.len(), 1);
    assert_eq!(note.params.other[0].0, "shape");
    assert_eq!(note.signal, 1);
}

#[test]
fn default_trait_gives_defaults() {
    let p = NoteParams::default();
    assert_eq!(p.pitch, DEFAULT_PITCH_BITS);
    assert_eq!(p.amplitude, DEFAULT_AMPLITUDE_BITS);
    assert_eq!(p.articulation, DEFAULT_ARTICULATION_BITS);
}
