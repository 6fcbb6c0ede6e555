use gregory::dsp::{EnvelopeStage, FilterMode, Voice, Waveform};

#[test]
fn gate_on_starts_attack_from_any_stage() {
    for s in [EnvelopeStage::Idle, EnvelopeStage::Attack, EnvelopeStage::Decay, EnvelopeStage::Sustain, EnvelopeStage::Release] {
        assert_eq!(s.gate_on(), EnvelopeStage::Attack);
    }
}

#[test]
fn gate_off_releases_unless_idle() {
    assert_eq!(EnvelopeStage::Idle.gate_off(), EnvelopeStage::Idle);
    assert_eq!(EnvelopeStage::Attack.gate_off(), EnvelopeStage::Release);
    assert_eq!(EnvelopeStage::Sustain.gate_off(), EnvelopeStage::Release);
    assert_eq!(EnvelopeStage::Release.gate_off(), EnvelopeStage::Release);
}

#[test]
fn stage_sequence_when_goals_are_reached() {
    let mut s = EnvelopeStage::Idle;
    assert_eq!(s.after_sample(true), EnvelopeStage::Idle);
    s = s.gate_on();
    assert_eq!(s, EnvelopeStage::Attack);
    assert_eq!(s.after_sample(false), EnvelopeStage::Attack);
    s = s.after_sample(true);
    assert_eq!(s, EnvelopeStage::Decay);
    s = s.after_sample(true);
    assert_eq!(s, EnvelopeStage::Sustain);
    assert_eq!(s.after_sample(true), EnvelopeStage::Sustain);
    s = s.gate_off();
    assert_eq!(s, EnvelopeStage::Release);
    assert_eq!(s.after_sample(false), EnvelopeStage::Release);
    assert_eq!(s.after_sample(true), EnvelopeStage::Idle);
}

#[test]
fn voice_wrong_note_off_is_ignored() {
    let mut v = Voice::new();
    v.note_on(60);
    assert!(!v.note_off(61));
    assert_eq!(v.current_note(), Some(60));
    assert!(v.is_active(EnvelopeStage::Sustain));
}

#[test]
fn voice_note_off_releases_and_goes_idle() {
    let mut v = Voice::new();
    assert!(!v.is_active(EnvelopeStage::Idle));
    v.note_on(60);
    assert!(v.is_active(EnvelopeStage::Attack));
    assert!(v.note_off(60));
    assert_eq!(v.current_note(), None);
    assert!(v.is_active(EnvelopeStage::Release));
    assert!(!v.is_active(EnvelopeStage::Idle));
}

#[test]
fn voice_new_note_replaces_old() {
    let mut v = Voice::new();
    v.note_on(60);
    v.note_on(64);
    assert!(!v.note_off(60));
    assert_eq!(v.current_note(), Some(64));
}

#[test]
fn filter_output_stage() {
    assert_eq!(FilterMode::LowPass.output_stage(), 3);
    assert_eq!(FilterMode::LowPass2Pole.output_stage(), 1);
}

#[test]
fn only_square_uses_pulse_width() {
    assert!(Waveform::Square.uses_pulse_width());
    assert!(!Waveform::Sawtooth.uses_pulse_width());
}
