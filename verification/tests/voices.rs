use rust_harp::notes::MidiNote;
use rust_harp::voices::{voice_slot, VoiceSlot, MAX_VOICES};

#[test]
fn a_sounding_note_reuses_its_voice() {
    let playing = vec![MidiNote(60), MidiNote(64), MidiNote(67)];
    assert_eq!(voice_slot(&playing, MidiNote(64)), VoiceSlot::Reuse(1));
    assert_eq!(voice_slot(&playing, MidiNote(72)), VoiceSlot::Append);
}

#[test]
fn a_full_synth_drops_its_first_voice() {
    let playing: Vec<MidiNote> = (0..MAX_VOICES as u8).map(|i| MidiNote(40 + i)).collect();
    assert_eq!(voice_slot(&playing, MidiNote(100)), VoiceSlot::EvictFirst);
    assert_eq!(voice_slot(&playing, MidiNote(55)), VoiceSlot::Reuse(15));
    assert_eq!(voice_slot(&[], MidiNote(1)), VoiceSlot::Append);
}
