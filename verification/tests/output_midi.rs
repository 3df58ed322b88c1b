use rust_harp::notes::{MidiNote, NoteVolume};
use rust_harp::output_midi::MidiVelocityPair;

#[test]
fn midi_velocity_pair_zero_volume_mutes_both_channels() {
    let p = MidiVelocityPair::from_note_and_volume(MidiNote(60), NoteVolume(0));
    assert_eq!(p.main, 0);
    assert_eq!(p.bass, 0);
}

#[test]
fn midi_velocity_pair_clamps_low_and_high_note_ranges() {
    let base = NoteVolume(100);

    // Below MAIN_BASS_BOTTOM: bass dominates, main is at half (per fade curve)
    let low = MidiVelocityPair::from_note_and_volume(MidiNote(0), base);
    assert_eq!(low.main, 50);
    assert_eq!(low.bass, 100);

    // Above MAIN_BASS_TOP: main dominates, bass off
    let high = MidiVelocityPair::from_note_and_volume(MidiNote(127), base);
    assert_eq!(high.main, 100);
    assert_eq!(high.bass, 0);
}

#[test]
fn midi_velocity_pair_crossfades_in_the_middle() {
    // Halfway up the fade (note 35 + 22.5): 45/90 + ... exact values.
    let p = MidiVelocityPair::from_note_and_volume(MidiNote(58), NoteVolume(70));
    // main = round(70 * (45 + 23) / 90) = round(52.89) = 53; bass = round(70 * 22 / 45) = 34
    assert_eq!(p.main, 53);
    assert_eq!(p.bass, 34);
    // Loud notes stay within MIDI velocity range.
    let p = MidiVelocityPair::from_note_and_volume(MidiNote(10), NoteVolume(255));
    assert_eq!(p.bass, 127);
    assert_eq!(p.main, 127);
    // Quiet notes keep a velocity of at least 1 on the sounding channel.
    let p = MidiVelocityPair::from_note_and_volume(MidiNote(79), NoteVolume(1));
    assert_eq!(p.main, 1);
    assert_eq!(p.bass, 0);
}
