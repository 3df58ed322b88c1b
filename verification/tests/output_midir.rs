use rust_harp::notes::{MidiNote, NoteVolume};
use rust_harp::output_midir::MidiBackend;

#[test]
fn play_low_note_sounds_on_both_channels() {
    let b = MidiBackend::new(0, 2);
    // Note 35 is the bottom of the crossfade: main at half volume, bass at full.
    let msgs = b.play_note(MidiNote(35), NoteVolume(100));
    assert_eq!(msgs, vec![[0x90, 35, 50], [0x82, 35, 0], [0x92, 35, 100]]);
}

#[test]
fn play_high_note_sounds_on_main_only() {
    let b = MidiBackend::new(0, 2);
    let msgs = b.play_note(MidiNote(90), NoteVolume(100));
    assert_eq!(msgs, vec![[0x90, 90, 100]]);
}

#[test]
fn play_at_zero_volume_sends_nothing() {
    let b = MidiBackend::new(0, 2);
    assert!(b.play_note(MidiNote(60), NoteVolume(0)).is_empty());
}

#[test]
fn stop_sends_note_off_on_both_channels() {
    let b = MidiBackend::new(1, 18);
    // Channels are masked to their low four bits.
    assert_eq!(b.stop_note(MidiNote(60)), vec![[0x81, 60, 0], [0x82, 60, 0]]);
    assert_eq!(MidiBackend::note_on_messages(3, MidiNote(20), 0), vec![[0x83, 20, 0]]);
}
