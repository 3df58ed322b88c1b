use rust_harp::ui_settings::{decode_settings, encode_settings, UiAudioBackend, UiSettings};

#[test]
fn cycle_desktop_audio_backend() {
    assert_eq!(UiAudioBackend::Midi.cycle_desktop(), UiAudioBackend::Synth);
    assert_eq!(UiAudioBackend::Synth.cycle_desktop(), UiAudioBackend::Midi);
    // Non-desktop values fall back to a sensible default.
    assert_eq!(UiAudioBackend::AAudio.cycle_desktop(), UiAudioBackend::Midi);
}

#[test]
fn cycle_android_audio_backend() {
    assert_eq!(UiAudioBackend::AAudio.cycle_android(), UiAudioBackend::AudioTrack);
    assert_eq!(UiAudioBackend::AudioTrack.cycle_android(), UiAudioBackend::AAudio);
    // Non-android values fall back to a sensible default.
    assert_eq!(UiAudioBackend::Midi.cycle_android(), UiAudioBackend::AAudio);
}

#[test]
fn default_settings_values() {
    let s = UiSettings::default();
    assert!(!s.show_note_names);
    assert!(s.play_on_tap);
    assert!(s.show_roman_chords);
    assert!(s.show_chord_buttons);
    assert_eq!(s.audio_backend, UiAudioBackend::Midi);
    assert_eq!(s.a4_tuning_hz, 440);
    assert!(!s.bend_notes);
}

#[test]
fn desktop_settings_roundtrip() {
    let s = UiSettings {
        show_note_names: true,
        play_on_tap: false,
        show_roman_chords: false,
        show_chord_buttons: true,
        audio_backend: UiAudioBackend::Synth,
        a4_tuning_hz: 432,
        bend_notes: false,
    };

    let enc = encode_settings(&s);
    let dec = decode_settings(&enc);
    assert_eq!(dec.show_note_names, true);
    assert_eq!(dec.play_on_tap, false);
    assert_eq!(dec.show_roman_chords, false);
    assert_eq!(dec.audio_backend, UiAudioBackend::Synth);
    assert_eq!(dec.a4_tuning_hz, 432);
}

#[test]
fn encode_settings_exact_text() {
    let s = UiSettings::default();
    assert_eq!(
        encode_settings(&s),
        "show_note_names=false\nplay_on_tap=true\nshow_roman_chords=true\naudio_backend=midi\na4_tuning_hz=440\n"
    );
}

#[test]
fn encode_settings_stores_android_backend_as_midi() {
    let s = UiSettings {
        audio_backend: UiAudioBackend::AAudio,
        ..UiSettings::default()
    };
    let dec = decode_settings(&encode_settings(&s));
    assert_eq!(dec.audio_backend, UiAudioBackend::Midi);
}

#[test]
fn roundtrip_clamps_tuning_and_resets_unstored_fields() {
    let s = UiSettings {
        show_chord_buttons: false,
        bend_notes: true,
        a4_tuning_hz: 999,
        ..UiSettings::default()
    };
    let dec = decode_settings(&encode_settings(&s));
    assert_eq!(dec.a4_tuning_hz, 450);
    assert!(dec.show_chord_buttons);
    assert!(!dec.bend_notes);
}

#[test]
fn decode_settings_empty_gives_defaults() {
    assert_eq!(decode_settings(""), UiSettings::default());
    assert_eq!(decode_settings("garbage\n=\nno_such_key=1\n"), UiSettings::default());
}

#[test]
fn decode_settings_trims_and_clamps() {
    let d = decode_settings("  a4_tuning_hz =  +400 \r\n show_note_names= true\n");
    assert_eq!(d.a4_tuning_hz, 430);
    assert!(d.show_note_names);
    let d = decode_settings("a4_tuning_hz=445");
    assert_eq!(d.a4_tuning_hz, 445);
}

#[test]
fn decode_settings_ignores_bad_numbers() {
    assert_eq!(decode_settings("a4_tuning_hz=70000\n").a4_tuning_hz, 440);
    assert_eq!(decode_settings("a4_tuning_hz=4a0\n").a4_tuning_hz, 440);
    assert_eq!(decode_settings("a4_tuning_hz=\n").a4_tuning_hz, 440);
    assert_eq!(decode_settings("a4_tuning_hz=-435\n").a4_tuning_hz, 440);
}

#[test]
fn decode_settings_switch_values() {
    let d = decode_settings("play_on_tap=no\nshow_roman_chords=false\nshow_note_names=yes\naudio_backend=SYNTH\n");
    assert!(d.play_on_tap);
    assert!(!d.show_roman_chords);
    assert!(!d.show_note_names);
    assert_eq!(d.audio_backend, UiAudioBackend::Midi);
    let d = decode_settings("audio_backend=synth\naudio_backend=midi\n");
    assert_eq!(d.audio_backend, UiAudioBackend::Midi);
}
