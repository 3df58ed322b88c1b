use rust_harp::notes::{
    pitch_class_label, prefer_flats_for_key, MidiNote, PitchClassSet, Transpose, UnkeyedNote,
    UnmidiNote, UnrootedNote,
};

#[test]
fn transpose_center_octave() {
    for pair in [
        (0, 0),
        (6, 6),
        (7, -5),
        (12, 0),
        (13, 1),
        (19, -5),
        (-5, -5),
        (-6, 6),
        (-7, 5),
    ] {
        assert_eq!(Transpose(pair.0).center_octave(), Transpose(pair.1));
    }
}

#[test]
fn transpose_add_unkeyed_note() {
    for triple in [(0, 0, 0), (10, 5, 15), (-2, 4, 2), (-8, -10, -18)] {
        assert_eq!(
            Transpose(triple.0) + UnkeyedNote(triple.1),
            UnmidiNote(triple.2)
        );
    }
}

#[test]
fn transpose_add_unmidi_note() {
    for triple in [(0, 60, 60), (10, 60, 70), (-55, 60, 5)] {
        assert_eq!(
            Transpose(triple.0) + UnmidiNote(triple.1),
            MidiNote(triple.2 as u8)
        );
    }
}

#[test]
fn transpose_add_unmidi_note_clamped() {
    for triple in [(-61, 60, 0), (100, 200, 127), (200, 0, 127), (-200, 60, 0)] {
        assert_eq!(
            Transpose(triple.0) + UnmidiNote(triple.1),
            MidiNote(triple.2 as u8)
        );
    }
}

#[test]
fn unkeyed_wraps_to_octave() {
    for pair in [(0, 0), (12, 0), (14, 2), (-1, 11), (-14, 10)] {
        assert_eq!(UnkeyedNote(pair.0).wrap_to_octave(), pair.1);
    }
}

#[test]
fn interval_between_notes_in_semitones() {
    assert_eq!((MidiNote(72) - MidiNote(60)).semitones(), 12);
    assert_eq!((MidiNote(35) - MidiNote(80)).semitones(), -45);
    assert_eq!((UnkeyedNote(4) - UnkeyedNote(11)).semitones(), -7);
    assert_eq!(UnmidiNote(16) - Transpose(12), UnkeyedNote(4));
    assert_eq!(MidiNote(60) - Transpose(48), UnmidiNote(12));
}

#[test]
fn extreme_notes_wrap_without_overflow() {
    assert_eq!(UnkeyedNote(i16::MIN).wrap_to_octave(), 4);
    assert_eq!(UnkeyedNote(i16::MAX).wrap_to_octave(), 7);
    assert_eq!(Transpose(i16::MIN).center_octave(), Transpose(4));
}

#[test]
fn pitch_class_set_insert_remove_contains() {
    let mut s = PitchClassSet(PitchClassSet::ROOT_ONLY);
    assert!(s.contains(UnrootedNote(0)));
    assert!(!s.contains(UnrootedNote(7)));
    s.insert(UnrootedNote(7));
    assert!(s.contains(UnrootedNote(7)));
    assert_eq!(s, PitchClassSet(0b000010000001));
    s.remove(UnrootedNote(0));
    assert_eq!(s, PitchClassSet(0b000010000000));
    s.remove(UnrootedNote(3));
    assert_eq!(s, PitchClassSet(0b000010000000));
}

#[test]
fn flat_keys_are_db_eb_f_ab_bb() {
    let flats: Vec<i16> = (0..12).filter(|k| prefer_flats_for_key(*k)).collect();
    assert_eq!(flats, vec![1, 3, 5, 8, 10]);
    assert!(prefer_flats_for_key(-7));
    assert!(!prefer_flats_for_key(-5));
}

#[test]
fn pitch_class_label_wraps_negative_classes() {
    assert_eq!(pitch_class_label(-1, 0), "B");
    assert_eq!(pitch_class_label(13, 10), "Db");
    assert_eq!(pitch_class_label(0, 1), "C");
}
