use rust_harp::notes::{label_pitch_class, pitch_class_label, Transpose, UnkeyedNote};

#[test]
fn pitch_class_label_prefers_flats_in_flat_keys() {
    // Key E (4): prefer sharps.
    assert_eq!(pitch_class_label(8, 4), "G#");
    assert_eq!(pitch_class_label(1, 4), "C#");

    // Key Db (1): prefer flats.
    assert_eq!(pitch_class_label(8, 1), "Ab");
    assert_eq!(pitch_class_label(1, 1), "Db");
    assert_eq!(pitch_class_label(6, 1), "Gb");
}

#[test]
fn label_pitch_class_applies_transpose() {
    assert_eq!(
        label_pitch_class(UnkeyedNote(0), Transpose(2).wrap_to_octave()),
        2
    ); // C -> D
    assert_eq!(
        label_pitch_class(UnkeyedNote(11), Transpose(2).wrap_to_octave()),
        1
    ); // B -> C#
}
