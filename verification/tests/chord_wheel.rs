use rust_harp::app_state::ChordButton;
use rust_harp::chord::Modifiers;
use rust_harp::chord_wheel::{modifiers_for, WheelDir8};

#[test]
fn major_iv_mapping_examples() {
    assert_eq!(
        modifiers_for(ChordButton::IV, WheelDir8::N),
        Modifiers::add_minor7()
    );
    assert_eq!(
        modifiers_for(ChordButton::IV, WheelDir8::NW),
        Modifiers::add_major7()
    );
    assert_eq!(modifiers_for(ChordButton::IV, WheelDir8::W), Modifiers::sus4());
}

#[test]
fn minor_iii_mapping_examples() {
    assert_eq!(
        modifiers_for(ChordButton::III, WheelDir8::S),
        Modifiers::add_minor7()
    );
    assert_eq!(
        modifiers_for(ChordButton::III, WheelDir8::N),
        Modifiers::switch_minor_major() | Modifiers::add_minor7()
    );
}

#[test]
fn wheel_directions_roundtrip_through_indices() {
    for i in 0..8 {
        let d = WheelDir8::from_i32(i).unwrap();
        assert_eq!(d.index() as i32, i);
    }
    assert_eq!(WheelDir8::from_i32(8), None);
    assert_eq!(WheelDir8::from_i32(-1), None);
}

#[test]
fn minor_and_major_presets_mirror_each_other() {
    assert_eq!(
        modifiers_for(ChordButton::I, WheelDir8::S),
        Modifiers::switch_minor_major() | Modifiers::add_minor7()
    );
    assert_eq!(
        modifiers_for(ChordButton::VI, WheelDir8::SE),
        Modifiers::add_minor7() | Modifiers::add_major2()
    );
    assert_eq!(
        modifiers_for(ChordButton::HeptatonicMajor, WheelDir8::E),
        Modifiers::add_major2()
    );
}
