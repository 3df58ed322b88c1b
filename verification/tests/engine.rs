use rust_harp::app_state::{ChordButton, KeyEvent, KeyState, ModButton};
use rust_harp::chord::Modifiers;
use rust_harp::engine::Engine;
use rust_harp::notes::{NoteVolume, Transpose, UnkeyedNote, UnmidiNote};

#[test]
fn engine_forwards_events_to_state() {
    let mut e = Engine::new();
    assert_eq!(e.transpose(), Transpose(0));
    let fx = e.handle_strum_crossing(0, UnkeyedNote(7), NoteVolume(90));
    assert_eq!(fx.play_notes.len(), 1);
    assert_eq!(e.active_notes(), vec![UnmidiNote(7)]);
    e.handle_event(KeyEvent::Modifier {
        state: KeyState::Pressed,
        button: ModButton::No3,
        modifiers: Modifiers::no3(),
    });
    assert!(e.mod_button_down(ModButton::No3));
    e.handle_event(KeyEvent::Chord {
        state: KeyState::Pressed,
        button: ChordButton::VI,
    });
    assert!(e.chord_button_down(ChordButton::VI));
    assert_eq!(e.active_chord().get_root(), UnkeyedNote(9));
    assert!(!e.active_chord().contains(UnkeyedNote(12)));
    assert_eq!(e.active_chord_for_row(3), rust_harp::chord::Chord::chromatic(UnkeyedNote(0)));
    assert_eq!(e.row_chords().len(), e.row_specs().len());
    let fx = e.set_transpose(Transpose(3));
    assert_eq!(fx.change_key, Some(Transpose(3)));
    assert_eq!(e.transpose(), Transpose(3));
}
