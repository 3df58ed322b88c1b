use rust_harp::app_state::{ActionButton, Actions, ChordButton, KeyEvent, KeyState, ModButton};
use rust_harp::chord::Modifiers;
use rust_harp::input_map::{key_event_from_ui, key_events_from_button, UiButton, UiKey};

#[test]
fn stable_key_map_examples() {
    assert_eq!(
        key_event_from_ui(KeyState::Pressed, UiKey::Char('d')),
        Some(KeyEvent::Chord {
            state: KeyState::Pressed,
            button: ChordButton::I,
        })
    );
    assert_eq!(
        key_event_from_ui(KeyState::Pressed, UiKey::Control),
        Some(KeyEvent::Chord {
            state: KeyState::Pressed,
            button: ChordButton::HeptatonicMajor,
        })
    );
    assert_eq!(
        key_event_from_ui(KeyState::Pressed, UiKey::Char('6')),
        Some(KeyEvent::Modifier {
            state: KeyState::Pressed,
            button: ModButton::Minor7,
            modifiers: Modifiers::add_minor7(),
        })
    );
    assert_eq!(
        key_event_from_ui(KeyState::Pressed, UiKey::Tab),
        Some(KeyEvent::Action {
            state: KeyState::Pressed,
            button: ActionButton::Pulse,
            action: Actions::pulse(),
        })
    );
}

#[test]
fn ui_button_vi_maps_to_vi_chord() {
    let pressed = key_events_from_button(KeyState::Pressed, UiButton::VI);
    assert_eq!(
        pressed,
        vec![KeyEvent::Chord {
            state: KeyState::Pressed,
            button: ChordButton::VI,
        }]
    );
}

#[test]
fn unmapped_keys_give_no_event() {
    assert_eq!(key_event_from_ui(KeyState::Released, UiKey::Char('q')), None);
    assert_eq!(
        key_event_from_ui(KeyState::Released, UiKey::Char('1')),
        Some(KeyEvent::Action {
            state: KeyState::Released,
            button: ActionButton::ChangeKey,
            action: Actions::change_key(),
        })
    );
}

#[test]
fn ui_button_ids_and_indices_roundtrip() {
    for (i, b) in UiButton::order().iter().enumerate() {
        assert_eq!(b.index(), i);
        assert_eq!(UiButton::from_index(i), Some(*b));
        assert_eq!(UiButton::from_id(b.id()), Some(*b));
    }
    assert_eq!(UiButton::from_index(UiButton::COUNT), None);
    assert_eq!(UiButton::from_index(256 + 3), None);
    assert_eq!(UiButton::from_index(usize::MAX), None);
    assert_eq!(UiButton::from_id("  VII_Dim\t"), Some(UiButton::VIIDim));
    assert_eq!(UiButton::from_id("MINOR_major\u{3000}"), Some(UiButton::MinorMajor));
    assert_eq!(UiButton::from_id("vii dim"), None);
    assert_eq!(UiButton::from_id(""), None);
}

#[test]
fn modifier_buttons_map_to_modifier_events() {
    assert_eq!(
        key_events_from_button(KeyState::Released, UiButton::Sus4),
        vec![KeyEvent::Modifier {
            state: KeyState::Released,
            button: ModButton::Sus4,
            modifiers: Modifiers::sus4(),
        }]
    );
    assert_eq!(
        key_events_from_button(KeyState::Pressed, UiButton::VIIDim),
        vec![KeyEvent::Chord {
            state: KeyState::Pressed,
            button: ChordButton::VII,
        }]
    );
}
