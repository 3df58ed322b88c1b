use rust_harp::app_state::{
    ActionButton, Actions, AppEffects, AppState, ChordButton, KeyEvent, KeyState, ModButton, NoteOn,
    DEFAULT_STRUM_VOLUME,
};
use rust_harp::app_state::{empty_effects, merge_effects, BendNote, EffectCommand};
use rust_harp::chord::Modifiers;
use rust_harp::touch::PointerId;
use rust_harp::notes::{NoteVolume, Transpose, UnkeyedNote, UnmidiNote};

const ROOT_V: UnkeyedNote = UnkeyedNote(7);

fn press_chord(state: &mut AppState, button: ChordButton) -> AppEffects {
    state.handle_key_event(KeyEvent::Chord {
        state: KeyState::Pressed,
        button,
    })
}

fn release_chord(state: &mut AppState, button: ChordButton) -> AppEffects {
    state.handle_key_event(KeyEvent::Chord {
        state: KeyState::Released,
        button,
    })
}

fn press_modifier(state: &mut AppState, button: ModButton, modifiers: Modifiers) {
    state.handle_key_event(KeyEvent::Modifier {
        state: KeyState::Pressed,
        button,
        modifiers,
    });
}

fn strum(state: &mut AppState, row: usize, note: i16) -> AppEffects {
    state.handle_key_event(KeyEvent::StrumCrossing {
        row,
        note: UnkeyedNote(note),
        volume: NoteVolume(DEFAULT_STRUM_VOLUME),
    })
}

fn sorted_active(state: &AppState) -> Vec<i16> {
    let mut v: Vec<i16> = state.active_notes().iter().map(|n| n.0).collect();
    v.sort();
    v
}

#[test]
fn pressing_chord_sets_active_chord() {
    let mut state = AppState::new();

    press_chord(&mut state, ChordButton::V);

    let chord = state.active_chord;
    assert_eq!(chord.get_root(), ROOT_V);
}

#[test]
fn modifier_applies_to_next_chord() {
    let mut state = AppState::new();

    press_modifier(&mut state, ModButton::Minor7, Modifiers::add_minor7());
    press_chord(&mut state, ChordButton::I);

    let chord = state.active_chord;
    assert!(chord.contains(UnkeyedNote(10))); // minor 7
}

#[test]
fn fixed_rows_have_expected_note_sets() {
    let state = AppState::new();

    let major = state.chord_for_row(1);
    for pc in 0..12 {
        let n = UnkeyedNote(pc);
        let exp = matches!(pc, 0 | 2 | 4 | 5 | 7 | 9 | 11);
        assert_eq!(major.contains(n), exp);
    }

    let comp = state.chord_for_row(2);
    for pc in 0..12 {
        let n = UnkeyedNote(pc);
        assert_eq!(comp.contains(n), !major.contains(n));
    }

    let chrom = state.chord_for_row(3);
    for pc in 0..12 {
        assert!(chrom.contains(UnkeyedNote(pc)));
    }
}

#[test]
fn change_key_sets_transpose() {
    let mut state = AppState::new();

    let effects = state.handle_key_event(KeyEvent::Action {
        state: KeyState::Pressed,
        button: ActionButton::ChangeKey,
        action: Actions::change_key(),
    });

    // No chord yet, no key change
    assert!(effects.change_key.is_none());

    // Now key change has been enqueued, the next chord button will change it:
    let effects = press_chord(&mut state, ChordButton::V);
    assert_eq!(effects.change_key, Some(Transpose(-5)));
    assert_eq!(state.transpose, Transpose(-5));

    // Reset all keypresses
    let mut state = AppState::new();

    // Chord first, no key change
    let effects = press_chord(&mut state, ChordButton::III);
    assert!(effects.change_key.is_none());

    // Changekey button, key change
    let effects = state.handle_key_event(KeyEvent::Action {
        state: KeyState::Pressed,
        button: ActionButton::ChangeKey,
        action: Actions::change_key(),
    });
    assert_eq!(effects.change_key, Some(Transpose(4)));
    assert_eq!(state.transpose, Transpose(4));
}

#[test]
fn stop_notes_only_returns_active_notes() {
    let mut state = AppState::new();

    state.active_notes.insert(UnmidiNote(0));
    state.active_notes.insert(UnmidiNote(1));

    press_chord(&mut state, ChordButton::I);

    let effects = state.handle_key_event(KeyEvent::Chord {
        state: KeyState::Pressed,
        button: ChordButton::V,
    });

    assert!(effects.stop_notes.len() <= 2);
}

#[test]
fn strum_crossing_in_chord_returns_note_and_records_active() {
    let mut state = AppState::new();
    state.transpose = Transpose(12);

    let effects = state.handle_key_event(KeyEvent::StrumCrossing {
        row: 0,
        note: UnkeyedNote(4),
        volume: NoteVolume(DEFAULT_STRUM_VOLUME),
    });

    assert_eq!(
        effects.play_notes,
        vec![NoteOn {
            note: UnmidiNote(16),
            volume: NoteVolume(DEFAULT_STRUM_VOLUME),
            pointer: None,
        }]
    );
    assert!(state.active_notes.contains(&UnmidiNote(16)));
}

#[test]
fn strum_crossing_outside_chord_is_filtered_out() {
    let mut state = AppState::new();
    state.transpose = Transpose(12);

    let effects = state.handle_key_event(KeyEvent::StrumCrossing {
        row: 0,
        note: UnkeyedNote(3),
        volume: NoteVolume(DEFAULT_STRUM_VOLUME),
    });

    assert!(effects.play_notes.is_empty());
    assert!(state.active_notes.is_empty());
}

#[test]
fn repeated_strum_does_not_duplicate_active_notes() {
    let mut state = AppState::new();

    let effects1 = state.handle_key_event(KeyEvent::StrumCrossing {
        row: 0,
        note: UnkeyedNote(0),
        volume: NoteVolume(DEFAULT_STRUM_VOLUME),
    });
    let effects2 = state.handle_key_event(KeyEvent::StrumCrossing {
        row: 0,
        note: UnkeyedNote(0),
        volume: NoteVolume(DEFAULT_STRUM_VOLUME),
    });

    assert_eq!(effects1.play_notes.len(), 1);
    assert!(effects1.stop_notes.is_empty());

    // Retrigger: we should stop then play, so there is still only one active instance.
    assert_eq!(effects2.play_notes.len(), 1);
    assert_eq!(effects2.stop_notes, vec![UnmidiNote(0)]);
    assert_eq!(state.active_notes.len(), 1); // no duplicates
}

#[test]
fn chord_change_stops_and_clears_active_notes() {
    let mut state = AppState::new();

    state.handle_key_event(KeyEvent::StrumCrossing {
        row: 0,
        note: UnkeyedNote(0),
        volume: NoteVolume(DEFAULT_STRUM_VOLUME),
    });
    state.handle_key_event(KeyEvent::StrumCrossing {
        row: 0,
        note: UnkeyedNote(4),
        volume: NoteVolume(DEFAULT_STRUM_VOLUME),
    });

    assert!(state.active_notes.contains(&UnmidiNote(0)));
    assert!(state.active_notes.contains(&UnmidiNote(4)));

    let effects = press_chord(&mut state, ChordButton::V);

    assert!(effects.stop_notes.contains(&UnmidiNote(0)));
    assert!(effects.stop_notes.contains(&UnmidiNote(4)));
    assert!(!state.active_notes.contains(&UnmidiNote(0)));
    assert!(!state.active_notes.contains(&UnmidiNote(4)));
}

#[test]
fn chord_change_keeps_notes_of_lower_rows() {
    let mut state = AppState::new();
    strum(&mut state, 3, 1);
    strum(&mut state, 0, 0);
    let effects = press_chord(&mut state, ChordButton::V);
    assert_eq!(effects.stop_notes, vec![UnmidiNote(0)]);
    assert_eq!(sorted_active(&state), vec![1]);
}

#[test]
fn releasing_last_chord_button_keeps_the_chord() {
    let mut state = AppState::new();
    press_chord(&mut state, ChordButton::VI);
    let effects = release_chord(&mut state, ChordButton::VI);
    assert!(effects.redraw);
    assert!(effects.stop_notes.is_empty() && effects.play_notes.is_empty());
    assert_eq!(state.active_chord.get_root(), UnkeyedNote(9));
    assert!(!state.chord_button_down(ChordButton::VI));
}

#[test]
fn neighbouring_buttons_imply_a_seventh() {
    let mut state = AppState::new();
    press_chord(&mut state, ChordButton::V);
    press_chord(&mut state, ChordButton::I);
    let c = state.active_chord;
    assert_eq!(c.get_root(), UnkeyedNote(7));
    assert_eq!(c.get_mods(), Modifiers::major_tri() | Modifiers::add_minor7());

    let mut state = AppState::new();
    state.set_allow_implied_sevenths(false);
    press_chord(&mut state, ChordButton::V);
    press_chord(&mut state, ChordButton::I);
    // The first button of the table order (I before V) wins.
    assert_eq!(state.active_chord.get_root(), UnkeyedNote(0));
    assert_eq!(state.active_chord.get_mods(), Modifiers::major_tri());
}

#[test]
fn heptatonic_button_ignores_wheel_modifiers() {
    let mut state = AppState::new();
    state.set_wheel_modifiers(Modifiers::add_minor7());
    press_chord(&mut state, ChordButton::HeptatonicMajor);
    let c = state.active_chord;
    let pcs: Vec<i16> = (0..12).filter(|&n| c.contains(UnkeyedNote(n))).collect();
    assert_eq!(pcs, vec![0, 2, 4, 5, 7, 9, 11]);

    let mut state = AppState::new();
    state.set_wheel_modifiers(Modifiers::add_minor7());
    press_chord(&mut state, ChordButton::IV);
    assert!(state.active_chord.contains(UnkeyedNote(15)));
}

#[test]
fn wheel_change_rebuilds_the_held_chord() {
    let mut state = AppState::new();
    press_chord(&mut state, ChordButton::II);
    state.set_wheel_modifiers(Modifiers::switch_minor_major());
    // A repeated press of a held button re-decides the chord with the new wheel.
    press_chord(&mut state, ChordButton::II);
    assert!(state.active_chord.contains(UnkeyedNote(6)));
    state.toggle_wheel_minor_major();
    press_chord(&mut state, ChordButton::II);
    assert!(state.active_chord.contains(UnkeyedNote(5)));
    assert!(!state.active_chord.contains(UnkeyedNote(6)));
}

#[test]
fn pulse_plays_every_chord_note_in_range() {
    let mut state = AppState::new();
    state.handle_key_event(KeyEvent::Action {
        state: KeyState::Pressed,
        button: ActionButton::Pulse,
        action: Actions::pulse(),
    });
    let effects = press_chord(&mut state, ChordButton::I);
    let notes: Vec<i16> = effects.play_notes.iter().map(|n| n.note.0).collect();
    let expected: Vec<i16> = (-12..70).filter(|n: &i16| matches!(n.rem_euclid(12), 0 | 4 | 7)).collect();
    assert_eq!(notes, expected);
    assert!(effects.play_notes.iter().all(|n| n.volume == NoteVolume(50) && n.pointer.is_none()));
    assert!(effects.stop_notes.is_empty());
    // A second pulse re-triggers them all.
    state.handle_key_event(KeyEvent::Action {
        state: KeyState::Pressed,
        button: ActionButton::Pulse,
        action: Actions::pulse(),
    });
    state.handle_key_event(KeyEvent::Action {
        state: KeyState::Released,
        button: ActionButton::Pulse,
        action: Actions::pulse(),
    });
    let effects = state.handle_key_event(KeyEvent::Action {
        state: KeyState::Pressed,
        button: ActionButton::Pulse,
        action: Actions::pulse(),
    });
    let stops: Vec<i16> = effects.stop_notes.iter().map(|n| n.0).collect();
    assert_eq!(stops, expected);
}

#[test]
fn set_transpose_stops_everything() {
    let mut state = AppState::new();
    strum(&mut state, 0, 0);
    strum(&mut state, 2, 1);
    let effects = state.set_transpose(Transpose(19));
    let mut stops: Vec<i16> = effects.stop_notes.iter().map(|n| n.0).collect();
    stops.sort();
    assert_eq!(stops, vec![0, 1]);
    assert_eq!(effects.change_key, Some(Transpose(-5)));
    assert!(effects.redraw);
    assert!(state.active_notes.is_empty());
    assert_eq!(state.transpose(), Transpose(-5));
}

#[test]
fn row_chords_cover_every_row() {
    let state = AppState::new();
    let chords = state.row_chords();
    assert_eq!(chords.len(), 4);
    assert_eq!(chords[0], state.active_chord);
    assert_eq!(state.row_specs().len(), 4);
    // Rows past the end follow the active chord.
    assert_eq!(state.chord_for_row(9), state.active_chord);
}

#[test]
fn apply_all_orders_stops_before_plays() {
    let effects = AppEffects {
        stop_notes: vec![UnmidiNote(1), UnmidiNote(2)],
        play_notes: vec![NoteOn {
            note: UnmidiNote(2),
            volume: NoteVolume(70),
            pointer: None,
        }],
        bend_notes: vec![BendNote {
            pointer: PointerId(4),
            target: UnmidiNote(5),
        }],
        stop_bend_pointers: vec![PointerId(3)],
        redraw: false,
        change_key: None,
    };
    let (commands, played) = effects.apply_all();
    assert!(played);
    assert_eq!(
        commands,
        vec![
            EffectCommand::Stop(UnmidiNote(1)),
            EffectCommand::Stop(UnmidiNote(2)),
            EffectCommand::StopPointer(PointerId(3)),
            EffectCommand::Play(NoteOn {
                note: UnmidiNote(2),
                volume: NoteVolume(70),
                pointer: None,
            }),
            EffectCommand::Bend(BendNote {
                pointer: PointerId(4),
                target: UnmidiNote(5),
            }),
        ]
    );
    let (_, played) = empty_effects().apply_all();
    assert!(!played);
}

#[test]
fn merge_effects_concatenates_and_keeps_first_key() {
    let mut a = empty_effects();
    a.stop_notes.push(UnmidiNote(1));
    a.change_key = Some(Transpose(2));
    let mut b = empty_effects();
    b.stop_notes.push(UnmidiNote(3));
    b.redraw = true;
    b.change_key = Some(Transpose(5));
    merge_effects(&mut a, b);
    assert_eq!(a.stop_notes, vec![UnmidiNote(1), UnmidiNote(3)]);
    assert!(a.redraw);
    assert_eq!(a.change_key, Some(Transpose(2)));
}
