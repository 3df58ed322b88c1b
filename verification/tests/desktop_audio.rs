use rust_harp::app_state::{AppEffects, BendNote, NoteOn};
use rust_harp::desktop_audio::{midi_base_transpose, process_app_effects, AudioCall};
use rust_harp::notes::{MidiNote, NoteVolume, UnmidiNote};
use rust_harp::touch::PointerId;

#[test]
fn process_app_effects_applies_stop_before_play_and_returns_played() {
    let effects = AppEffects {
        stop_notes: vec![UnmidiNote(1), UnmidiNote(2)],
        play_notes: vec![NoteOn {
            note: UnmidiNote(2),
            volume: NoteVolume(70),
            pointer: None,
        }],
        bend_notes: vec![],
        stop_bend_pointers: vec![],
        redraw: false,
        change_key: None,
    };

    let (calls, played) = process_app_effects(effects);
    assert!(played);

    assert_eq!(
        calls,
        vec![
            AudioCall::Stop(midi_base_transpose() + UnmidiNote(1)),
            AudioCall::Stop(midi_base_transpose() + UnmidiNote(2)),
            AudioCall::Play(midi_base_transpose() + UnmidiNote(2), NoteVolume(70)),
        ]
    );
}

#[test]
fn process_app_effects_returns_false_when_no_play_notes() {
    let effects = AppEffects {
        stop_notes: vec![UnmidiNote(1)],
        play_notes: vec![],
        bend_notes: vec![],
        stop_bend_pointers: vec![],
        redraw: false,
        change_key: None,
    };

    let (calls, played) = process_app_effects(effects);
    assert!(!played);
    assert_eq!(calls, vec![AudioCall::Stop(midi_base_transpose() + UnmidiNote(1))]);
}

#[test]
fn midi_base_is_c3_and_calls_clamp_to_midi_range() {
    assert_eq!(midi_base_transpose() + UnmidiNote(0), MidiNote(48));
    let effects = AppEffects {
        stop_notes: vec![UnmidiNote(-60)],
        play_notes: vec![NoteOn { note: UnmidiNote(100), volume: NoteVolume(5), pointer: None }],
        bend_notes: vec![],
        stop_bend_pointers: vec![],
        redraw: true,
        change_key: None,
    };
    let (calls, played) = process_app_effects(effects);
    assert!(played);
    assert_eq!(
        calls,
        vec![AudioCall::Stop(MidiNote(0)), AudioCall::Play(MidiNote(127), NoteVolume(5))]
    );
}

#[test]
fn bends_alone_count_as_played_but_make_no_calls() {
    let effects = AppEffects {
        stop_notes: vec![],
        play_notes: vec![],
        bend_notes: vec![BendNote { pointer: PointerId(1), target: UnmidiNote(3) }],
        stop_bend_pointers: vec![PointerId(2)],
        redraw: false,
        change_key: None,
    };
    let (calls, played) = process_app_effects(effects);
    assert!(played);
    assert!(calls.is_empty());
}
