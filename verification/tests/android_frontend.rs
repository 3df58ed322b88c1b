use rust_harp::android_frontend::{
    android_key, chord_button_from_ui_button, chord_hold_decision, effect_messages,
    key_index_transpose, pack_active_chord, result_flags, retain_alive_visuals,
    touch_phase_from_code, ui_button_down, ui_buttons_mask, visual_kind_for_phase,
    visuals_for_touch, y_norm_permille, AndroidFrontend, AudioMsg, DeferredStopNotes,
    NoteVisualEvent, NoteVisualKind,
};
use rust_harp::app_state::{empty_effects, ChordButton, KeyState, DEFAULT_STRUM_VOLUME};
use rust_harp::input_map::{UiButton, UiKey};
use rust_harp::notes::{NoteVolume, Transpose, UnkeyedNote, UnmidiNote};
use rust_harp::touch::{PointerId, TouchEvent, TouchPhase};
use rust_harp::ui_events::{TouchNote, UiEvent, UiSession};

#[test]
fn android_frontend_emits_note_on_messages() {
    let mut f = AndroidFrontend::new();

    let effects = f
        .engine_mut()
        .handle_strum_crossing(0, UnkeyedNote(0), NoteVolume(DEFAULT_STRUM_VOLUME));
    assert_eq!(effects.play_notes.len(), 1);

    f.push_effects(effects, 0);

    let msgs = f.take_audio_msgs();
    match msgs.first() {
        Some(AudioMsg::NoteOn(_)) => {}
        other => panic!("expected NoteOn msg, got {other:?}"),
    }
}

#[test]
fn android_frontend_emits_note_off_before_retrigger_note_on() {
    let mut f = AndroidFrontend::new();

    let effects = f
        .engine_mut()
        .handle_strum_crossing(0, UnkeyedNote(0), NoteVolume(DEFAULT_STRUM_VOLUME));
    f.push_effects(effects, 0);
    let _ = f.take_audio_msgs();

    let effects = f
        .engine_mut()
        .handle_strum_crossing(0, UnkeyedNote(0), NoteVolume(DEFAULT_STRUM_VOLUME));
    f.push_effects(effects, 0);

    let msgs = f.take_audio_msgs();
    match msgs.first() {
        Some(AudioMsg::NoteOff(_)) => {}
        other => panic!("expected NoteOff msg, got {other:?}"),
    }
    match msgs.get(1) {
        Some(AudioMsg::NoteOn(_)) => {}
        other => panic!("expected NoteOn msg, got {other:?}"),
    }
}

#[test]
fn effect_messages_put_note_offs_first() {
    let mut ui = UiSession::new();
    let _ = ui
        .engine_mut()
        .handle_strum_crossing(0, UnkeyedNote(0), NoteVolume(DEFAULT_STRUM_VOLUME));
    let effects = ui
        .engine_mut()
        .handle_strum_crossing(0, UnkeyedNote(0), NoteVolume(DEFAULT_STRUM_VOLUME));
    let msgs = effect_messages(&effects);
    assert_eq!(msgs.len(), 2);
    assert!(matches!(msgs[0], AudioMsg::NoteOff(UnmidiNote(0))));
    assert!(matches!(msgs[1], AudioMsg::NoteOn(_)));
}

#[test]
fn frontend_defers_chord_note_offs_until_due() {
    let mut f = AndroidFrontend::new();
    f.set_chord_release_note_off_delay_ms(100);
    let _ = f
        .engine_mut()
        .handle_strum_crossing(0, UnkeyedNote(4), NoteVolume(DEFAULT_STRUM_VOLUME));
    // Note 4 sounds again, so its deferred note-off is dropped; 7 and 9 go out once each.
    f.defer_stop_notes(vec![UnmidiNote(7), UnmidiNote(4), UnmidiNote(7), UnmidiNote(9)]);
    f.arm_deferred_stop_notes(1000);
    f.flush_deferred_stop_notes(1099);
    assert!(f.take_audio_msgs().is_empty());
    f.push_effects(empty_effects(), 1100);
    assert_eq!(
        f.take_audio_msgs(),
        vec![AudioMsg::NoteOff(UnmidiNote(7)), AudioMsg::NoteOff(UnmidiNote(9))]
    );
    // Nothing stays deferred.
    f.flush_deferred_stop_notes(5000);
    assert!(f.take_audio_msgs().is_empty());
}

#[test]
fn frontend_clamps_tuning_and_sample_rate() {
    let mut f = AndroidFrontend::new();
    assert_eq!(f.a4_tuning_hz(), 440);
    f.set_a4_tuning_hz(1000);
    assert_eq!(f.a4_tuning_hz(), 450);
    f.set_a4_tuning_hz(432);
    f.set_sample_rate(0);
    f.set_sample_rate(48_000);
    assert_eq!(
        f.take_audio_msgs(),
        vec![
            AudioMsg::SetA4Tuning(450),
            AudioMsg::SetA4Tuning(432),
            AudioMsg::SetSampleRate(1),
            AudioMsg::SetSampleRate(48_000),
        ]
    );
}

#[test]
fn frontend_flags() {
    let mut f = AndroidFrontend::new();
    assert!(!f.show_note_names());
    f.set_show_note_names(true);
    assert!(f.show_note_names());
    assert!(!f.chord_hold_active());
    f.set_chord_hold_active(true);
    assert!(f.chord_hold_active());
    let fx = f.handle_ui_event(UiEvent::SetTranspose(Transpose(2)));
    assert_eq!(fx.change_key, Some(Transpose(2)));
    assert_eq!(f.engine().transpose(), Transpose(2));
}

#[test]
fn frontend_touch_leaves_highlights_that_expire() {
    let positions: Vec<i32> = (0..12).map(|i| i * 1000).collect();
    let mut f = AndroidFrontend::new();
    f.set_play_on_tap(false);
    let down = TouchEvent { id: PointerId(1), phase: TouchPhase::Down, x: -1000, y_norm: 250, pressure: 1000 };
    let (_, haptic) = f.handle_touch(down, &positions, 0);
    assert!(!haptic);
    let mv = TouchEvent { id: PointerId(1), phase: TouchPhase::Move, x: 1200, y_norm: 250, pressure: 1000 };
    let (fx, haptic) = f.handle_touch(mv, &positions, 10);
    assert!(haptic);
    assert_eq!(fx.play_notes.len(), 1);
    assert_eq!(
        f.note_visuals_snapshot(100),
        vec![
            NoteVisualEvent { at_ms: 10, row: 0, note: UnkeyedNote(0), kind: NoteVisualKind::Strum },
            NoteVisualEvent { at_ms: 10, row: 0, note: UnkeyedNote(1), kind: NoteVisualKind::Strum },
        ]
    );
    assert!(f.has_active_note_visuals(169));
    assert!(!f.has_active_note_visuals(170));
    assert!(f.note_visuals_snapshot(170).is_empty());
}

#[test]
fn visuals_expire_by_kind() {
    let mut v = vec![
        NoteVisualEvent { at_ms: 1000, row: 0, note: UnkeyedNote(1), kind: NoteVisualKind::Strike },
        NoteVisualEvent { at_ms: 1000, row: 0, note: UnkeyedNote(2), kind: NoteVisualKind::Strum },
        NoteVisualEvent { at_ms: 1200, row: 1, note: UnkeyedNote(3), kind: NoteVisualKind::Strum },
    ];
    // At 1170 ms: the strike (220 ms) lives, the first strum (160 ms) is gone.
    assert!(retain_alive_visuals(&mut v, 1170));
    assert_eq!(v.len(), 2);
    assert_eq!(v[0].note, UnkeyedNote(1));
    assert_eq!(v[1].note, UnkeyedNote(3));
    // A highlight stamped after `now` counts as new.
    assert!(retain_alive_visuals(&mut v, 1100));
    assert_eq!(v.len(), 2);
    assert!(!retain_alive_visuals(&mut v, 5000));
    assert!(v.is_empty());
}

#[test]
fn touch_phases_leave_highlights() {
    assert_eq!(visual_kind_for_phase(TouchPhase::Down), Some(NoteVisualKind::Strike));
    assert_eq!(visual_kind_for_phase(TouchPhase::Move), Some(NoteVisualKind::Strum));
    assert_eq!(visual_kind_for_phase(TouchPhase::Up), None);
    let notes = vec![TouchNote { row: 2, note: UnkeyedNote(5) }];
    let v = visuals_for_touch(TouchPhase::Move, &notes, 77);
    assert_eq!(
        v,
        vec![NoteVisualEvent { at_ms: 77, row: 2, note: UnkeyedNote(5), kind: NoteVisualKind::Strum }]
    );
    assert!(visuals_for_touch(TouchPhase::Cancel, &notes, 77).is_empty());
}

#[test]
fn deferred_note_offs_wait_dedup_and_skip_restruck_notes() {
    let mut d = DeferredStopNotes::new();
    d.defer(vec![UnmidiNote(1), UnmidiNote(2), UnmidiNote(1), UnmidiNote(3)]);
    // Nothing armed: nothing due.
    assert!(d.flush(10_000, &vec![]).is_empty());
    d.arm(100, 350);
    d.arm(50, 350);
    assert_eq!(d.due_ms, Some(450));
    assert!(d.flush(449, &vec![]).is_empty());
    assert_eq!(d.notes.len(), 4);
    let offs = d.flush(450, &vec![UnmidiNote(2)]);
    assert_eq!(offs, vec![UnmidiNote(1), UnmidiNote(3)]);
    assert!(d.notes.is_empty());
    assert_eq!(d.due_ms, None);
}

#[test]
fn chord_buttons_and_held_mask() {

    assert_eq!(chord_button_from_ui_button(UiButton::VIIDim), Some(ChordButton::VII));
    assert_eq!(chord_button_from_ui_button(UiButton::Hept), Some(ChordButton::HeptatonicMajor));
    assert_eq!(chord_button_from_ui_button(UiButton::Sus4), None);

    let mut ui = UiSession::new();
    let _ = ui.handle(UiEvent::Button { state: KeyState::Pressed, button: UiButton::I }, &[]);
    let _ = ui.handle(UiEvent::Button { state: KeyState::Pressed, button: UiButton::Sus4 }, &[]);
    assert!(ui_button_down(ui.engine(), UiButton::I));
    assert!(ui_button_down(ui.engine(), UiButton::Sus4));
    assert!(!ui_button_down(ui.engine(), UiButton::V));
    let mask = ui_buttons_mask(ui.engine());
    assert_eq!(mask, (1 << UiButton::I.index()) | (1 << UiButton::Sus4.index()));
}

#[test]
fn frontend_codes() {

    assert_eq!(result_flags(true, false, true), 5);
    assert_eq!(result_flags(false, true, false), 2);
    assert_eq!(key_index_transpose(-1), Transpose(11));
    assert_eq!(key_index_transpose(14), Transpose(2));
    assert_eq!(touch_phase_from_code(0), TouchPhase::Down);
    assert_eq!(touch_phase_from_code(7), TouchPhase::Cancel);
    assert_eq!(android_key(61, None), Some(UiKey::Tab));
    assert_eq!(android_key(114, None), Some(UiKey::Control));
    assert_eq!(android_key(61, Some('d')), Some(UiKey::Char('d')));
    assert_eq!(android_key(5, None), None);
    assert_eq!(y_norm_permille(250, 1000), 250);
    assert_eq!(y_norm_permille(-3, 1000), 0);
    assert_eq!(y_norm_permille(5000, 1000), 1000);
    assert_eq!(y_norm_permille(3, 0), 1000);

    // Key of D, I chord: root D (pitch class 2), major triad modifiers.
    let mut ui = UiSession::new();
    let _ = ui.handle(UiEvent::SetTranspose(Transpose(2)), &[]);
    assert_eq!(pack_active_chord(ui.engine()), (1 << 16) | 2);

    let d = chord_hold_decision(false, true, KeyState::Pressed);
    assert!(d.hold_during && d.defer_stops && !d.arm && d.hold_after);
    let d = chord_hold_decision(true, true, KeyState::Released);
    assert!(d.defer_stops && d.arm && !d.hold_after);
    let d = chord_hold_decision(false, false, KeyState::Pressed);
    assert!(!d.hold_during && !d.defer_stops && !d.arm && !d.hold_after);
}

#[test]
fn held_chord_button_defers_note_offs_until_release_and_delay() {
    let mut f = AndroidFrontend::new();
    f.set_chord_release_note_off_delay_ms(100);
    for n in [0, 4] {
        let fx = f
            .engine_mut()
            .handle_strum_crossing(0, UnkeyedNote(n), NoteVolume(DEFAULT_STRUM_VOLUME));
        f.push_effects(fx, 0);
    }
    assert_eq!(f.take_audio_msgs().len(), 2);

    // Pressing V changes the chord, but its note-offs wait while the button is held.
    let v = UiButton::V.index() as i32;
    let flags = f.handle_ui_button(v, true, 1000);
    assert_eq!(flags & 6, 0);
    assert!(f.chord_hold_active());
    assert!(f.take_audio_msgs().is_empty());

    // Releasing it lets the chord go and arms the note-offs for 100 ms later.
    let _ = f.handle_ui_button(v, false, 2000);
    assert!(!f.chord_hold_active());
    f.flush_deferred_stop_notes(2099);
    assert!(f.take_audio_msgs().is_empty());
    f.flush_deferred_stop_notes(2100);
    let msgs = f.take_audio_msgs();
    assert_eq!(msgs.len(), 2);
    assert!(msgs.contains(&AudioMsg::NoteOff(UnmidiNote(0))));
    assert!(msgs.contains(&AudioMsg::NoteOff(UnmidiNote(4))));

    // An index past the buttons does nothing.
    assert_eq!(f.handle_ui_button(99, true, 3000), 0);
    assert_eq!(f.handle_ui_button(256 + 1, true, 3000), 0);
    assert_eq!(f.handle_ui_button(-1, true, 3000), 0);
    assert!(!f.chord_hold_active());
}

#[test]
fn chord_wheel_choices_set_modifiers_while_holding_the_chord() {
    let mut f = AndroidFrontend::new();
    let i = UiButton::I.index() as i32;
    // North on a major degree adds the minor seventh.
    let _ = f.apply_chord_wheel_choice(i, 0, 0);
    assert!(f.chord_hold_active());
    assert!(f.engine().active_chord().contains(UnkeyedNote(10)));
    assert!(f.engine().active_chord().contains(UnkeyedNote(4)));
    // The minor/major switch makes it minor.
    let _ = f.toggle_chord_wheel_minor_major(i, 0);
    assert!(f.engine().active_chord().contains(UnkeyedNote(3)));
    assert!(!f.engine().active_chord().contains(UnkeyedNote(4)));

    // A modifier button is no chord: nothing happens.
    let mut g = AndroidFrontend::new();
    assert_eq!(g.apply_chord_wheel_choice(UiButton::Sus4.index() as i32, 0, 0), 0);
    assert!(!g.chord_hold_active());
    // An unknown direction holds the chord and does nothing more.
    assert_eq!(g.apply_chord_wheel_choice(i, 8, 0), 0);
    assert!(g.chord_hold_active());
    assert!(!g.engine().active_chord().contains(UnkeyedNote(10)));
}

#[test]
fn key_index_and_keys() {
    let mut f = AndroidFrontend::new();
    let fx = f
        .engine_mut()
        .handle_strum_crossing(0, UnkeyedNote(0), NoteVolume(DEFAULT_STRUM_VOLUME));
    f.push_effects(fx, 0);
    let _ = f.take_audio_msgs();
    // Key index 14 is D; the sounding note stops.
    assert_eq!(f.set_key_index(14, 0), 3);
    assert_eq!(f.key_index(), 2);
    assert_eq!(f.take_audio_msgs(), vec![AudioMsg::NoteOff(UnmidiNote(0))]);
    assert_eq!(f.set_key_index(-1, 0), 1);
    assert_eq!(f.key_index(), 11);

    // 'f' selects V; key code 5 means nothing.
    let mut g = AndroidFrontend::new();
    let _ = g.handle_android_key(0, 'f' as i32, true, 0);
    assert!(ui_button_down(g.engine(), UiButton::V));
    let _ = g.handle_android_key(0, 'f' as i32, false, 0);
    assert!(!ui_button_down(g.engine(), UiButton::V));
    assert_eq!(g.handle_android_key(5, 0, true, 0), 0);
}

#[test]
fn touches_strum_tick_and_animate() {
    let positions: Vec<i32> = (0..12).map(|i| i * 1000).collect();
    let mut f = AndroidFrontend::new();
    f.set_play_on_tap(false);
    // Down left of the strings, 25% down a 1000-pixel view: the top row.
    assert_eq!(f.handle_touch_event(1, 0, -1, 250, 1000, 1000, &positions, 0), 0);
    // Moving across C strums it: sound, a tick, and a highlight to animate.
    assert_eq!(f.handle_touch_event(1, 1, 1, 250, 1000, 1000, &positions, 10), 7);
    let msgs = f.take_audio_msgs();
    assert!(matches!(msgs[0], AudioMsg::NoteOn(_)));
    assert!(f.has_active_note_visuals(100));
    // Lifting the finger, later: nothing sounds, and the highlight has run out.
    let flags = f.handle_touch_event(1, 2, 1, 250, 1000, 1000, &positions, 1000);
    assert_eq!(flags & 5, 0);
}

#[test]
fn android_key_characters_decode_their_code_points() {
    let mut f = AndroidFrontend::new();
    // 'd' selects I, 's' selects IV.
    let _ = f.handle_android_key(0, 's' as i32, true, 0);
    assert!(ui_button_down(f.engine(), UiButton::IV));
    assert!(!ui_button_down(f.engine(), UiButton::I));
    // A surrogate is no character: it reads as NUL, which means nothing.
    let mut g = AndroidFrontend::new();
    assert_eq!(g.handle_android_key(0, 0xD800, true, 0), 0);
    assert_eq!(ui_buttons_mask(g.engine()), 0);
}

#[test]
fn wheel_modifier_bits_from_outside_drop_unknown_bits() {
    let mut f = AndroidFrontend::new();
    // Bit 5 adds the minor seventh; bits 13 and 14 mean nothing from outside.
    f.set_wheel_modifiers_bits((1 << 5) | (1 << 13) | (1 << 14));
    let i = UiButton::I.index() as i32;
    let _ = f.handle_ui_button(i, true, 0);
    let chord = f.engine().active_chord();
    assert!(chord.contains(UnkeyedNote(10)));
    // Without the chromatic bit the chord is no chromatic scale.
    assert!(!chord.contains(UnkeyedNote(1)));
}
