use rust_harp::app_state::KeyState;
use rust_harp::input_map::UiKey;
use rust_harp::notes::{Transpose, UnkeyedNote};
use rust_harp::touch::{PointerId, TouchEvent, TouchPhase};
use rust_harp::ui_events::{TouchNote, UiEvent, UiEventLog, UiSession};
use rust_harp::ui_settings::{UiAudioBackend, UiSettings};

// Positions, heights and pressures are in thousandths (of a pixel, of the screen height,
// of full pressure).

fn positions() -> Vec<i32> {
    // 12 notes, evenly spaced.
    (0..12).map(|i| i * 10_000).collect()
}

fn synth_bend_settings() -> UiSettings {
    UiSettings {
        bend_notes: true,
        audio_backend: UiAudioBackend::Synth,
        ..UiSettings::default()
    }
}

fn touch(id: u64, phase: TouchPhase, x: i32, y_norm: i32) -> UiEvent {
    UiEvent::Touch(TouchEvent {
        id: PointerId(id),
        phase,
        x,
        y_norm,
        pressure: 1000,
    })
}

fn active_set(s: &UiSession) -> std::collections::BTreeSet<i16> {
    s.engine().active_notes().into_iter().map(|n| n.0).collect()
}

#[test]
fn bend_zone_first_strum_is_note_on_then_bend_events() {
    let mut ui = UiSession::new();
    ui.set_play_on_tap(false);

    let pos = positions();
    let s = synth_bend_settings();

    // Stay in row 0 (y_norm < 0.40). Use bend-zone y (>= 0.25).
    let y_bend = 300;

    let _ = ui.handle_with_settings(touch(1, TouchPhase::Down, 0, y_bend), &pos, &s);

    // Move across an active-chord note (default chord includes 0,4,7): first bend-zone strum is pointer note-on.
    let out1 = ui.handle_with_settings(touch(1, TouchPhase::Move, pos[4] + 5_000, y_bend), &pos, &s);
    assert!(out1.effects.bend_notes.is_empty());
    assert_eq!(out1.effects.play_notes.len(), 1);
    assert_eq!(out1.effects.play_notes[0].pointer, Some(PointerId(1)));

    // Next active-chord note crossing in bend zone should be a bend.
    let out2 = ui.handle_with_settings(touch(1, TouchPhase::Move, pos[7] + 5_000, y_bend), &pos, &s);
    assert!(out2.effects.play_notes.is_empty());
    assert_eq!(out2.effects.bend_notes.len(), 1);
    assert_eq!(out2.effects.bend_notes[0].pointer, PointerId(1));
}

#[test]
fn outside_bend_zone_does_not_affect_bend_state() {
    let mut ui = UiSession::new();
    ui.set_play_on_tap(false);

    let pos = positions();
    let s = synth_bend_settings();

    // Use row 0. Establish bend state in bend zone, then strum in the top 25%.
    let y_bend = 300;
    let y_top = 100;

    let _ = ui.handle_with_settings(touch(2, TouchPhase::Down, 0, y_bend), &pos, &s);

    // First bend-zone strum: pointer note-on.
    let _ = ui.handle_with_settings(touch(2, TouchPhase::Move, pos[4] + 5_000, y_bend), &pos, &s);

    // Now strum outside bend zone: should be a normal note-on (pointer None) and should not emit bend.
    let out = ui.handle_with_settings(touch(2, TouchPhase::Move, pos[7] + 5_000, y_top), &pos, &s);
    assert!(out.effects.bend_notes.is_empty());
    assert_eq!(out.effects.play_notes.len(), 1);
    assert!(out.effects.play_notes[0].pointer.is_none());
}

#[test]
fn touch_up_stops_bend_pointer_and_note() {
    let mut ui = UiSession::new();
    ui.set_play_on_tap(false);

    let pos = positions();
    let s = synth_bend_settings();

    let y_bend = 300;

    let _ = ui.handle_with_settings(touch(3, TouchPhase::Down, 0, y_bend), &pos, &s);

    // Establish bend held note.
    let _ = ui.handle_with_settings(touch(3, TouchPhase::Move, pos[4] + 5_000, y_bend), &pos, &s);

    let out_up = ui.handle_with_settings(touch(3, TouchPhase::Up, pos[4] + 5_000, y_bend), &pos, &s);
    assert_eq!(out_up.effects.stop_bend_pointers, vec![PointerId(3)]);
    assert_eq!(out_up.effects.stop_notes.len(), 1);
}

#[test]
fn ui_event_log_replay_matches_state() {
    let positions: Vec<i32> = (0..12).map(|i| i * 1000).collect();

    let mut s1 = UiSession::new();
    let mut log = UiEventLog::default();

    // Hold I chord, then tap near an inactive string (1) => should strike nearest active chord note.
    let e1 = UiEvent::Key {
        state: KeyState::Pressed,
        key: UiKey::Char('d'),
    };
    log.record(e1.clone());
    let _ = s1.handle(e1, &positions);

    let e2 = touch(1, TouchPhase::Down, 1200, 250);
    log.record(e2.clone());
    let out2 = s1.handle(e2, &positions);
    assert_eq!(out2.touch_notes.len(), 1);
    assert_eq!(
        out2.touch_notes[0],
        TouchNote {
            row: 0,
            note: UnkeyedNote(0)
        }
    );

    // Replay into a fresh session and compare key state snapshots.
    let mut s2 = UiSession::new();
    let _ = log.replay(&mut s2, &positions);

    assert_eq!(s1.engine().active_chord(), s2.engine().active_chord());
    assert_eq!(active_set(&s1), active_set(&s2));
}

#[test]
fn touch_move_emits_haptic_and_touch_notes() {
    let positions: Vec<i32> = (0..12).map(|i| i * 1000).collect();
    let mut s = UiSession::new();

    // Disable tap-strike so we only test strum crossings here.
    let _ = s.handle(UiEvent::SetPlayOnTap(false), &positions);

    let _ = s.handle(touch(1, TouchPhase::Down, -1000, 250), &positions);

    let out = s.handle(touch(1, TouchPhase::Move, 2200, 250), &positions);

    assert!(out.haptic);
    assert_eq!(
        out.touch_notes,
        vec![
            TouchNote {
                row: 0,
                note: UnkeyedNote(0)
            },
            TouchNote {
                row: 0,
                note: UnkeyedNote(1)
            },
            TouchNote {
                row: 0,
                note: UnkeyedNote(2)
            },
        ]
    );
}

#[test]
fn ui_event_log_replay_preserves_transpose_and_play_on_tap() {
    let positions: Vec<i32> = (0..12).map(|i| i * 1000).collect();

    let mut s1 = UiSession::new();
    let mut log = UiEventLog::default();

    let e1 = UiEvent::SetTranspose(Transpose(3));
    log.record(e1.clone());
    let _ = s1.handle(e1, &positions);
    assert_eq!(s1.engine().transpose().0, 3);

    // With play-on-tap disabled, touch-down should not strike.
    let e2 = UiEvent::SetPlayOnTap(false);
    log.record(e2.clone());
    let _ = s1.handle(e2, &positions);

    let e3 = touch(1, TouchPhase::Down, 100, 250);
    log.record(e3.clone());
    let out3 = s1.handle(e3, &positions);
    assert_eq!(out3.touch_notes, Vec::<TouchNote>::new());

    // Re-enable play-on-tap; now touch-down should strike the nearest allowed note.
    let e4 = UiEvent::SetPlayOnTap(true);
    log.record(e4.clone());
    let _ = s1.handle(e4, &positions);

    let e5 = touch(2, TouchPhase::Down, 100, 250);
    log.record(e5.clone());
    let out5 = s1.handle(e5, &positions);
    assert_eq!(
        out5.touch_notes,
        vec![TouchNote {
            row: 0,
            note: UnkeyedNote(0)
        }]
    );

    let mut s2 = UiSession::new();
    let _ = log.replay(&mut s2, &positions);

    assert_eq!(s1.engine().transpose(), s2.engine().transpose());
    assert_eq!(active_set(&s1), active_set(&s2));
}

#[test]
fn touch_rows_follow_row_weights() {
    let positions: Vec<i32> = (0..12).map(|i| i * 1000).collect();
    let mut s = UiSession::new();
    let _ = s.handle(UiEvent::SetPlayOnTap(false), &positions);
    // Rows share the height 40/20/20/20: 0.55 is in the second row.
    let _ = s.handle(touch(1, TouchPhase::Down, -500, 550), &positions);
    let out = s.handle(touch(1, TouchPhase::Move, 1500, 550), &positions);
    assert_eq!(
        out.touch_notes,
        vec![
            TouchNote { row: 1, note: UnkeyedNote(0) },
            TouchNote { row: 1, note: UnkeyedNote(1) },
        ]
    );
    // The second row is the major scale: note 0 plays, note 1 does not.
    assert_eq!(out.effects.play_notes.len(), 1);
    // Below the screen is the last row.
    let _ = s.handle(touch(2, TouchPhase::Down, -500, 2000), &positions);
    let out = s.handle(touch(2, TouchPhase::Move, 500, 2000), &positions);
    assert_eq!(out.touch_notes, vec![TouchNote { row: 3, note: UnkeyedNote(0) }]);
}

#[test]
fn touch_volume_follows_pressure() {
    let positions: Vec<i32> = (0..12).map(|i| i * 1000).collect();
    let mut s = UiSession::new();
    let down = |x: i32, pressure: i32, id: u64| {
        UiEvent::Touch(TouchEvent {
            id: PointerId(id),
            phase: TouchPhase::Down,
            x,
            y_norm: 100,
            pressure,
        })
    };
    let out = s.handle(down(0, 0, 1), &positions);
    assert_eq!(out.effects.play_notes[0].volume.0, 25);
    let out = s.handle(down(4000, 1000, 2), &positions);
    assert_eq!(out.effects.play_notes[0].volume.0, 110);
    let out = s.handle(down(7000, 500, 3), &positions);
    // 25 + 85 * 0.5 = 67.5, rounded up.
    assert_eq!(out.effects.play_notes[0].volume.0, 68);
    let _ = s.handle(touch(1, TouchPhase::Up, 0, 100), &positions);
    let out = s.handle(down(0, -5, 4), &positions);
    assert_eq!(out.effects.play_notes.len(), 1);
    assert_eq!(out.effects.play_notes[0].volume.0, 25);
}

#[test]
fn bending_needs_a_synth_backend() {
    let mut ui = UiSession::new();
    ui.set_play_on_tap(false);
    let pos = positions();
    let s = UiSettings {
        bend_notes: true,
        ..UiSettings::default()
    };
    let _ = ui.handle_with_settings(touch(1, TouchPhase::Down, 0, 300), &pos, &s);
    let out1 = ui.handle_with_settings(touch(1, TouchPhase::Move, pos[4] + 5_000, 300), &pos, &s);
    assert_eq!(out1.effects.play_notes.len(), 1);
    assert!(out1.effects.play_notes[0].pointer.is_none());
    let out2 = ui.handle_with_settings(touch(1, TouchPhase::Move, pos[7] + 5_000, 300), &pos, &s);
    assert!(out2.effects.bend_notes.is_empty());
    assert_eq!(out2.effects.play_notes.len(), 1);
}
