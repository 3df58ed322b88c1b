use rust_harp::notes::UnkeyedNote;
use rust_harp::strum::StrumCrossing;
use rust_harp::touch::{PointerId, TouchEvent, TouchOutput, TouchPhase, TouchTracker};

// Positions are in thousandths of a pixel; `allowed[i]` says whether note `i` may be struck.

fn ev(id: u64, phase: TouchPhase, x: i32) -> TouchEvent {
    TouchEvent {
        id: PointerId(id),
        phase,
        x,
        y_norm: 0,
        pressure: 1000,
    }
}

#[test]
fn move_emits_crossings_and_up_clears_state() {
    let positions = [10_000, 20_000, 30_000];
    let all = [true, true, true];
    let mut t = TouchTracker::new();
    t.set_play_on_tap(false);

    assert_eq!(
        t.handle_event(ev(1, TouchPhase::Down, 5_000), &positions, &all),
        TouchOutput {
            strike: None,
            crossings: Vec::new(),
        }
    );

    let out = t.handle_event(ev(1, TouchPhase::Move, 25_000), &positions, &all);
    assert_eq!(
        out.crossings,
        vec![
            StrumCrossing {
                x: 10_000,
                notes: vec![UnkeyedNote(0)],
            },
            StrumCrossing {
                x: 20_000,
                notes: vec![UnkeyedNote(1)],
            },
        ]
    );

    t.handle_event(ev(1, TouchPhase::Up, 25_000), &positions, &all);

    // No prior state after Up
    assert_eq!(
        t.handle_event(ev(1, TouchPhase::Move, 30_000), &positions, &all),
        TouchOutput {
            strike: None,
            crossings: Vec::new(),
        }
    );
}

#[test]
fn pointers_are_independent() {
    let positions = [10_000, 20_000, 30_000];
    let all = [true, true, true];
    let mut t = TouchTracker::new();
    t.set_play_on_tap(false);

    t.handle_event(ev(1, TouchPhase::Down, 0), &positions, &all);
    t.handle_event(ev(2, TouchPhase::Down, 100_000), &positions, &all);

    let out1 = t.handle_event(ev(1, TouchPhase::Move, 15_000), &positions, &all);
    assert_eq!(
        out1.crossings,
        vec![StrumCrossing {
            x: 10_000,
            notes: vec![UnkeyedNote(0)],
        }]
    );

    let out2 = t.handle_event(ev(2, TouchPhase::Move, 5_000), &positions, &all);
    assert_eq!(
        out2.crossings,
        vec![
            StrumCrossing {
                x: 10_000,
                notes: vec![UnkeyedNote(0)],
            },
            StrumCrossing {
                x: 20_000,
                notes: vec![UnkeyedNote(1)],
            },
            StrumCrossing {
                x: 30_000,
                notes: vec![UnkeyedNote(2)],
            },
        ]
    );
}

#[test]
fn down_strikes_nearest_unstruck_and_suppresses_strum_for_struck_notes() {
    // Two notes share the same x position, to mirror "stacked" strings.
    let positions = [10_000, 10_000, 20_000];
    let all = [true, true, true];
    let mut t = TouchTracker::new();

    let out1 = t.handle_event(ev(1, TouchPhase::Down, 11_000), &positions, &all);
    assert_eq!(out1.strike, Some(UnkeyedNote(0)));

    let out2 = t.handle_event(ev(2, TouchPhase::Down, 9_000), &positions, &all);
    assert_eq!(out2.strike, Some(UnkeyedNote(1)));

    // Pointer 1 movement should not strum once it has struck.
    let out3 = t.handle_event(ev(1, TouchPhase::Move, 25_000), &positions, &all);
    assert_eq!(
        out3.crossings,
        vec![StrumCrossing {
            x: 20_000,
            notes: vec![UnkeyedNote(2)],
        }]
    );

    // After pointer 1 lifts, another pointer can strike its note again.
    t.handle_event(ev(1, TouchPhase::Up, 25_000), &positions, &all);
    let out4 = t.handle_event(ev(3, TouchPhase::Down, 10_000), &positions, &all);
    assert_eq!(out4.strike, Some(UnkeyedNote(0)));
}

#[test]
fn down_strikes_nearest_allowed_note() {
    let positions = [0, 10_000, 20_000];
    let mut t = TouchTracker::new();

    // Only note 2 is allowed.
    let out = t.handle_event(ev(1, TouchPhase::Down, 1_000), &positions, &[false, false, true]);
    assert_eq!(out.strike, Some(UnkeyedNote(2)));
}

#[test]
fn down_strikes_nothing_when_nothing_is_allowed() {
    let positions = [0, 10_000];
    let mut t = TouchTracker::new();
    let out = t.handle_event(ev(1, TouchPhase::Down, 0), &positions, &[false, false]);
    assert_eq!(out.strike, None);
    // A missing mask entry counts as not allowed.
    let out = t.handle_event(ev(2, TouchPhase::Down, 0), &positions, &[]);
    assert_eq!(out.strike, None);
}

#[test]
fn tie_goes_to_the_lower_note() {
    let positions = [0, 10_000, 20_000];
    let mut t = TouchTracker::new();
    let out = t.handle_event(ev(1, TouchPhase::Down, 15_000), &positions, &[true, true, true]);
    assert_eq!(out.strike, Some(UnkeyedNote(1)));
}

#[test]
fn move_without_down_starts_tracking() {
    let positions = [10_000, 20_000];
    let all = [true, true];
    let mut t = TouchTracker::new();
    t.set_play_on_tap(false);
    let out = t.handle_event(ev(7, TouchPhase::Move, 0), &positions, &all);
    assert!(out.crossings.is_empty());
    let out = t.handle_event(ev(7, TouchPhase::Move, 15_000), &positions, &all);
    assert_eq!(out.crossings.len(), 1);
    // Cancel forgets the pointer like Up does.
    t.handle_event(ev(7, TouchPhase::Cancel, 15_000), &positions, &all);
    let out = t.handle_event(ev(7, TouchPhase::Move, 25_000), &positions, &all);
    assert!(out.crossings.is_empty());
}
