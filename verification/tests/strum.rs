use rust_harp::notes::UnkeyedNote;
use rust_harp::strum::{detect_crossings, StrumCrossing};

// Positions are in thousandths of a pixel.

#[test]
fn groups_duplicate_positions_and_filters_by_range() {
    let pos = [10_000, 10_000, 20_000, 30_000, 30_000];

    let crossings = detect_crossings(12_000, 30_000, &pos);
    assert_eq!(
        crossings,
        vec![
            StrumCrossing {
                x: 20_000,
                notes: vec![UnkeyedNote(2)],
            },
            StrumCrossing {
                x: 30_000,
                notes: vec![UnkeyedNote(3), UnkeyedNote(4)],
            },
        ]
    );

    // strict: pos == min_x does not count
    assert!(detect_crossings(10_000, 10_000, &pos).is_empty());

    // but pos == max_x does count
    assert_eq!(
        detect_crossings(10_000, 9_000, &pos),
        vec![StrumCrossing {
            x: 10_000,
            notes: vec![UnkeyedNote(0), UnkeyedNote(1)],
        }]
    );
}

#[test]
fn crossings_are_the_same_in_both_directions() {
    let pos = [0, 5, 5, 9, 12];
    assert_eq!(detect_crossings(1, 12, &pos), detect_crossings(12, 1, &pos));
    assert_eq!(detect_crossings(1, 12, &pos).len(), 3);
}

#[test]
fn equal_positions_apart_are_separate_crossings() {
    // Only neighbouring equal positions are grouped.
    let pos = [10, 20, 10];
    assert_eq!(
        detect_crossings(0, 30, &pos),
        vec![
            StrumCrossing { x: 10, notes: vec![UnkeyedNote(0)] },
            StrumCrossing { x: 20, notes: vec![UnkeyedNote(1)] },
            StrumCrossing { x: 10, notes: vec![UnkeyedNote(2)] },
        ]
    );
}

#[test]
fn no_positions_no_crossings() {
    assert!(detect_crossings(-100, 100, &[]).is_empty());
    // Off-screen notes never cross.
    assert!(detect_crossings(-100, 100, &[i32::MIN, i32::MIN]).is_empty());
}
