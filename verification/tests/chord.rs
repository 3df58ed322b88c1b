use rust_harp::chord::{Chord, Modifiers};
use rust_harp::notes::{PitchClassSet, UnkeyedNote};

fn verify_triads(roots: &[i16], exp_mods: Modifiers, exp_pcs: PitchClassSet) {
    for &r in roots {
        let c = Chord::new_triad(UnkeyedNote(r));
        assert_eq!((c.root, c.mods), (c.root, exp_mods));
        assert_eq!((c.root, c.get_mask()), (c.root, exp_pcs));
    }
}

#[test]
fn major_triads() {
    let exp_mods = Modifiers::major_tri();
    let exp_pcs = PitchClassSet::major_tri();
    assert_eq!(exp_pcs, PitchClassSet(0b000010010001));

    verify_triads(&[-17, -12, -7, -5, 0, 5, 7, 12, 17], exp_mods, exp_pcs);
}

#[test]
fn minor_triads() {
    let exp_mods = Modifiers::minor_tri();
    let exp_pcs = PitchClassSet::minor_tri();
    assert_eq!(exp_pcs, PitchClassSet(0b000010001001));

    verify_triads(&[-15, -10, -8, -3, 2, 4, 9, 14], exp_mods, exp_pcs);
}

#[test]
fn diminished_triads() {
    let exp_mods = Modifiers::dimin_tri();
    let exp_pcs = PitchClassSet::dimin_tri();
    assert_eq!(exp_pcs, PitchClassSet(0b000001001001));

    verify_triads(&[-13, -1, 11, 23], exp_mods, exp_pcs);
}

#[test]
fn leftover_triads_major() {
    let exp_mods = Modifiers::major_tri();
    let exp_pcs = PitchClassSet::major_tri();
    assert_eq!(exp_pcs, PitchClassSet(0b000010010001));

    verify_triads(&[-11, -9, -6, -4, -2, 1, 3, 6, 8, 10, 13], exp_mods, exp_pcs);
}

#[test]
fn major_triad_contains() {
    let c = Chord::new_triad(UnkeyedNote(0)); // C major

    assert!(c.contains(UnkeyedNote(0))); // root
    assert!(c.contains(UnkeyedNote(4))); // major third
    assert!(c.contains(UnkeyedNote(7))); // fifth

    assert!(!c.contains(UnkeyedNote(6))); // diminished fifth
    assert!(!c.contains(UnkeyedNote(3))); // minor third
}

#[test]
fn minor_triad_contains() {
    let c = Chord::new_triad(UnkeyedNote(2)); // D minor

    assert!(c.contains(UnkeyedNote(2))); // root
    assert!(c.contains(UnkeyedNote(5))); // minor third
    assert!(c.contains(UnkeyedNote(9))); // fifth

    assert!(!c.contains(UnkeyedNote(6))); // diminished fifth
    assert!(!c.contains(UnkeyedNote(4))); // major third
}

#[test]
fn diminished_triad_contains() {
    let c = Chord::new_triad(UnkeyedNote(11)); // B diminished

    assert!(c.contains(UnkeyedNote(11))); // root
    assert!(c.contains(UnkeyedNote(2))); // minor third
    assert!(c.contains(UnkeyedNote(5))); // diminished fifth

    assert!(!c.contains(UnkeyedNote(6))); // perfect fifth
    assert!(!c.contains(UnkeyedNote(4))); // major third
}

#[test]
fn add_minor7_modifier() {
    let mut c = Chord::new_triad(UnkeyedNote(0));
    c.add_mods_now(Modifiers::add_minor7());

    assert!(c.contains(UnkeyedNote(10))); // minor 7
}

#[test]
fn sus4_modifier() {
    let mut c = Chord::new_triad(UnkeyedNote(0));
    c.add_mods_now(Modifiers::sus4());

    assert!(c.contains(UnkeyedNote(5))); // fourth
    assert!(!c.contains(UnkeyedNote(4))); // no major third
    assert!(!c.contains(UnkeyedNote(3))); // no minor third
}

#[test]
fn add_major7_modifier() {
    let mut c = Chord::new_triad(UnkeyedNote(4));
    c.add_mods_now(Modifiers::add_major7());

    assert!(c.contains(UnkeyedNote(11))); // major 7
}

#[test]
fn add_major2_modifier() {
    let mut c = Chord::new_triad(UnkeyedNote(4)); // iii
    c.add_mods_now(Modifiers::add_major2());

    assert!(c.contains(UnkeyedNote(6))); // major 2
}

#[test]
fn add_major6_modifier() {
    let mut c = Chord::new_triad(UnkeyedNote(4));
    c.add_mods_now(Modifiers::add_major6());

    assert!(c.contains(UnkeyedNote(13)));
}

#[test]
fn minor3_to_major_modifier() {
    let mut c = Chord::new_triad(UnkeyedNote(4)); // iii
    c.add_mods_now(Modifiers::minor3_to_major());

    assert!(!c.contains(UnkeyedNote(7))); // no minor third
    assert!(c.contains(UnkeyedNote(8))); // major third

    let mut c = Chord::new_triad(UnkeyedNote(0)); // I
    c.add_mods_now(Modifiers::minor3_to_major());

    assert!(!c.contains(UnkeyedNote(3))); // no minor third
    assert!(c.contains(UnkeyedNote(4))); // major third
}

fn pcs(c: &Chord) -> Vec<i16> {
    (0..12).filter(|&n| c.contains(UnkeyedNote(c.root.0 + n))).collect()
}

#[test]
fn switch_minor_major_flips_the_third() {
    let mut major = Chord::new_triad(UnkeyedNote(0));
    major.add_mods_now(Modifiers::switch_minor_major());
    assert_eq!(pcs(&major), vec![0, 3, 7]);

    let mut minor = Chord::new_triad(UnkeyedNote(2));
    minor.add_mods_now(Modifiers::switch_minor_major());
    assert_eq!(pcs(&minor), vec![0, 4, 7]);

    let mut dim = Chord::new_triad(UnkeyedNote(11));
    dim.add_mods_now(Modifiers::switch_minor_major());
    assert_eq!(pcs(&dim), vec![0, 4]);
}

#[test]
fn other_modifiers_shape_the_mask() {
    let mut c = Chord::new_triad(UnkeyedNote(11));
    c.add_mods_now(Modifiers::restore_perfect5());
    assert_eq!(pcs(&c), vec![0, 3, 7]);

    let mut c = Chord::new_triad(UnkeyedNote(0));
    c.add_mods_now(Modifiers::add_minor6().union(Modifiers::no3()));
    assert_eq!(pcs(&c), vec![0, 7, 8]);

    assert_eq!(pcs(&Chord::chromatic(UnkeyedNote(3))), (0..12).collect::<Vec<i16>>());
    assert_eq!(pcs(&Chord::major_scale(UnkeyedNote(0))), vec![0, 2, 4, 5, 7, 9, 11]);
    assert_eq!(
        pcs(&Chord::major_scale(UnkeyedNote(0)).invert()),
        vec![1, 3, 6, 8, 10]
    );
}

#[test]
fn invert_twice_restores_the_chord() {
    let c = Chord::new(UnkeyedNote(5), Modifiers::minor_tri().union(Modifiers::add_minor7()));
    assert_ne!(c.invert(), c);
    assert_eq!(c.invert().invert(), c);
    let full: Vec<i16> = pcs(&c).into_iter().chain(pcs(&c.invert())).collect();
    let mut sorted = full.clone();
    sorted.sort();
    assert_eq!(sorted, (0..12).collect::<Vec<i16>>());
}

#[test]
fn note_above_root_and_has_root() {
    let c = Chord::new_triad(UnkeyedNote(9));
    assert_eq!(c.get_note_above_root(UnkeyedNote(4)).0, 7);
    assert_eq!(c.get_note_above_root(UnkeyedNote(-3)).0, 0);
    assert!(c.has_root(UnkeyedNote(21)));
    assert!(!c.has_root(UnkeyedNote(0)));
    assert_eq!(c.get_root(), UnkeyedNote(9));
}

#[test]
fn modifiers_set_operations() {
    let m = Modifiers::sus4();
    assert!(m.contains(Modifiers::add4()));
    assert!(m.contains(Modifiers::no3()));
    assert!(!Modifiers::add4().contains(m));
    assert_eq!(Modifiers::add4() | Modifiers::no3(), m);
    assert_eq!(m.difference(Modifiers::no3()), Modifiers::add4());
    assert!(Modifiers::empty().is_empty());
    assert_eq!(Modifiers::from_bits_truncate(0xffff).bits(), 0x1fff);
    assert_eq!(Modifiers::from_bits_truncate(1 << 13 | 1 << 14 | 1).bits(), 1);
}
