//! Chords: a root plus a set of modifiers that shape its pitch-class mask.
use crate::notes::{all_pitch_classes, bit_set, pc12, rem12, PitchClassSet, UnkeyedNote, UnrootedNote};
use std::ops::BitOr;
use vstd::prelude::*;
use vstd::std_specs::ops::BitOrSpecImpl;

verus! {

/// A set of chord modifiers, one bit per modifier.
#[derive(Clone, Copy, Debug, PartialEq, Eq, Structural, Hash)]
pub struct Modifiers {
    pub bits: u16,
}

/// The modifiers of the major scale: major triad plus second, fourth, sixth and seventh.
pub const HEPTATONIC_MAJOR: u16 = 601;

/// Whether every bit of `flag` is set in `bits`.
pub open spec fn has_flag(bits: u16, flag: u16) -> bool {
    bits & flag == flag
}

impl Modifiers {
    pub const MAJOR_TRI: u16 = 1;
    pub const MINOR_TRI: u16 = 2;
    pub const DIMIN_TRI: u16 = 4;
    pub const ADD_MAJOR2: u16 = 8;
    pub const ADD_MAJOR6: u16 = 16;
    pub const ADD_MINOR7: u16 = 32;
    pub const ADD_MAJOR7: u16 = 64;
    pub const MINOR3_TO_MAJOR: u16 = 128;
    pub const RESTORE_PERFECT5: u16 = 256;
    pub const ADD4: u16 = 512;
    pub const SWITCH_MINOR_MAJOR: u16 = 1024;
    pub const NO3: u16 = 2048;
    pub const INVERT: u16 = 4096;
    pub const ADD_MINOR6: u16 = 8192;
    pub const CHROMATIC: u16 = 16384;
    pub const SUS4: u16 = 2560;
    /// The modifier bits that a mask from outside the library can carry: bits 0 to 12.
    /// `ADD_MINOR6` and `CHROMATIC` are only set from within and are not among them.
    pub const ALL: u16 = 8191;

    pub open spec fn view(self) -> u16 {
        self.bits
    }

    pub fn from_bits(bits: u16) -> (r: Modifiers)
        ensures
            r.bits == bits,
    {
        Modifiers { bits }
    }

    /// Keep only the bits of `ALL`; the others are dropped.
    pub fn from_bits_truncate(bits: u16) -> (r: Modifiers)
        ensures
            r.bits == bits & Self::ALL,
    {
        Modifiers { bits: bits & Self::ALL }
    }

    pub fn bits(&self) -> (r: u16)
        ensures
            r == self.bits,
    {
        self.bits
    }

    pub fn empty() -> (r: Modifiers)
        ensures
            r.bits == 0,
    {
        Modifiers { bits: 0 }
    }

    pub fn major_tri() -> (r: Modifiers)
        ensures
            r.bits == Self::MAJOR_TRI,
    {
        Modifiers { bits: Self::MAJOR_TRI }
    }

    pub fn minor_tri() -> (r: Modifiers)
        ensures
            r.bits == Self::MINOR_TRI,
    {
        Modifiers { bits: Self::MINOR_TRI }
    }

    pub fn dimin_tri() -> (r: Modifiers)
        ensures
            r.bits == Self::DIMIN_TRI,
    {
        Modifiers { bits: Self::DIMIN_TRI }
    }

    pub fn add_major2() -> (r: Modifiers)
        ensures
            r.bits == Self::ADD_MAJOR2,
    {
        Modifiers { bits: Self::ADD_MAJOR2 }
    }

    pub fn add_major6() -> (r: Modifiers)
        ensures
            r.bits == Self::ADD_MAJOR6,
    {
        Modifiers { bits: Self::ADD_MAJOR6 }
    }

    pub fn add_minor6() -> (r: Modifiers)
        ensures
            r.bits == Self::ADD_MINOR6,
    {
        Modifiers { bits: Self::ADD_MINOR6 }
    }

    pub fn add_minor7() -> (r: Modifiers)
        ensures
            r.bits == Self::ADD_MINOR7,
    {
        Modifiers { bits: Self::ADD_MINOR7 }
    }

    pub fn add_major7() -> (r: Modifiers)
        ensures
            r.bits == Self::ADD_MAJOR7,
    {
        Modifiers { bits: Self::ADD_MAJOR7 }
    }

    pub fn minor3_to_major() -> (r: Modifiers)
        ensures
            r.bits == Self::MINOR3_TO_MAJOR,
    {
        Modifiers { bits: Self::MINOR3_TO_MAJOR }
    }

    pub fn restore_perfect5() -> (r: Modifiers)
        ensures
            r.bits == Self::RESTORE_PERFECT5,
    {
        Modifiers { bits: Self::RESTORE_PERFECT5 }
    }

    pub fn switch_minor_major() -> (r: Modifiers)
        ensures
            r.bits == Self::SWITCH_MINOR_MAJOR,
    {
        Modifiers { bits: Self::SWITCH_MINOR_MAJOR }
    }

    pub fn add4() -> (r: Modifiers)
        ensures
            r.bits == Self::ADD4,
    {
        Modifiers { bits: Self::ADD4 }
    }

    pub fn no3() -> (r: Modifiers)
        ensures
            r.bits == Self::NO3,
    {
        Modifiers { bits: Self::NO3 }
    }

    pub fn invert() -> (r: Modifiers)
        ensures
            r.bits == Self::INVERT,
    {
        Modifiers { bits: Self::INVERT }
    }

    pub fn chromatic() -> (r: Modifiers)
        ensures
            r.bits == Self::CHROMATIC,
    {
        Modifiers { bits: Self::CHROMATIC }
    }

    /// Suspended fourth: add the fourth and drop the third.
    pub fn sus4() -> (r: Modifiers)
        ensures
            r.bits == Self::SUS4,
    {
        Modifiers { bits: Self::SUS4 }
    }

    /// Whether every modifier of `other` is in `self`.
    pub fn contains(&self, other: Modifiers) -> (r: bool)
        ensures
            r == has_flag(self.bits, other.bits),
    {
        self.bits & other.bits == other.bits
    }

    pub fn is_empty(&self) -> (r: bool)
        ensures
            r == (self.bits == 0),
    {
        self.bits == 0
    }

    pub fn union(self, other: Modifiers) -> (r: Modifiers)
        ensures
            r.bits == self.bits | other.bits,
    {
        Modifiers { bits: self.bits | other.bits }
    }

    pub fn difference(self, other: Modifiers) -> (r: Modifiers)
        ensures
            r.bits == self.bits & !other.bits,
    {
        Modifiers { bits: self.bits & !other.bits }
    }

    pub fn insert(&mut self, other: Modifiers)
        ensures
            final(self).bits == old(self).bits | other.bits,
    {
        self.bits = self.bits | other.bits;
    }

    pub fn remove(&mut self, other: Modifiers)
        ensures
            final(self).bits == old(self).bits & !other.bits,
    {
        self.bits = self.bits & !other.bits;
    }
}

impl BitOr for Modifiers {
    type Output = Modifiers;

    fn bitor(self, rhs: Modifiers) -> Modifiers {
        Modifiers { bits: self.bits | rhs.bits }
    }
}

impl BitOrSpecImpl for Modifiers {
    open spec fn obeys_bitor_spec() -> bool {
        true
    }

    open spec fn bitor_req(self, rhs: Modifiers) -> bool {
        true
    }

    open spec fn bitor_spec(self, rhs: Modifiers) -> Modifiers {
        Modifiers { bits: self.bits | rhs.bits }
    }
}

/// The chord tones that the destructive initializers (triads, chromatic) select.
pub open spec fn initial_mask(m: u16) -> Set<int> {
    let s = set![0int];
    let s = if has_flag(m, Modifiers::MAJOR_TRI) { set![0int, 4, 7] } else { s };
    let s = if has_flag(m, Modifiers::MINOR_TRI) { set![0int, 3, 7] } else { s };
    let s = if has_flag(m, Modifiers::DIMIN_TRI) { set![0int, 3, 6] } else { s };
    if has_flag(m, Modifiers::CHROMATIC) { all_pitch_classes() } else { s }
}

/// The tones that the constructive modifiers add to `s`.
pub open spec fn added_mask(m: u16, s: Set<int>) -> Set<int> {
    let s = if has_flag(m, Modifiers::ADD_MAJOR2) { s.insert(2) } else { s };
    let s = if has_flag(m, Modifiers::ADD_MAJOR6) { s.insert(9) } else { s };
    let s = if has_flag(m, Modifiers::ADD_MINOR6) { s.insert(8) } else { s };
    let s = if has_flag(m, Modifiers::ADD_MINOR7) { s.insert(10) } else { s };
    if has_flag(m, Modifiers::ADD_MAJOR7) { s.insert(11) } else { s }
}

/// What the third- and fifth-altering modifiers make of `s`.
pub open spec fn altered_mask(m: u16, s: Set<int>) -> Set<int> {
    let s = if has_flag(m, Modifiers::MINOR3_TO_MAJOR) { s.remove(3).insert(4) } else { s };
    let s = if has_flag(m, Modifiers::RESTORE_PERFECT5) {
        s.remove(6).remove(8).insert(7)
    } else {
        s
    };
    let s = if has_flag(m, Modifiers::ADD4) { s.insert(5) } else { s };
    let s = if has_flag(m, Modifiers::SWITCH_MINOR_MAJOR) {
        if s.contains(4) {
            s.remove(4).insert(3)
        } else if s.contains(6) {
            s.remove(6).remove(3).insert(4)
        } else {
            s.remove(3).insert(4)
        }
    } else {
        s
    };
    if has_flag(m, Modifiers::NO3) { s.remove(3).remove(4) } else { s }
}

/// The chord tones, as pitch classes above the root, that a set of modifiers selects.
///
/// Modifiers apply in a fixed order: the destructive initializers (triads, chromatic)
/// first, then the constructive ones, then the third-altering ones, and inversion last.
pub open spec fn mods_mask(m: u16) -> Set<int> {
    let s = altered_mask(m, added_mask(m, initial_mask(m)));
    if has_flag(m, Modifiers::INVERT) {
        all_pitch_classes().difference(s)
    } else {
        s
    }
}

fn initial_pcs(m: Modifiers) -> (r: PitchClassSet)
    ensures
        r@ == initial_mask(m.bits),
{
    let mut mask = PitchClassSet::root_only();
    if m.contains(Modifiers::major_tri()) {
        mask = PitchClassSet::major_tri();
    }
    if m.contains(Modifiers::minor_tri()) {
        mask = PitchClassSet::minor_tri();
    }
    if m.contains(Modifiers::dimin_tri()) {
        mask = PitchClassSet::dimin_tri();
    }
    if m.contains(Modifiers::chromatic()) {
        mask = PitchClassSet::chromatic();
    }
    mask
}

fn add_pcs(m: Modifiers, mask: &mut PitchClassSet)
    ensures
        final(mask)@ == added_mask(m.bits, old(mask)@),
{
    if m.contains(Modifiers::add_major2()) {
        mask.insert(UnrootedNote(2));
    }
    if m.contains(Modifiers::add_major6()) {
        mask.insert(UnrootedNote(9));
    }
    if m.contains(Modifiers::add_minor6()) {
        mask.insert(UnrootedNote(8));
    }
    if m.contains(Modifiers::add_minor7()) {
        mask.insert(UnrootedNote(10));
    }
    if m.contains(Modifiers::add_major7()) {
        mask.insert(UnrootedNote(11));
    }
}

fn alter_pcs(m: Modifiers, mask: &mut PitchClassSet)
    ensures
        final(mask)@ == altered_mask(m.bits, old(mask)@),
{
    if m.contains(Modifiers::minor3_to_major()) {
        mask.remove(UnrootedNote(3));
        mask.insert(UnrootedNote(4));
    }
    if m.contains(Modifiers::restore_perfect5()) {
        mask.remove(UnrootedNote(6));
        mask.remove(UnrootedNote(8));
        mask.insert(UnrootedNote(7));
    }
    if m.contains(Modifiers::add4()) {
        mask.insert(UnrootedNote(5));
    }
    if m.contains(Modifiers::switch_minor_major()) {
        if mask.contains(UnrootedNote(4)) {
            // Major becomes minor.
            mask.remove(UnrootedNote(4));
            mask.insert(UnrootedNote(3));
        } else if mask.contains(UnrootedNote(6)) {
            // Diminished becomes major.
            mask.remove(UnrootedNote(6));
            mask.remove(UnrootedNote(3));
            mask.insert(UnrootedNote(4));
        } else {
            // Otherwise (usually minor) becomes major.
            mask.remove(UnrootedNote(3));
            mask.insert(UnrootedNote(4));
        }
    }
    if m.contains(Modifiers::no3()) {
        mask.remove(UnrootedNote(3));
        mask.remove(UnrootedNote(4));
    }
}

/// Flip every pitch class of the octave.
fn invert_pcs(mask: &mut PitchClassSet)
    requires
        forall|q: int| old(mask)@.contains(q) ==> 0 <= q < 12,
    ensures
        final(mask)@ == all_pitch_classes().difference(old(mask)@),
{
    let ghost pre = mask@;
    let mut pc: u8 = 0;
    while pc < 12
        invariant
            pc <= 12,
            forall|q: int| pre.contains(q) ==> 0 <= q < 12,
            forall|q: int| 0 <= q < pc ==> (mask@.contains(q) <==> !pre.contains(q)),
            forall|q: int| pc <= q ==> (mask@.contains(q) <==> pre.contains(q)),
        decreases 12 - pc,
    {
        if mask.contains(UnrootedNote(pc)) {
            mask.remove(UnrootedNote(pc));
        } else {
            mask.insert(UnrootedNote(pc));
        }
        pc = pc + 1;
    }
    assert forall|q: int| mask@.contains(q) <==> all_pitch_classes().difference(pre).contains(q) by {
        if 0 <= q < 12 {
        } else if q >= 12 {
            assert(mask@.contains(q) <==> pre.contains(q));
        } else {
            assert(!bit_set(mask.0, q));
        }
    }
    assert(mask@ =~= all_pitch_classes().difference(pre));
}

#[derive(Debug, Clone, Copy, Eq, PartialEq, Structural)]
pub struct Chord {
    pub root: UnkeyedNote,
    pub mods: Modifiers,
}

/// The triad quality that a scale degree takes in a major key.
pub open spec fn triad_flag(root: int) -> u16 {
    let pc = pc12(root);
    if pc == 0 || pc == 5 || pc == 7 {
        Modifiers::MAJOR_TRI
    } else if pc == 2 || pc == 4 || pc == 9 {
        Modifiers::MINOR_TRI
    } else if pc == 11 {
        Modifiers::DIMIN_TRI
    } else {
        Modifiers::MAJOR_TRI
    }
}

proof fn lemma_toggle_invert(b: u16)
    by (bit_vector)
    ensures
        b & 4096u16 == 4096u16 ==> b & !4096u16 == b ^ 4096u16,
        b & 4096u16 != 4096u16 ==> b | 4096u16 == b ^ 4096u16,
{
}

impl Chord {
    /// The pitch classes above the root that the chord holds.
    pub open spec fn pcs(self) -> Set<int> {
        mods_mask(self.mods.bits)
    }

    /// Whether the chord holds `note`, of any octave.
    pub open spec fn spec_contains(self, note: int) -> bool {
        self.pcs().contains(pc12(note - self.root.0))
    }

    pub fn new(rt: UnkeyedNote, mods: Modifiers) -> (r: Self)
        ensures
            r.root == rt,
            r.mods == mods,
    {
        Self { root: rt, mods: mods }
    }

    /// The diatonic triad of a major key on the given root.
    pub fn new_triad(rt: UnkeyedNote) -> (r: Self)
        ensures
            r.root == rt,
            r.mods.bits == triad_flag(rt.0 as int),
    {
        let x = rt.wrap_to_octave();
        let mods = if x == 0 || x == 5 || x == 7 {
            Modifiers::major_tri()
        } else if x == 2 || x == 4 || x == 9 {
            Modifiers::minor_tri()
        } else if x == 11 {
            Modifiers::dimin_tri()
        } else {
            Modifiers::major_tri()
        };
        Self::new(rt, mods)
    }

    /// All seven notes of the major scale on `root`.
    pub fn major_scale(root: UnkeyedNote) -> (r: Self)
        ensures
            r.root == root,
            r.mods.bits == HEPTATONIC_MAJOR,
    {
        assert(Modifiers::MAJOR_TRI | Modifiers::ADD_MAJOR2 | Modifiers::ADD4 | Modifiers::ADD_MAJOR6
            | Modifiers::ADD_MAJOR7 == HEPTATONIC_MAJOR) by (bit_vector);
        Self::new(
            root,
            Modifiers::major_tri().union(Modifiers::add_major2()).union(Modifiers::add4()).union(
                Modifiers::add_major6(),
            ).union(Modifiers::add_major7()),
        )
    }

    /// All twelve pitch classes.
    pub fn chromatic(root: UnkeyedNote) -> (r: Self)
        ensures
            r.root == root,
            r.mods.bits == Modifiers::CHROMATIC,
    {
        Self::new(root, Modifiers::chromatic())
    }

    pub fn get_root(&self) -> (r: UnkeyedNote)
        ensures
            r == self.root,
    {
        self.root
    }

    pub fn get_mods(&self) -> (r: Modifiers)
        ensures
            r == self.mods,
    {
        self.mods
    }

    /// The same chord with the inversion modifier toggled.
    pub fn invert(&self) -> (r: Self)
        ensures
            r.root == self.root,
            r.mods.bits == self.mods.bits ^ Modifiers::INVERT,
    {
        proof {
            lemma_toggle_invert(self.mods.bits);
        }
        if self.mods.contains(Modifiers::invert()) {
            return Self::new(self.root, self.mods.difference(Modifiers::invert()));
        }
        Self::new(self.root, self.mods.union(Modifiers::invert()))
    }

    pub fn add_mods_now(&mut self, mods: Modifiers)
        ensures
            final(self).root == old(self).root,
            final(self).mods.bits == old(self).mods.bits | mods.bits,
    {
        self.mods.insert(mods);
    }

    pub fn _set_mods_now(&mut self, mods: Modifiers)
        ensures
            final(self).root == old(self).root,
            final(self).mods == mods,
    {
        self.mods = mods;
    }

    /// The pitch class of `note` above the chord's root.
    pub fn get_note_above_root(&self, note: UnkeyedNote) -> (r: UnrootedNote)
        ensures
            r.0 as int == pc12(note.0 - self.root.0),
    {
        let diff: i32 = note.0 as i32 - self.root.0 as i32;
        let shifted: i32 = diff + 72000;
        assert((diff + 72000) % 12 == diff % 12);
        UnrootedNote((shifted % 12) as u8)
    }

    /// The pitch classes above the root that the chord's modifiers select.
    pub fn get_mask(&self) -> (r: PitchClassSet)
        ensures
            r@ == self.pcs(),
    {
        let m = self.mods;
        let mut mask = initial_pcs(m);
        add_pcs(m, &mut mask);
        alter_pcs(m, &mut mask);
        if m.contains(Modifiers::invert()) {
            invert_pcs(&mut mask);
        }
        mask
    }

    /// Whether the chord holds `note`, of any octave.
    pub fn contains(&self, note: UnkeyedNote) -> (r: bool)
        ensures
            r == self.spec_contains(note.0 as int),
    {
        let rel = self.get_note_above_root(note);
        self.get_mask().contains(rel)
    }

    /// Whether `note` is the chord's root, of any octave.
    pub fn has_root(&self, note: UnkeyedNote) -> (r: bool)
        ensures
            r == (pc12(note.0 as int) == pc12(self.root.0 as int)),
    {
        note.wrap_to_octave() == self.root.wrap_to_octave()
    }
}

} // verus!
